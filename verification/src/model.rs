//! Data model: the secret object as the controller observes it, the
//! controller configuration, and lookups over label / annotation maps.

use vstd::prelude::*;

use crate::strutil::seq_ci_equal;

verus! {

/// Controller configuration: the recognized metadata keys. Passing them
/// explicitly (rather than reading process-wide literals) lets tests run
/// independently configured instances.
pub struct Config {
    /// Annotation key on the source whose value is the target directive.
    pub target_annotation_key: String,
    /// Label key written onto every managed replica; its value is the
    /// source object's UID.
    pub owner_label_key: String,
    /// Finalizer token placed in the source object's finalizer list.
    pub finalizer_token: String,
}

impl Config {
    /// The keys this controller ships with.
    pub fn default_keys() -> (c: Config)
        ensures
            c.target_annotation_key@ == "eu.fitzek.spread.target-namespace"@,
            c.owner_label_key@ == "eu.fitzek.spread.owner"@,
            c.finalizer_token@ == "secretspreading.fitzek.eu/finalizer"@,
    {
        Config {
            target_annotation_key: "eu.fitzek.spread.target-namespace".to_owned(),
            owner_label_key: "eu.fitzek.spread.owner".to_owned(),
            finalizer_token: "secretspreading.fitzek.eu/finalizer".to_owned(),
        }
    }
}

/// A secret object as observed from the cluster: metadata that the
/// controller reads or writes, plus the payload. Label, annotation and
/// payload maps are carried as ordered key/value sequences (the map
/// iteration order of the store); payload values are raw bytes.
#[derive(Clone, Debug)]
pub struct SecretObject {
    pub name: String,
    pub namespace: Option<String>,
    pub uid: Option<String>,
    pub labels: Vec<(String, String)>,
    pub annotations: Vec<(String, String)>,
    /// `None` when the object has no finalizer field at all.
    pub finalizers: Option<Vec<String>>,
    /// True when a deletion timestamp is set on the object.
    pub deletion_pending: bool,
    /// The secret's type tag.
    pub type_tag: Option<String>,
    /// The data map: key to raw bytes.
    pub payload: Vec<(String, Vec<u8>)>,
}

/// Mathematical image of a [`SecretObject`].
#[verifier::ext_equal]
pub struct SecretModel {
    pub name: Seq<char>,
    pub namespace: Option<Seq<char>>,
    pub uid: Option<Seq<char>>,
    pub labels: Seq<(Seq<char>, Seq<char>)>,
    pub annotations: Seq<(Seq<char>, Seq<char>)>,
    pub finalizers: Option<Seq<Seq<char>>>,
    pub deletion_pending: bool,
    pub type_tag: Option<Seq<char>>,
    pub payload: Seq<(Seq<char>, Seq<u8>)>,
}

/// View of a string key/value pair sequence.
pub open spec fn pairs_view(v: Seq<(String, String)>) -> Seq<(Seq<char>, Seq<char>)> {
    v.map_values(|p: (String, String)| (p.0@, p.1@))
}

/// View of a payload sequence.
pub open spec fn payload_view(v: Seq<(String, Vec<u8>)>) -> Seq<(Seq<char>, Seq<u8>)> {
    v.map_values(|p: (String, Vec<u8>)| (p.0@, p.1@))
}

/// View of an optional string.
pub open spec fn opt_str_view(v: Option<String>) -> Option<Seq<char>> {
    match v {
        Some(s) => Some(s@),
        None => None,
    }
}

/// View of an optional string list.
pub open spec fn opt_list_view(v: Option<Vec<String>>) -> Option<Seq<Seq<char>>> {
    match v {
        Some(l) => Some(l@.map_values(|s: String| s@)),
        None => None,
    }
}

impl View for SecretObject {
    type V = SecretModel;

    open spec fn view(&self) -> SecretModel {
        SecretModel {
            name: self.name@,
            namespace: opt_str_view(self.namespace),
            uid: opt_str_view(self.uid),
            labels: pairs_view(self.labels@),
            annotations: pairs_view(self.annotations@),
            finalizers: opt_list_view(self.finalizers),
            deletion_pending: self.deletion_pending,
            type_tag: opt_str_view(self.type_tag),
            payload: payload_view(self.payload@),
        }
    }
}

/// Some key of `pairs` matches `key` ASCII case-insensitively.
pub open spec fn has_key_ci(pairs: Seq<(Seq<char>, Seq<char>)>, key: Seq<char>) -> bool {
    exists|i: int| 0 <= i < pairs.len() && seq_ci_equal(pairs[i].0, key)
}

/// Value of the first entry of `pairs` whose key matches `key` ASCII
/// case-insensitively; the result of a map lookup under the observed
/// iteration order.
pub open spec fn lookup_ci_spec(pairs: Seq<(Seq<char>, Seq<char>)>, key: Seq<char>) -> Option<
    Seq<char>,
>
    decreases pairs.len(),
{
    if pairs.len() == 0 {
        None
    } else if seq_ci_equal(pairs[0].0, key) {
        Some(pairs[0].1)
    } else {
        lookup_ci_spec(pairs.drop_first(), key)
    }
}

/// Some entry of `pairs` is exactly `(key, value)`.
pub open spec fn has_pair(
    pairs: Seq<(Seq<char>, Seq<char>)>,
    key: Seq<char>,
    value: Seq<char>,
) -> bool {
    exists|i: int| 0 <= i < pairs.len() && pairs[i].0 == key && pairs[i].1 == value
}

/// Does `pairs` hold exactly the entry `(key, value)`?
pub fn has_pair_exec(pairs: &Vec<(String, String)>, key: &str, value: &str) -> (r: bool)
    ensures
        r == has_pair(pairs_view(pairs@), key@, value@),
{
    let ghost all = pairs_view(pairs@);
    let mut i: usize = 0;
    while i < pairs.len()
        invariant
            0 <= i <= pairs.len(),
            all == pairs_view(pairs@),
            all.len() == pairs.len(),
            forall|j: int| 0 <= j < i ==> !(all[j].0 == key@ && all[j].1 == value@),
        decreases pairs.len() - i,
    {
        if crate::strutil::str_eq(pairs[i].0.as_str(), key) && crate::strutil::str_eq(
            pairs[i].1.as_str(),
            value,
        ) {
            proof {
                assert(all[i as int].0 == key@ && all[i as int].1 == value@);
            }
            return true;
        }
        i += 1;
    }
    false
}

/// `pairs` with `key` bound to `value`: the first entry with exactly
/// that key is replaced in place, or the binding is appended when the
/// key is absent — a map insert under the observed entry order.
pub open spec fn spec_upsert(
    pairs: Seq<(Seq<char>, Seq<char>)>,
    key: Seq<char>,
    value: Seq<char>,
) -> Seq<(Seq<char>, Seq<char>)>
    decreases pairs.len(),
{
    if pairs.len() == 0 {
        seq![(key, value)]
    } else if pairs[0].0 == key {
        seq![(key, value)] + pairs.drop_first()
    } else {
        seq![pairs[0]] + spec_upsert(pairs.drop_first(), key, value)
    }
}

/// An upsert always leaves the binding in the map.
pub proof fn lemma_upsert_has_pair(
    pairs: Seq<(Seq<char>, Seq<char>)>,
    key: Seq<char>,
    value: Seq<char>,
)
    ensures
        has_pair(spec_upsert(pairs, key, value), key, value),
    decreases pairs.len(),
{
    if pairs.len() == 0 {
        assert(spec_upsert(pairs, key, value)[0] == (key, value));
    } else if pairs[0].0 == key {
        assert(spec_upsert(pairs, key, value)[0] == (key, value));
    } else {
        lemma_upsert_has_pair(pairs.drop_first(), key, value);
        let rec = spec_upsert(pairs.drop_first(), key, value);
        let i = choose|i: int| 0 <= i < rec.len() && rec[i].0 == key && rec[i].1 == value;
        assert(spec_upsert(pairs, key, value)[i + 1] == rec[i]);
    }
}

/// Binds `key` to `value` in `pairs`: replaces the first entry carrying
/// exactly that key, or appends the binding when the key is absent.
pub fn upsert_pair(pairs: &Vec<(String, String)>, key: &str, value: &str) -> (r: Vec<
    (String, String),
>)
    ensures
        pairs_view(r@) == spec_upsert(pairs_view(pairs@), key@, value@),
{
    let ghost all = pairs_view(pairs@);
    let mut out: Vec<(String, String)> = Vec::new();
    proof {
        assert(all.skip(0) =~= all);
        assert(pairs_view(out@) + spec_upsert(all, key@, value@) =~= spec_upsert(
            all,
            key@,
            value@,
        ));
    }
    let mut i: usize = 0;
    while i < pairs.len()
        invariant
            0 <= i <= pairs.len(),
            all == pairs_view(pairs@),
            all.len() == pairs.len(),
            forall|j: int| 0 <= j < i ==> all[j].0 != key@,
            spec_upsert(all, key@, value@) == pairs_view(out@) + spec_upsert(
                all.skip(i as int),
                key@,
                value@,
            ),
        decreases pairs.len() - i,
    {
        let ghost views = pairs_view(out@);
        let ghost rest = all.skip(i as int);
        proof {
            assert(rest[0] == all[i as int]);
            assert(rest.drop_first() =~= all.skip(i + 1));
        }
        if crate::strutil::str_eq(pairs[i].0.as_str(), key) {
            // Replace this entry, then carry the remainder over unchanged.
            let fresh = (key.to_owned(), value.to_owned());
            proof {
                assert(spec_upsert(rest, key@, value@) =~= seq![(key@, value@)] + all.skip(i + 1));
                assert(out@.push(fresh).map_values(|p: (String, String)| (p.0@, p.1@)) =~= views
                    + seq![(key@, value@)]);
                assert((views + seq![(key@, value@)]) + all.skip(i + 1) =~= views + (seq![
                    (key@, value@),
                ] + all.skip(i + 1)));
                assert(all.subrange(i + 1, i + 1) =~= Seq::<(Seq<char>, Seq<char>)>::empty());
            }
            out.push(fresh);
            let mut j: usize = i + 1;
            while j < pairs.len()
                invariant
                    i + 1 <= j <= pairs.len(),
                    all == pairs_view(pairs@),
                    all.len() == pairs.len(),
                    spec_upsert(all, key@, value@) == pairs_view(out@) + all.subrange(
                        j as int,
                        all.len() as int,
                    ),
                decreases pairs.len() - j,
            {
                let ghost views2 = pairs_view(out@);
                let copied = (pairs[j].0.clone(), pairs[j].1.clone());
                proof {
                    assert(out@.push(copied).map_values(|p: (String, String)| (p.0@, p.1@))
                        =~= views2.push(all[j as int]));
                    assert(views2.push(all[j as int]) =~= views2 + seq![all[j as int]]);
                    assert((views2 + seq![all[j as int]]) + all.subrange(j + 1, all.len() as int)
                        =~= views2 + all.subrange(j as int, all.len() as int));
                }
                out.push(copied);
                j += 1;
            }
            proof {
                assert(all.subrange(pairs.len() as int, all.len() as int) =~= Seq::<
                    (Seq<char>, Seq<char>),
                >::empty());
                assert(pairs_view(out@) + Seq::<(Seq<char>, Seq<char>)>::empty() =~= pairs_view(
                    out@,
                ));
            }
            return out;
        }
        let copied = (pairs[i].0.clone(), pairs[i].1.clone());
        proof {
            assert(spec_upsert(rest, key@, value@) =~= seq![all[i as int]] + spec_upsert(
                all.skip(i + 1),
                key@,
                value@,
            ));
            assert(out@.push(copied).map_values(|p: (String, String)| (p.0@, p.1@)) =~= views.push(
                all[i as int],
            ));
            assert(views.push(all[i as int]) =~= views + seq![all[i as int]]);
            assert((views + seq![all[i as int]]) + spec_upsert(all.skip(i + 1), key@, value@)
                =~= views + (seq![all[i as int]] + spec_upsert(all.skip(i + 1), key@, value@)));
        }
        out.push(copied);
        i += 1;
    }
    let fresh = (key.to_owned(), value.to_owned());
    proof {
        let ghost views = pairs_view(out@);
        assert(all.skip(pairs.len() as int) =~= Seq::<(Seq<char>, Seq<char>)>::empty());
        assert(spec_upsert(all.skip(pairs.len() as int), key@, value@) =~= seq![(key@, value@)]);
        assert(out@.push(fresh).map_values(|p: (String, String)| (p.0@, p.1@)) =~= views.push(
            (key@, value@),
        ));
        assert(views.push((key@, value@)) =~= views + seq![(key@, value@)]);
    }
    out.push(fresh);
    out
}

/// Copies a byte string.
pub fn copy_bytes(b: &Vec<u8>) -> (r: Vec<u8>)
    ensures
        r@ == b@,
{
    let mut r: Vec<u8> = Vec::new();
    let mut i: usize = 0;
    while i < b.len()
        invariant
            0 <= i <= b.len(),
            r@ == b@.take(i as int),
        decreases b.len() - i,
    {
        proof {
            assert(b@.take(i + 1) =~= b@.take(i as int).push(b@[i as int]));
        }
        r.push(b[i]);
        i += 1;
    }
    proof {
        assert(b@.take(b.len() as int) =~= b@);
    }
    r
}

/// Byte-for-byte equality of two byte strings.
pub fn bytes_eq(a: &Vec<u8>, b: &Vec<u8>) -> (r: bool)
    ensures
        r == (a@ == b@),
{
    if a.len() != b.len() {
        return false;
    }
    let mut i: usize = 0;
    while i < a.len()
        invariant
            0 <= i <= a.len(),
            a@.len() == b@.len(),
            forall|j: int| 0 <= j < i ==> a@[j] == b@[j],
        decreases a.len() - i,
    {
        if a[i] != b[i] {
            return false;
        }
        i += 1;
    }
    proof {
        assert(a@ =~= b@);
    }
    true
}

/// Copies a payload map.
pub fn copy_payload(p: &Vec<(String, Vec<u8>)>) -> (r: Vec<(String, Vec<u8>)>)
    ensures
        payload_view(r@) == payload_view(p@),
{
    let mut r: Vec<(String, Vec<u8>)> = Vec::new();
    let mut i: usize = 0;
    while i < p.len()
        invariant
            0 <= i <= p.len(),
            r@.len() == i,
            forall|j: int| 0 <= j < i ==> r@[j].0@ == p@[j].0@ && r@[j].1@ == p@[j].1@,
        decreases p.len() - i,
    {
        let entry = (p[i].0.clone(), copy_bytes(&p[i].1));
        r.push(entry);
        i += 1;
    }
    proof {
        assert(payload_view(r@) =~= payload_view(p@));
    }
    r
}

/// Byte-for-byte equality of two payload maps under their entry order.
pub fn payload_eq(a: &Vec<(String, Vec<u8>)>, b: &Vec<(String, Vec<u8>)>) -> (r: bool)
    ensures
        r == (payload_view(a@) == payload_view(b@)),
{
    if a.len() != b.len() {
        proof {
            assert(payload_view(a@).len() != payload_view(b@).len());
        }
        return false;
    }
    let mut i: usize = 0;
    while i < a.len()
        invariant
            0 <= i <= a.len(),
            a@.len() == b@.len(),
            forall|j: int|
                0 <= j < i ==> payload_view(a@)[j] == #[trigger] payload_view(b@)[j],
        decreases a.len() - i,
    {
        if !crate::strutil::str_eq(a[i].0.as_str(), b[i].0.as_str()) {
            proof {
                assert(payload_view(a@)[i as int].0 != payload_view(b@)[i as int].0);
            }
            return false;
        }
        if !bytes_eq(&a[i].1, &b[i].1) {
            proof {
                assert(payload_view(a@)[i as int].1 != payload_view(b@)[i as int].1);
            }
            return false;
        }
        proof {
            assert(payload_view(a@)[i as int] == payload_view(b@)[i as int]);
        }
        i += 1;
    }
    proof {
        assert(payload_view(a@) =~= payload_view(b@));
    }
    true
}

/// The first ASCII case-insensitive match for `key` in `pairs`, cloned.
pub fn lookup_ci(pairs: &Vec<(String, String)>, key: &str) -> (r: Option<String>)
    ensures
        opt_str_view(r) == lookup_ci_spec(pairs_view(pairs@), key@),
        r is Some <==> has_key_ci(pairs_view(pairs@), key@),
{
    let ghost all = pairs_view(pairs@);
    proof {
        assert(all.skip(0) =~= all);
    }
    let mut i: usize = 0;
    while i < pairs.len()
        invariant
            0 <= i <= pairs.len(),
            all == pairs_view(pairs@),
            all.len() == pairs.len(),
            forall|j: int| 0 <= j < i ==> !seq_ci_equal(all[j].0, key@),
            lookup_ci_spec(all.skip(i as int), key@) == lookup_ci_spec(all, key@),
        decreases pairs.len() - i,
    {
        let ghost rest = all.skip(i as int);
        proof {
            assert(rest[0] == all[i as int]);
            assert(rest.drop_first() =~= all.skip(i + 1));
        }
        if crate::strutil::str_ci_eq(pairs[i].0.as_str(), key) {
            let v = pairs[i].1.clone();
            proof {
                assert(lookup_ci_spec(all, key@) == Some(all[i as int].1));
            }
            return Some(v);
        }
        i += 1;
    }
    proof {
        assert(all.skip(pairs.len() as int) =~= Seq::<(Seq<char>, Seq<char>)>::empty());
    }
    None
}

} // verus!
