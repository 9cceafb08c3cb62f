//! Garbage collector: once the source is being deleted, every replica
//! it ever produced — found cluster-wide by the ownership marker, not by
//! the current directive — is deleted before the finalizer is released.

use vstd::prelude::*;

use crate::model::{has_pair, has_pair_exec, pairs_view, Config, SecretModel, SecretObject};

verus! {

/// `o` carries the ownership marker: the label `key` bound exactly to
/// `uid`. This is what the cluster-side label selector matches.
pub open spec fn owner_marked(o: SecretModel, key: Seq<char>, uid: Seq<char>) -> bool {
    has_pair(o.labels, key, uid)
}

/// The (namespace, name) pairs to delete, in listing order: every
/// listed object that carries the marker and reports a namespace. The
/// current target directive plays no part.
pub open spec fn spec_gc_targets(
    listed: Seq<SecretModel>,
    key: Seq<char>,
    uid: Seq<char>,
) -> Seq<(Seq<char>, Seq<char>)> {
    listed.filter(|o: SecretModel| owner_marked(o, key, uid) && o.namespace is Some).map_values(
        |o: SecretModel| (o.namespace->Some_0, o.name),
    )
}

/// The label selector that enumerates this source's replicas:
/// `<owner key>=<uid>`.
pub fn owner_selector(cfg: &Config, uid: &str) -> (s: String)
    ensures
        s@ == cfg.owner_label_key@ + "="@ + uid@,
{
    let mut s = cfg.owner_label_key.clone();
    s.append("=");
    s.append(uid);
    s
}

/// Re-checks the marker on every listed object and hands back the
/// (namespace, name) pairs to delete, in listing order. An object the
/// listing returned without the marker — or without a namespace — is
/// left alone rather than trusted to the selector.
pub fn gc_targets(listed: &Vec<SecretObject>, cfg: &Config, uid: &str) -> (d: Vec<(String, String)>)
    ensures
        pairs_view(d@) == spec_gc_targets(
            listed@.map_values(|o: SecretObject| o@),
            cfg.owner_label_key@,
            uid@,
        ),
{
    let ghost all = listed@.map_values(|o: SecretObject| o@);
    let ghost pred = |o: SecretModel| owner_marked(o, cfg.owner_label_key@, uid@)
        && o.namespace is Some;
    let ghost img = |o: SecretModel| (o.namespace->Some_0, o.name);
    let mut d: Vec<(String, String)> = Vec::new();
    proof {
        reveal(Seq::filter);
        assert(all.take(0) =~= Seq::<SecretModel>::empty());
        assert(pairs_view(d@) =~= all.take(0).filter(pred).map_values(img));
    }
    let mut i: usize = 0;
    while i < listed.len()
        invariant
            0 <= i <= listed.len(),
            all == listed@.map_values(|o: SecretObject| o@),
            all.len() == listed.len(),
            pred == (|o: SecretModel| owner_marked(o, cfg.owner_label_key@, uid@)
                && o.namespace is Some),
            img == (|o: SecretModel| (o.namespace->Some_0, o.name)),
            pairs_view(d@) == all.take(i as int).filter(pred).map_values(img),
        decreases listed.len() - i,
    {
        let ghost views = pairs_view(d@);
        proof {
            reveal(Seq::filter);
            assert(all.take(i + 1).drop_last() =~= all.take(i as int));
            assert(all.take(i + 1).last() == all[i as int]);
        }
        let o = &listed[i];
        if has_pair_exec(&o.labels, cfg.owner_label_key.as_str(), uid) {
            match &o.namespace {
                Some(ns) => {
                    let entry = (ns.clone(), o.name.clone());
                    proof {
                        assert(pred(all[i as int]));
                        assert(d@.push(entry).map_values(|p: (String, String)| (p.0@, p.1@))
                            =~= views.push(img(all[i as int])));
                        assert(all.take(i as int).filter(pred).push(all[i as int]).map_values(img)
                            =~= views.push(img(all[i as int])));
                    }
                    d.push(entry);
                },
                None => {
                    proof {
                        assert(!pred(all[i as int]));
                    }
                },
            }
        } else {
            proof {
                assert(!pred(all[i as int]));
            }
        }
        i += 1;
    }
    proof {
        assert(all.take(listed.len() as int) =~= all);
    }
    d
}

/// Elements a filter keeps were in the original sequence.
proof fn lemma_filter_subset(s: Seq<SecretModel>, pred: spec_fn(SecretModel) -> bool)
    ensures
        forall|j: int|
            0 <= j < s.filter(pred).len() ==> exists|i: int|
                0 <= i < s.len() && s[i] == #[trigger] s.filter(pred)[j],
    decreases s.len(),
{
    reveal(Seq::filter);
    if s.len() > 0 {
        lemma_filter_subset(s.drop_last(), pred);
        assert forall|j: int| 0 <= j < s.filter(pred).len() implies exists|i: int|
            0 <= i < s.len() && s[i] == #[trigger] s.filter(pred)[j] by {
            let sub = s.drop_last().filter(pred);
            if j < sub.len() {
                let i = choose|i: int| 0 <= i < s.drop_last().len() && s.drop_last()[i] == sub[j];
                assert(s[i] == s.filter(pred)[j]);
            } else {
                assert(s[s.len() - 1] == s.filter(pred)[j]);
            }
        }
    }
}

/// `t` is the (namespace, name) of some listed object that carries the
/// ownership marker.
pub open spec fn target_from_marked(
    listed: Seq<SecretModel>,
    key: Seq<char>,
    uid: Seq<char>,
    t: (Seq<char>, Seq<char>),
) -> bool {
    exists|i: int|
        0 <= i < listed.len() && owner_marked(#[trigger] listed[i], key, uid) && t == (
        listed[i].namespace->Some_0,
        listed[i].name,
        )
}

/// Garbage collection goes by the ownership marker alone. Every listed
/// object carrying the marker (and a namespace) is deleted, wherever the
/// current directive points; and nothing else is: each deletion target
/// is a listed, marker-carrying object — a foreign object is never
/// deleted.
pub proof fn lemma_gc_by_marker(listed: Seq<SecretModel>, key: Seq<char>, uid: Seq<char>)
    ensures
        forall|i: int|
            0 <= i < listed.len() && owner_marked(#[trigger] listed[i], key, uid)
                && listed[i].namespace is Some ==> spec_gc_targets(listed, key, uid).contains(
                (listed[i].namespace->Some_0, listed[i].name),
            ),
        forall|j: int|
            0 <= j < spec_gc_targets(listed, key, uid).len() ==> target_from_marked(
                listed,
                key,
                uid,
                #[trigger] spec_gc_targets(listed, key, uid)[j],
            ),
{
    let pred = |o: SecretModel| owner_marked(o, key, uid) && o.namespace is Some;
    let img = |o: SecretModel| (o.namespace->Some_0, o.name);
    let kept = listed.filter(pred);
    assert forall|i: int|
        0 <= i < listed.len() && owner_marked(#[trigger] listed[i], key, uid)
            && listed[i].namespace is Some implies spec_gc_targets(listed, key, uid).contains(
        (listed[i].namespace->Some_0, listed[i].name),
    ) by {
        listed.lemma_filter_contains(pred, i);
        let k = choose|k: int| 0 <= k < kept.len() && kept[k] == listed[i];
        assert(spec_gc_targets(listed, key, uid)[k] == img(listed[i]));
    }
    assert forall|j: int|
        0 <= j < spec_gc_targets(listed, key, uid).len() implies target_from_marked(
        listed,
        key,
        uid,
        #[trigger] spec_gc_targets(listed, key, uid)[j],
    ) by {
        listed.lemma_filter_pred(pred, j);
        lemma_filter_subset(listed, pred);
        let i = choose|i: int| 0 <= i < listed.len() && listed[i] == kept[j];
        assert(spec_gc_targets(listed, key, uid)[j] == img(kept[j]));
        assert(0 <= i < listed.len() && owner_marked(listed[i], key, uid) && spec_gc_targets(
            listed,
            key,
            uid,
        )[j] == (listed[i].namespace->Some_0, listed[i].name));
    }
}

} // verus!
