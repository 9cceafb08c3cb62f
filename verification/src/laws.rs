//! Cross-component laws of the reconciliation engine.

use vstd::prelude::*;

use crate::finalizer::{lemma_add_idempotent, spec_add};
use crate::gc::{owner_marked, spec_gc_targets};
use crate::model::{lemma_upsert_has_pair, SecretModel};
use crate::sync::{lemma_sync_idempotent, spec_apply_action, spec_replica, spec_sync_decision};

verus! {

/// A filter that keeps every element changes nothing.
proof fn lemma_filter_all(s: Seq<SecretModel>, pred: spec_fn(SecretModel) -> bool)
    requires
        forall|i: int| 0 <= i < s.len() ==> pred(#[trigger] s[i]),
    ensures
        s.filter(pred) == s,
    decreases s.len(),
{
    reveal(Seq::filter);
    if s.len() > 0 {
        lemma_filter_all(s.drop_last(), pred);
        assert(s.filter(pred) =~= s);
    }
}

/// Round trip of replication and collection: the replicas the live path
/// builds for a set of destination namespaces each carry the ownership
/// marker, and a later collection pass over exactly those replicas
/// deletes every one of them — by (namespace, source name), in order.
pub proof fn lemma_round_trip_collects_all(
    src: SecretModel,
    nss: Seq<Seq<char>>,
    owner_key: Seq<char>,
    uid: Seq<char>,
)
    ensures
        spec_gc_targets(
            nss.map_values(|ns: Seq<char>| spec_replica(src, ns, uid, owner_key)),
            owner_key,
            uid,
        ) == nss.map_values(|ns: Seq<char>| (ns, src.name)),
{
    let listed = nss.map_values(|ns: Seq<char>| spec_replica(src, ns, uid, owner_key));
    let pred = |o: SecretModel| owner_marked(o, owner_key, uid) && o.namespace is Some;
    let img = |o: SecretModel| (o.namespace->Some_0, o.name);
    assert forall|i: int| 0 <= i < listed.len() implies pred(#[trigger] listed[i]) by {
        lemma_upsert_has_pair(src.labels, owner_key, uid);
    }
    lemma_filter_all(listed, pred);
    assert(listed.filter(pred).map_values(img) =~= nss.map_values(|ns: Seq<char>| (ns, src.name)));
}

/// Idempotence of the live path. After one pass has been carried out —
/// the finalizer patch applied (if one was asked for) and, at each
/// destination namespace, the synchronizer's action performed — a second
/// pass with no external change issues no write at all: the finalizer
/// manager declines to patch, and the synchronizer's decision at every
/// destination is a no-op or the diagnostic skip of a foreign object.
pub proof fn lemma_live_pass_idempotent(
    src: SecretModel,
    fins: Option<Seq<Seq<char>>>,
    tok: Seq<char>,
    ns: Seq<char>,
    existing: Option<SecretModel>,
    owner_key: Seq<char>,
    uid: Seq<char>,
)
    ensures
        ({
            let fins_after = match spec_add(fins, tok) {
                Some(patched) => Some(patched),
                None => fins,
            };
            spec_add(fins_after, tok) is None
        }),
        ({
            let first = spec_sync_decision(src, ns, existing, owner_key, uid);
            let second = spec_sync_decision(
                src,
                ns,
                spec_apply_action(existing, first),
                owner_key,
                uid,
            );
            second is Noop || second is SkipForeign
        }),
{
    lemma_add_idempotent(fins, tok);
    lemma_sync_idempotent(src, ns, existing, owner_key, uid);
}

} // verus!
