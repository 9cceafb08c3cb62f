//! Secret synchronizer: for one destination namespace and the object
//! observed there, decides the single write (or non-write) that brings
//! the destination in line with the source.

use vstd::prelude::*;

use crate::classify::{classify, opt_secret_view, spec_classify, ReplicaClass};
use crate::model::{
    copy_payload, has_pair, lemma_upsert_has_pair, payload_eq, payload_view, spec_upsert,
    upsert_pair, Config, SecretModel, SecretObject,
};
use crate::strutil::seq_ci_equal;

verus! {

/// The action the synchronizer asks the caller to perform at one
/// destination namespace.
pub enum SyncAction {
    /// Nothing exists there: create this replica.
    Create(SecretObject),
    /// A managed replica has drifted: merge-patch its data field to
    /// this payload.
    PatchPayload(Vec<(String, Vec<u8>)>),
    /// A foreign object of the same name stands there: emit a
    /// diagnostic and leave it untouched.
    SkipForeign,
    /// The managed replica already matches the source: no call.
    Noop,
}

/// Mathematical image of a [`SyncAction`].
#[verifier::ext_equal]
pub enum SyncActionModel {
    Create(SecretModel),
    PatchPayload(Seq<(Seq<char>, Seq<u8>)>),
    SkipForeign,
    Noop,
}

impl View for SyncAction {
    type V = SyncActionModel;

    open spec fn view(&self) -> SyncActionModel {
        match self {
            SyncAction::Create(r) => SyncActionModel::Create(r@),
            SyncAction::PatchPayload(p) => SyncActionModel::PatchPayload(payload_view(p@)),
            SyncAction::SkipForeign => SyncActionModel::SkipForeign,
            SyncAction::Noop => SyncActionModel::Noop,
        }
    }
}

/// The replica of `src` for namespace `ns`: same name, payload and type
/// tag; labels are the source's labels with the ownership marker bound
/// to the source UID; everything else starts clean.
pub open spec fn spec_replica(
    src: SecretModel,
    ns: Seq<char>,
    uid: Seq<char>,
    owner_key: Seq<char>,
) -> SecretModel {
    SecretModel {
        name: src.name,
        namespace: Some(ns),
        uid: None,
        labels: spec_upsert(src.labels, owner_key, uid),
        annotations: Seq::empty(),
        finalizers: None,
        deletion_pending: false,
        type_tag: src.type_tag,
        payload: src.payload,
    }
}

/// The synchronizer's decision for one destination, as a function of
/// the observed object's classification and payload.
pub open spec fn spec_sync_decision(
    src: SecretModel,
    ns: Seq<char>,
    existing: Option<SecretModel>,
    owner_key: Seq<char>,
    uid: Seq<char>,
) -> SyncActionModel {
    match spec_classify(existing, owner_key) {
        ReplicaClass::Absent => SyncActionModel::Create(spec_replica(src, ns, uid, owner_key)),
        ReplicaClass::Managed => if existing->Some_0.payload == src.payload {
            SyncActionModel::Noop
        } else {
            SyncActionModel::PatchPayload(src.payload)
        },
        ReplicaClass::Foreign => SyncActionModel::SkipForeign,
    }
}

/// Builds the replica of `src` for destination namespace `ns`.
pub fn build_replica(src: &SecretObject, ns: &str, uid: &str, cfg: &Config) -> (r: SecretObject)
    ensures
        r@ == spec_replica(src@, ns@, uid@, cfg.owner_label_key@),
{
    let r = SecretObject {
        name: src.name.clone(),
        namespace: Some(ns.to_owned()),
        uid: None,
        labels: upsert_pair(&src.labels, cfg.owner_label_key.as_str(), uid),
        annotations: Vec::new(),
        finalizers: None,
        deletion_pending: false,
        type_tag: match &src.type_tag {
            Some(t) => Some(t.clone()),
            None => None,
        },
        payload: copy_payload(&src.payload),
    };
    proof {
        assert(r@.annotations =~= Seq::<(Seq<char>, Seq<char>)>::empty());
        assert(r@ =~~= spec_replica(src@, ns@, uid@, cfg.owner_label_key@));
    }
    r
}

/// Decides the synchronizer's action for one destination namespace:
/// create a missing replica, re-align a drifted managed replica's
/// payload, skip a foreign object, or do nothing.
pub fn sync_decision(
    src: &SecretObject,
    ns: &str,
    existing: &Option<SecretObject>,
    cfg: &Config,
    uid: &str,
) -> (a: SyncAction)
    ensures
        a@ == spec_sync_decision(src@, ns@, opt_secret_view(*existing), cfg.owner_label_key@, uid@),
{
    match classify(existing, cfg.owner_label_key.as_str()) {
        ReplicaClass::Absent => SyncAction::Create(build_replica(src, ns, uid, cfg)),
        ReplicaClass::Managed => {
            let e = match existing {
                Some(e) => e,
                None => vstd::pervasive::unreached(),
            };
            if payload_eq(&e.payload, &src.payload) {
                SyncAction::Noop
            } else {
                SyncAction::PatchPayload(copy_payload(&src.payload))
            }
        },
        ReplicaClass::Foreign => SyncAction::SkipForeign,
    }
}

/// The cluster state at one destination after the requested action is
/// carried out.
pub open spec fn spec_apply_action(
    existing: Option<SecretModel>,
    a: SyncActionModel,
) -> Option<SecretModel> {
    match a {
        SyncActionModel::Create(r) => Some(r),
        SyncActionModel::PatchPayload(p) => match existing {
            Some(e) => Some(SecretModel { payload: p, ..e }),
            None => None,
        },
        SyncActionModel::SkipForeign => existing,
        SyncActionModel::Noop => existing,
    }
}

/// A freshly built replica classifies as managed: it carries the
/// ownership marker.
pub proof fn lemma_replica_is_managed(
    src: SecretModel,
    ns: Seq<char>,
    uid: Seq<char>,
    owner_key: Seq<char>,
)
    ensures
        spec_classify(Some(spec_replica(src, ns, uid, owner_key)), owner_key)
            == ReplicaClass::Managed,
{
    lemma_upsert_has_pair(src.labels, owner_key, uid);
    let labels = spec_upsert(src.labels, owner_key, uid);
    let i = choose|i: int| 0 <= i < labels.len() && labels[i].0 == owner_key && labels[i].1 == uid;
    assert(seq_ci_equal(labels[i].0, owner_key));
}

/// Idempotence of the synchronizer: once its decision for a destination
/// has been carried out, a second look at that destination asks for no
/// write — a foreign object is skipped again, anything else is already
/// in line.
pub proof fn lemma_sync_idempotent(
    src: SecretModel,
    ns: Seq<char>,
    existing: Option<SecretModel>,
    owner_key: Seq<char>,
    uid: Seq<char>,
)
    ensures
        ({
            let first = spec_sync_decision(src, ns, existing, owner_key, uid);
            let second = spec_sync_decision(
                src,
                ns,
                spec_apply_action(existing, first),
                owner_key,
                uid,
            );
            &&& first is SkipForeign ==> second is SkipForeign
            &&& !(first is SkipForeign) ==> second is Noop
        }),
{
    let first = spec_sync_decision(src, ns, existing, owner_key, uid);
    match spec_classify(existing, owner_key) {
        ReplicaClass::Absent => {
            lemma_replica_is_managed(src, ns, uid, owner_key);
        },
        ReplicaClass::Managed => {},
        ReplicaClass::Foreign => {},
    }
}

/// Drift correction: a managed replica whose payload differs from the
/// source's is patched back to the source payload, and afterwards the
/// synchronizer has nothing left to do there.
pub proof fn lemma_drift_corrected(
    src: SecretModel,
    ns: Seq<char>,
    e: SecretModel,
    owner_key: Seq<char>,
    uid: Seq<char>,
)
    requires
        spec_classify(Some(e), owner_key) == ReplicaClass::Managed,
        e.payload != src.payload,
    ensures
        spec_sync_decision(src, ns, Some(e), owner_key, uid) == SyncActionModel::PatchPayload(
            src.payload,
        ),
        spec_sync_decision(
            src,
            ns,
            spec_apply_action(Some(e), SyncActionModel::PatchPayload(src.payload)),
            owner_key,
            uid,
        ) == SyncActionModel::Noop,
{
}

/// Foreign protection: an object without the ownership marker is only
/// ever skipped, and carrying the decision out leaves it exactly as it
/// was, whatever the source holds.
pub proof fn lemma_foreign_untouched(
    src: SecretModel,
    ns: Seq<char>,
    e: SecretModel,
    owner_key: Seq<char>,
    uid: Seq<char>,
)
    requires
        spec_classify(Some(e), owner_key) == ReplicaClass::Foreign,
    ensures
        spec_sync_decision(src, ns, Some(e), owner_key, uid) == SyncActionModel::SkipForeign,
        spec_apply_action(Some(e), spec_sync_decision(src, ns, Some(e), owner_key, uid)) == Some(e),
{
}

} // verus!
