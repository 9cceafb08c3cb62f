//! Reconciler: triages one observed source object into the live path,
//! the cleanup path, a wait for the directive, or a rejection, and
//! fixes the re-queue interval for each outcome.

use vstd::prelude::*;

use crate::model::{lookup_ci, lookup_ci_spec, Config, SecretModel, SecretObject};

verus! {

/// A permanent user-input fault in the source object.
#[derive(Clone, Copy, Debug, PartialEq, Eq, Structural)]
pub enum Error {
    /// The source reports no namespace to replicate from.
    MissingNamespace,
    /// The source reports no stable identifier to mark replicas with.
    MissingUid,
}

/// What one reconciliation invocation must do.
pub enum Triage {
    /// No target directive on the source: nothing to replicate; poll
    /// again later for the annotation to appear.
    AwaitDirective,
    /// The source lacks a required field; surface the error.
    Reject(Error),
    /// Live path: ensure the finalizer, resolve the directive, then
    /// synchronize every target namespace.
    Live { directive: String, namespace: String, uid: String },
    /// Deletion requested: enumerate replicas by the ownership marker,
    /// delete them, then release the finalizer.
    Cleanup { namespace: String, uid: String },
}

/// Mathematical image of a [`Triage`].
#[verifier::ext_equal]
pub enum TriageModel {
    AwaitDirective,
    Reject(Error),
    Live { directive: Seq<char>, namespace: Seq<char>, uid: Seq<char> },
    Cleanup { namespace: Seq<char>, uid: Seq<char> },
}

impl View for Triage {
    type V = TriageModel;

    open spec fn view(&self) -> TriageModel {
        match self {
            Triage::AwaitDirective => TriageModel::AwaitDirective,
            Triage::Reject(e) => TriageModel::Reject(*e),
            Triage::Live { directive, namespace, uid } => TriageModel::Live {
                directive: directive@,
                namespace: namespace@,
                uid: uid@,
            },
            Triage::Cleanup { namespace, uid } => TriageModel::Cleanup {
                namespace: namespace@,
                uid: uid@,
            },
        }
    }
}

/// The triage decision. Deletion takes precedence: a source being
/// deleted goes to cleanup even when the directive has meanwhile been
/// changed or removed — cleanup enumerates by marker, not by directive.
/// On the live path an absent directive means the object does not
/// participate; with a directive, the source must report a namespace
/// and a UID, in that order of checking.
pub open spec fn spec_triage(o: SecretModel, annotation_key: Seq<char>) -> TriageModel {
    if o.deletion_pending {
        if o.namespace is None {
            TriageModel::Reject(Error::MissingNamespace)
        } else if o.uid is None {
            TriageModel::Reject(Error::MissingUid)
        } else {
            TriageModel::Cleanup { namespace: o.namespace->Some_0, uid: o.uid->Some_0 }
        }
    } else {
        match lookup_ci_spec(o.annotations, annotation_key) {
            None => TriageModel::AwaitDirective,
            Some(d) => if o.namespace is None {
                TriageModel::Reject(Error::MissingNamespace)
            } else if o.uid is None {
                TriageModel::Reject(Error::MissingUid)
            } else {
                TriageModel::Live {
                    directive: d,
                    namespace: o.namespace->Some_0,
                    uid: o.uid->Some_0,
                }
            },
        }
    }
}

/// Triages one observed source object.
pub fn triage(o: &SecretObject, cfg: &Config) -> (t: Triage)
    ensures
        t@ == spec_triage(o@, cfg.target_annotation_key@),
{
    if o.deletion_pending {
        match (&o.namespace, &o.uid) {
            (None, _) => Triage::Reject(Error::MissingNamespace),
            (Some(_), None) => Triage::Reject(Error::MissingUid),
            (Some(ns), Some(u)) => Triage::Cleanup { namespace: ns.clone(), uid: u.clone() },
        }
    } else {
        match lookup_ci(&o.annotations, cfg.target_annotation_key.as_str()) {
            None => Triage::AwaitDirective,
            Some(d) => match (&o.namespace, &o.uid) {
                (None, _) => Triage::Reject(Error::MissingNamespace),
                (Some(_), None) => Triage::Reject(Error::MissingUid),
                (Some(ns), Some(u)) => Triage::Live {
                    directive: d,
                    namespace: ns.clone(),
                    uid: u.clone(),
                },
            },
        }
    }
}

/// Seconds before re-checking an object that carries no directive:
/// polls for the annotation to appear.
pub open spec fn spec_await_interval() -> u64 {
    300
}

/// Seconds before re-checking a live, replicated object: bounded drift
/// detection, since payload edits promise no event of their own.
pub open spec fn spec_live_interval() -> u64 {
    60
}

/// Seconds of fixed backoff after a failed invocation.
pub open spec fn spec_error_interval() -> u64 {
    5
}

/// The re-queue request for each triage outcome: poll slowly without a
/// directive, poll quickly while live, never after cleanup — deletion
/// is terminal — and back off briefly after a rejection.
pub open spec fn spec_requeue(t: TriageModel) -> Option<u64> {
    match t {
        TriageModel::AwaitDirective => Some(spec_await_interval()),
        TriageModel::Reject(_) => Some(spec_error_interval()),
        TriageModel::Live { .. } => Some(spec_live_interval()),
        TriageModel::Cleanup { .. } => None,
    }
}

/// Seconds of fixed backoff before re-invoking after a failure.
pub fn error_backoff_secs() -> (r: u64)
    ensures
        r == spec_error_interval(),
{
    5
}

/// Seconds until the same object should be reconciled again, or `None`
/// for a terminal outcome.
pub fn requeue_for(t: &Triage) -> (r: Option<u64>)
    ensures
        r == spec_requeue(t@),
{
    match t {
        Triage::AwaitDirective => Some(300),
        Triage::Reject(_) => Some(5),
        Triage::Live { .. } => Some(60),
        Triage::Cleanup { .. } => None,
    }
}

} // verus!
