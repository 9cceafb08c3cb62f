//! Ownership classifier: decides whether an object found at a
//! destination is this controller's managed replica or an unrelated,
//! foreign object of the same name.

use vstd::prelude::*;

use crate::model::{has_key_ci, lookup_ci, SecretModel, SecretObject};

verus! {

/// Classification of what stands at a destination (namespace, name).
#[derive(Clone, Copy, Debug, PartialEq, Eq, Structural)]
pub enum ReplicaClass {
    /// Nothing exists there yet.
    Absent,
    /// An object carrying the ownership-marker label key: this
    /// controller's replica, free to update or delete.
    Managed,
    /// A pre-existing object without the marker: never to be touched.
    Foreign,
}

/// View of an optional observed object.
pub open spec fn opt_secret_view(o: Option<SecretObject>) -> Option<SecretModel> {
    match o {
        Some(s) => Some(s@),
        None => None,
    }
}

/// Classification by presence of the ownership-marker label key,
/// matched ASCII case-insensitively; the marker's value is not
/// consulted.
pub open spec fn spec_classify(existing: Option<SecretModel>, owner_key: Seq<char>) -> ReplicaClass {
    match existing {
        None => ReplicaClass::Absent,
        Some(o) => if has_key_ci(o.labels, owner_key) {
            ReplicaClass::Managed
        } else {
            ReplicaClass::Foreign
        },
    }
}

/// Classifies the object found at a destination, if any. A pure label
/// lookup: no call leaves this function.
pub fn classify(existing: &Option<SecretObject>, owner_key: &str) -> (c: ReplicaClass)
    ensures
        c == spec_classify(opt_secret_view(*existing), owner_key@),
{
    match existing {
        None => ReplicaClass::Absent,
        Some(o) => {
            if lookup_ci(&o.labels, owner_key).is_some() {
                ReplicaClass::Managed
            } else {
                ReplicaClass::Foreign
            }
        },
    }
}

} // verus!
