//! Handles: process-local capabilities.
//!
//! A handle pairs a reference to a kernel object — here its kind and KOID —
//! with a rights bitmask. Handles are exclusively owned by the process whose
//! table holds them; duplicating one is an explicit operation that can only
//! narrow rights, never widen them.

use vstd::prelude::*;
use crate::error::{ZxError, ZxResult};
use crate::rights::{Rights, subset_of, rights_contain};

verus! {

/// The raw per-process integer a user program names a handle by.
pub type HandleValue = u32;

/// The kind of kernel object a handle refers to.
#[derive(Clone, Copy, Debug, PartialEq, Eq, Structural)]
pub enum ObjKind {
    /// A job: container of processes.
    Job,
    /// A process: owner of a handle table and an address space.
    Process,
    /// An address-space root.
    Vmar,
    /// A channel endpoint.
    Channel,
    /// A virtual memory object.
    Vmo,
}

/// A capability: a reference to one kernel object, bounded by rights.
#[derive(Clone, Copy, Debug, PartialEq, Eq, Structural)]
pub struct Handle {
    /// Kind of the referenced object.
    pub kind: ObjKind,
    /// KOID of the referenced object.
    pub koid: u64,
    /// Rights this capability grants on the object.
    pub rights: Rights,
}

impl Handle {
    /// A handle to the object `koid` of kind `kind`, granting `rights`.
    pub fn new(kind: ObjKind, koid: u64, rights: Rights) -> (h: Self)
        ensures
            h == (Handle { kind, koid, rights }),
    {
        Handle { kind, koid, rights }
    }

    /// Duplicate this handle with `new_rights`.
    ///
    /// Succeeds exactly when `new_rights` is a subset of this handle's
    /// rights: duplication may narrow a capability but never widen it. The
    /// duplicate refers to the same object.
    pub fn duplicate(&self, new_rights: Rights) -> (r: ZxResult<Handle>)
        ensures
            subset_of(new_rights, self.rights) ==> r == Ok::<Handle, ZxError>(
                Handle { kind: self.kind, koid: self.koid, rights: new_rights },
            ),
            !subset_of(new_rights, self.rights) ==> r == Err::<Handle, ZxError>(
                ZxError::INVALID_ARGS,
            ),
    {
        if rights_contain(self.rights, new_rights) {
            Ok(Handle { kind: self.kind, koid: self.koid, rights: new_rights })
        } else {
            Err(ZxError::INVALID_ARGS)
        }
    }
}

} // verus!
