//! Rights: the bitmask that gates what a handle may do.
//!
//! A right is one bit of a `u32`. Every privileged object operation declares
//! the minimum rights it requires, and the syscall layer checks them after
//! resolving a handle and before touching the object.

use vstd::prelude::*;

verus! {

/// A rights bitmask carried by a handle.
pub type Rights = u32;

/// Right to duplicate a handle.
pub const DUPLICATE: Rights = 1;
/// Right to transfer a handle through a channel.
pub const TRANSFER: Rights = 2;
/// Right to read from the object.
pub const READ: Rights = 4;
/// Right to write to the object.
pub const WRITE: Rights = 8;
/// Right to execute mappings of the object.
pub const EXECUTE: Rights = 16;
/// Right to map the object into an address space.
pub const MAP: Rights = 32;
/// Right to wait on the object's signals.
pub const WAIT: Rights = 64;
/// Right to create processes under a job.
pub const MANAGE_PROCESS: Rights = 128;
/// Default rights installed on a fresh process handle.
pub const DEFAULT_PROCESS: Rights = DUPLICATE | TRANSFER | WAIT | MANAGE_PROCESS;
/// Default rights installed on a fresh address-space-root handle.
pub const DEFAULT_VMAR: Rights = DUPLICATE | TRANSFER | WAIT | MAP;

/// `sub` asks for nothing outside `sup`: every bit of `sub` is set in `sup`.
pub open spec fn subset_of(sub: Rights, sup: Rights) -> bool {
    sub & sup == sub
}

/// Does `rights` contain every right in `required`?
///
/// This is the single gate the syscall layer applies before any privileged
/// object operation.
pub fn rights_contain(rights: Rights, required: Rights) -> (b: bool)
    ensures
        b == subset_of(required, rights),
{
    required & rights == required
}

/// Narrowing is sound: a mask allowed by narrowed rights was allowed by the
/// original rights. A duplicate made with a subset of a handle's rights can
/// therefore never exercise a right the original lacked.
pub proof fn lemma_rights_monotonic(orig: Rights, narrowed: Rights, mask: Rights)
    requires
        subset_of(narrowed, orig),
        subset_of(mask, narrowed),
    ensures
        subset_of(mask, orig),
{
    assert(mask & orig == mask) by (bit_vector)
        requires
            narrowed & orig == narrowed,
            mask & narrowed == mask,
    ;
}

} // verus!
