//! Status codes surfaced by the object layer.
//!
//! Every operation in this crate either succeeds or returns one of these
//! kinds to its immediate caller; no failure is retried or swallowed
//! internally.

use vstd::prelude::*;

verus! {

/// The closed set of error kinds surfaced by the object layer.
///
/// `SHOULD_WAIT` is the one transient kind: it tells the caller to wait for
/// a signal transition and try again, while every other kind is a definite
/// failure of the requested operation.
#[allow(non_camel_case_types)]
#[derive(Clone, Copy, Debug, PartialEq, Eq, Structural)]
pub enum ZxError {
    /// A handle value that does not resolve in the calling process's table.
    BAD_HANDLE,
    /// The resolved handle lacks a right the operation requires.
    ACCESS_DENIED,
    /// The channel peer endpoint no longer exists.
    PEER_CLOSED,
    /// No data yet; wait for a signal transition and retry.
    SHOULD_WAIT,
    /// A byte range reaches past the object's current length.
    OUT_OF_RANGE,
    /// The operation is invalid for this object variant.
    NOT_SUPPORTED,
    /// An argument is malformed, widens rights, or names the wrong object kind.
    INVALID_ARGS,
    /// An invariant violation; indicates a caller or kernel bug.
    INTERNAL,
}

/// Result type used throughout the object layer.
pub type ZxResult<T> = Result<T, ZxError>;

} // verus!
