//! A kernel object and capability layer: rights-checked handles over
//! signal-bearing kernel objects, a bidirectional FIFO message channel,
//! virtual memory objects with paged and physical backing, and the
//! syscall-facing process layer built on top of them.

pub mod error;
pub mod rights;
pub mod object;
pub mod handle;
pub mod channel;
pub mod vmo;
pub mod task;
