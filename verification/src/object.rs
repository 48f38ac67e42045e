//! The kernel object base: identity and signal state.
//!
//! Every kernel object carries a KOID (a numeric identity assigned once at
//! creation) and a signal bitmask. Signal mutation is total: `signal_set`
//! and `signal_clear` never fail. Exclusive access to an object while its
//! signals change is expressed here by `&mut` ownership — the borrow is the
//! object's mutual-exclusion domain, so two signal updates on one object can
//! only happen in sequence.
//!
//! Observer callbacks (the wake-up primitive an external wait mechanism
//! builds on) are boxed closures and live with that mechanism outside this
//! verified layer; this layer exposes the signal state they are fed with.

use vstd::prelude::*;

verus! {

/// Signal bit: the object has data to read (a channel endpoint's own
/// receive queue is non-empty).
pub const READABLE: u32 = 1;
/// Signal bit: the object accepts writes. Channel endpoints never clear it.
pub const WRITABLE: u32 = 2;
/// Signal bit: the channel peer endpoint was destroyed. Set at most once
/// and never cleared.
pub const PEER_CLOSED: u32 = 4;

/// Does the bitmask `state` contain the bit(s) `bit`?
pub open spec fn has_signal(state: u32, bit: u32) -> bool {
    state & bit != 0
}

/// `bit` is a single signal bit: exactly one bit of the mask is set.
pub open spec fn single_bit(bit: u32) -> bool {
    bit != 0 && bit & (bit - 1) as u32 == 0
}

/// Each of the three signal constants is a single distinct bit.
pub proof fn lemma_signal_constants()
    ensures
        single_bit(READABLE),
        single_bit(WRITABLE),
        single_bit(PEER_CLOSED),
        !has_signal(READABLE, WRITABLE),
        !has_signal(READABLE, PEER_CLOSED),
        !has_signal(WRITABLE, READABLE),
        !has_signal(WRITABLE, PEER_CLOSED),
        !has_signal(PEER_CLOSED, READABLE),
        !has_signal(PEER_CLOSED, WRITABLE),
        has_signal(READABLE, READABLE),
        has_signal(WRITABLE, WRITABLE),
        has_signal(PEER_CLOSED, PEER_CLOSED),
{
    assert(1u32 & (1u32 - 1) as u32 == 0 && 2u32 & (2u32 - 1) as u32 == 0 && 4u32 & (4u32 - 1)
        as u32 == 0) by (bit_vector);
    assert(1u32 & 2u32 == 0 && 1u32 & 4u32 == 0 && 2u32 & 1u32 == 0 && 2u32 & 4u32 == 0 && 4u32
        & 1u32 == 0 && 4u32 & 2u32 == 0) by (bit_vector);
    assert(1u32 & 1u32 != 0 && 2u32 & 2u32 != 0 && 4u32 & 4u32 != 0) by (bit_vector);
}

/// After OR-ing a mask in, a bit is present exactly when it was present
/// before or is present in the mask.
pub proof fn lemma_signal_or(state: u32, mask: u32, bit: u32)
    ensures
        has_signal(state | mask, bit) == (has_signal(state, bit) || has_signal(mask, bit)),
{
    assert(((state | mask) & bit != 0) == ((state & bit != 0) || (mask & bit != 0)))
        by (bit_vector);
}

/// OR-ing in a single bit that is already present leaves the state as it was.
pub proof fn lemma_single_bit_contained(state: u32, bit: u32)
    requires
        single_bit(bit),
        has_signal(state, bit),
    ensures
        state | bit == state,
{
    assert(state | bit == state) by (bit_vector)
        requires
            bit != 0 && bit & (bit - 1) as u32 == 0 && state & bit != 0,
    ;
}

/// After AND-NOT-ing a mask out, a single bit is present exactly when it was
/// present before and is not in the mask.
pub proof fn lemma_signal_clear(state: u32, mask: u32, bit: u32)
    requires
        single_bit(bit),
    ensures
        has_signal(state & !mask, bit) == (has_signal(state, bit) && !has_signal(mask, bit)),
{
    assert(((state & !mask) & bit != 0) == ((state & bit != 0) && !(mask & bit != 0)))
        by (bit_vector)
        requires
            bit != 0 && bit & (bit - 1) as u32 == 0,
    ;
}

/// State common to every kernel object: identity and signal bitmask.
pub struct KObjectBase {
    /// Numeric identity, assigned once at creation and never changed.
    pub koid: u64,
    /// Current signal bitmask.
    pub signal: u32,
}

impl KObjectBase {
    /// A fresh object base with no signal set.
    pub fn new(koid: u64) -> (base: Self)
        ensures
            base.koid == koid,
            base.signal == 0u32,
    {
        KObjectBase { koid, signal: 0u32 }
    }

    /// A fresh object base with an initial signal bitmask.
    pub fn with_signal(koid: u64, signal: u32) -> (base: Self)
        ensures
            base.koid == koid,
            base.signal == signal,
    {
        KObjectBase { koid, signal }
    }

    /// Current signal bitmask; a pure read with no side effect.
    pub fn signal(&self) -> (state: u32)
        ensures
            state == self.signal,
    {
        self.signal
    }

    /// OR the given bits into the signal bitmask. Total: never fails.
    pub fn signal_set(&mut self, mask: u32)
        ensures
            final(self).signal == old(self).signal | mask,
            final(self).koid == old(self).koid,
    {
        self.signal = self.signal | mask;
    }

    /// Clear the given bits from the signal bitmask. Total: never fails.
    pub fn signal_clear(&mut self, mask: u32)
        ensures
            final(self).signal == old(self).signal & !mask,
            final(self).koid == old(self).koid,
    {
        self.signal = self.signal & !mask;
    }
}

/// Allocator of kernel object identities. KOIDs count upward and are never
/// reused, which keeps every identity it hands out unique.
pub struct KoidGen {
    /// The next identity to hand out.
    pub next: u64,
}

impl KoidGen {
    /// Start allocating from the first identity.
    pub fn new() -> (gen: Self)
        ensures
            gen.next == 1u64,
    {
        KoidGen { next: 1u64 }
    }

    /// Hand out a fresh KOID, distinct from every one handed out before.
    pub fn allocate(&mut self) -> (koid: u64)
        requires
            old(self).next < u64::MAX,
        ensures
            koid == old(self).next,
            final(self).next == old(self).next + 1,
    {
        let koid = self.next;
        self.next = self.next + 1;
        koid
    }
}

} // verus!
