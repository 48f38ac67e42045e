//! Bidirectional interprocess communication: the channel.
//!
//! A channel is created as an inseparable pair of endpoints. Each endpoint
//! owns a FIFO receive queue; a write on one endpoint appends to the
//! *peer's* queue. The two queues are independent: each direction is
//! ordered on its own, and no order is promised between directions.
//!
//! Here the pair is one value, `Channel_<T>`, and an endpoint is named by
//! its index (`0` or `1`). Exclusive `&mut` access to the pair stands for
//! the per-endpoint exclusion domains: every operation restores both
//! endpoints' invariants before it returns. Processes reach an endpoint
//! through handles; dropping the last handle to an endpoint is reported to
//! the pair as [`Channel_::close`], which sets `PEER_CLOSED` on the other
//! endpoint — exactly once, and it is never cleared.
//!
//! Signal bookkeeping per endpoint: `WRITABLE` is always on (writes never
//! block and there is no capacity bound at this layer), `READABLE` is on
//! exactly while the endpoint's own receive queue is non-empty.

use vstd::prelude::*;
use crate::error::{ZxError, ZxResult};
use crate::handle::Handle;
use crate::object::{
    KObjectBase, READABLE, WRITABLE, PEER_CLOSED, has_signal, lemma_signal_constants,
    lemma_signal_or, lemma_signal_clear, lemma_single_bit_contained,
};

verus! {

/// A message carried by a channel: an opaque byte payload and the handles
/// transferred with it. The sender's process loses the handles, the
/// receiver's gains them.
pub struct MessagePacket {
    /// Opaque payload bytes.
    pub data: Vec<u8>,
    /// Handles transferred by value with the payload.
    pub handles: Vec<Handle>,
}

impl Default for MessagePacket {
    /// An empty message: no payload, no handles.
    fn default() -> (m: Self)
        ensures
            m.data@ == Seq::<u8>::empty(),
            m.handles@ == Seq::<Handle>::empty(),
    {
        MessagePacket { data: Vec::new(), handles: Vec::new() }
    }
}

/// One endpoint's state: object base, receive queue, liveness.
struct ChannelEnd<T> {
    base: KObjectBase,
    queue: Vec<T>,
    alive: bool,
}

impl<T> ChannelEnd<T> {
    /// Endpoint invariant: always writable, and readable exactly while the
    /// receive queue is non-empty.
    spec fn inv(self) -> bool {
        &&& has_signal(self.base.signal, WRITABLE)
        &&& has_signal(self.base.signal, READABLE) <==> self.queue@.len() > 0
    }

    fn new(koid: u64) -> (e: Self)
        ensures
            e.base.koid == koid,
            e.base.signal == WRITABLE,
            e.queue@ == Seq::<T>::empty(),
            e.alive,
    {
        ChannelEnd { base: KObjectBase::with_signal(koid, WRITABLE), queue: Vec::new(), alive: true }
    }

    /// Append one message to this endpoint's receive queue, raising
    /// `READABLE` on the empty-to-non-empty transition.
    fn enqueue(&mut self, msg: T)
        requires
            old(self).inv(),
        ensures
            final(self).inv(),
            final(self).queue@ == old(self).queue@.push(msg),
            final(self).base.signal == old(self).base.signal | READABLE,
            has_signal(final(self).base.signal, PEER_CLOSED) == has_signal(
                old(self).base.signal,
                PEER_CLOSED,
            ),
            final(self).alive == old(self).alive,
            final(self).base.koid == old(self).base.koid,
    {
        proof {
            lemma_signal_constants();
            lemma_signal_or(self.base.signal, READABLE, READABLE);
            lemma_signal_or(self.base.signal, READABLE, WRITABLE);
            lemma_signal_or(self.base.signal, READABLE, PEER_CLOSED);
        }
        self.queue.push(msg);
        if self.queue.len() == 1 {
            self.base.signal_set(READABLE);
        } else {
            proof {
                lemma_single_bit_contained(self.base.signal, READABLE);
            }
        }
    }

    /// Pop the front of this endpoint's receive queue, clearing `READABLE`
    /// on the non-empty-to-empty transition.
    fn dequeue(&mut self) -> (msg: T)
        requires
            old(self).inv(),
            old(self).queue@.len() > 0,
        ensures
            final(self).inv(),
            msg == old(self).queue@[0],
            final(self).queue@ == old(self).queue@.drop_first(),
            has_signal(final(self).base.signal, PEER_CLOSED) == has_signal(
                old(self).base.signal,
                PEER_CLOSED,
            ),
            final(self).alive == old(self).alive,
            final(self).base.koid == old(self).base.koid,
    {
        proof {
            lemma_signal_constants();
        }
        let msg = self.queue.remove(0);
        proof {
            assert(self.queue@ =~= old(self).queue@.drop_first());
        }
        if self.queue.len() == 0 {
            proof {
                lemma_signal_clear(self.base.signal, READABLE, READABLE);
                lemma_signal_clear(self.base.signal, READABLE, WRITABLE);
                lemma_signal_clear(self.base.signal, READABLE, PEER_CLOSED);
            }
            self.base.signal_clear(READABLE);
        }
        msg
    }
}

/// A channel pair: two cross-linked endpoints, indexed `0` and `1`.
pub struct Channel_<T> {
    end0: ChannelEnd<T>,
    end1: ChannelEnd<T>,
}

/// The channel type the kernel uses: payload plus transferred handles.
pub type Channel = Channel_<MessagePacket>;

/// The index of the other endpoint of a pair.
pub open spec fn peer_of(which: int) -> int {
    1 - which
}

impl<T> Channel_<T> {
    /// The receive queue owned by endpoint `which`, front first.
    pub closed spec fn queue(self, which: int) -> Seq<T> {
        if which == 0 {
            self.end0.queue@
        } else {
            self.end1.queue@
        }
    }

    /// The signal bitmask of endpoint `which`.
    pub closed spec fn sig(self, which: int) -> u32 {
        if which == 0 {
            self.end0.base.signal
        } else {
            self.end1.base.signal
        }
    }

    /// Does endpoint `which` still exist (some handle still references it)?
    pub closed spec fn end_alive(self, which: int) -> bool {
        if which == 0 {
            self.end0.alive
        } else {
            self.end1.alive
        }
    }

    /// Well-formedness of the pair. For each endpoint that still exists:
    /// `WRITABLE` is set, `READABLE` is set exactly while its own queue is
    /// non-empty, and `PEER_CLOSED` is set exactly when the other endpoint
    /// is gone. A destroyed endpoint keeps no messages.
    pub closed spec fn wf(self) -> bool {
        &&& self.end0.alive ==> self.end0.inv() && (has_signal(self.end0.base.signal, PEER_CLOSED)
            <==> !self.end1.alive)
        &&& self.end1.alive ==> self.end1.inv() && (has_signal(self.end1.base.signal, PEER_CLOSED)
            <==> !self.end0.alive)
        &&& !self.end0.alive ==> self.end0.queue@.len() == 0
        &&& !self.end1.alive ==> self.end1.queue@.len() == 0
    }

    /// Create a channel: a pair of endpoints already cross-linked as peers,
    /// both writable, neither readable, neither peer-closed.
    pub fn create() -> (c: Self)
        ensures
            c.wf(),
            c.end_alive(0) && c.end_alive(1),
            c.queue(0) == Seq::<T>::empty(),
            c.queue(1) == Seq::<T>::empty(),
            has_signal(c.sig(0), WRITABLE) && has_signal(c.sig(1), WRITABLE),
            !has_signal(c.sig(0), READABLE) && !has_signal(c.sig(1), READABLE),
            !has_signal(c.sig(0), PEER_CLOSED) && !has_signal(c.sig(1), PEER_CLOSED),
    {
        proof {
            lemma_signal_constants();
        }
        Channel_ { end0: ChannelEnd::new(0), end1: ChannelEnd::new(1) }
    }

    /// Write `msg` from endpoint `which`: append it to the *peer's* receive
    /// queue and raise `READABLE` there. Fails with `PEER_CLOSED`, leaving
    /// everything unchanged, exactly when the peer endpoint is gone; once
    /// the peer exists the write always succeeds (no backpressure at this
    /// layer).
    pub fn write(&mut self, which: usize, msg: T) -> (r: ZxResult<()>)
        requires
            old(self).wf(),
            which < 2,
            old(self).end_alive(which as int),
        ensures
            final(self).wf(),
            old(self).end_alive(peer_of(which as int)) ==> {
                &&& r == Ok::<(), ZxError>(())
                &&& final(self).queue(peer_of(which as int)) == old(self).queue(
                    peer_of(which as int),
                ).push(msg)
                &&& has_signal(final(self).sig(peer_of(which as int)), READABLE)
                &&& final(self).queue(which as int) == old(self).queue(which as int)
                &&& final(self).sig(which as int) == old(self).sig(which as int)
                &&& final(self).end_alive(0) == old(self).end_alive(0)
                &&& final(self).end_alive(1) == old(self).end_alive(1)
            },
            !old(self).end_alive(peer_of(which as int)) ==> r == Err::<(), ZxError>(
                ZxError::PEER_CLOSED,
            ) && *final(self) == *old(self),
    {
        proof {
            lemma_signal_constants();
        }
        if which == 0 {
            if !self.end1.alive {
                return Err(ZxError::PEER_CLOSED);
            }
            self.end1.enqueue(msg);
            proof {
                lemma_signal_or(old(self).end1.base.signal, READABLE, READABLE);
            }
            Ok(())
        } else {
            if !self.end0.alive {
                return Err(ZxError::PEER_CLOSED);
            }
            self.end0.enqueue(msg);
            proof {
                lemma_signal_or(old(self).end0.base.signal, READABLE, READABLE);
            }
            Ok(())
        }
    }

    /// Read from endpoint `which`'s own queue: pop the front message, and
    /// clear `READABLE` if the queue becomes empty. On an empty queue, the
    /// failure tells the caller whether waiting can help: `PEER_CLOSED` if
    /// the peer is gone (nothing will ever arrive), else `SHOULD_WAIT`.
    /// Messages queued before the peer closed are still delivered.
    pub fn read(&mut self, which: usize) -> (r: ZxResult<T>)
        requires
            old(self).wf(),
            which < 2,
            old(self).end_alive(which as int),
        ensures
            final(self).wf(),
            old(self).queue(which as int).len() > 0 ==> {
                &&& r == Ok::<T, ZxError>(old(self).queue(which as int)[0])
                &&& final(self).queue(which as int) == old(self).queue(which as int).drop_first()
                &&& (has_signal(final(self).sig(which as int), READABLE) <==> final(self).queue(
                    which as int,
                ).len() > 0)
                &&& final(self).queue(peer_of(which as int)) == old(self).queue(
                    peer_of(which as int),
                )
                &&& final(self).sig(peer_of(which as int)) == old(self).sig(peer_of(which as int))
                &&& has_signal(final(self).sig(which as int), PEER_CLOSED) == has_signal(
                    old(self).sig(which as int),
                    PEER_CLOSED,
                )
                &&& final(self).end_alive(0) == old(self).end_alive(0)
                &&& final(self).end_alive(1) == old(self).end_alive(1)
            },
            old(self).queue(which as int).len() == 0 && !old(self).end_alive(
                peer_of(which as int),
            ) ==> r == Err::<T, ZxError>(ZxError::PEER_CLOSED) && *final(self) == *old(self),
            old(self).queue(which as int).len() == 0 && old(self).end_alive(
                peer_of(which as int),
            ) ==> r == Err::<T, ZxError>(ZxError::SHOULD_WAIT) && *final(self) == *old(self),
    {
        if which == 0 {
            if self.end0.queue.len() > 0 {
                let msg = self.end0.dequeue();
                return Ok(msg);
            }
        } else {
            if self.end1.queue.len() > 0 {
                let msg = self.end1.dequeue();
                return Ok(msg);
            }
        }
        if self.peer_closed(which) {
            Err(ZxError::PEER_CLOSED)
        } else {
            Err(ZxError::SHOULD_WAIT)
        }
    }

    /// Destroy endpoint `which` (its last handle was dropped): its queued
    /// messages are discarded with it, and if the other endpoint still
    /// exists, `PEER_CLOSED` is raised there — once, never to be cleared.
    /// The survivor keeps its queue: closure does not discard messages it
    /// was already sent.
    pub fn close(&mut self, which: usize)
        requires
            old(self).wf(),
            which < 2,
            old(self).end_alive(which as int),
        ensures
            final(self).wf(),
            !final(self).end_alive(which as int),
            final(self).queue(which as int).len() == 0,
            final(self).end_alive(peer_of(which as int)) == old(self).end_alive(
                peer_of(which as int),
            ),
            old(self).end_alive(peer_of(which as int)) ==> {
                &&& has_signal(final(self).sig(peer_of(which as int)), PEER_CLOSED)
                &&& final(self).queue(peer_of(which as int)) == old(self).queue(
                    peer_of(which as int),
                )
                &&& (has_signal(final(self).sig(peer_of(which as int)), READABLE) <==> has_signal(
                    old(self).sig(peer_of(which as int)),
                    READABLE,
                ))
                &&& has_signal(final(self).sig(peer_of(which as int)), WRITABLE)
            },
    {
        proof {
            lemma_signal_constants();
        }
        if which == 0 {
            self.end0.alive = false;
            self.end0.queue = Vec::new();
            if self.end1.alive {
                proof {
                    lemma_signal_or(self.end1.base.signal, PEER_CLOSED, READABLE);
                    lemma_signal_or(self.end1.base.signal, PEER_CLOSED, WRITABLE);
                    lemma_signal_or(self.end1.base.signal, PEER_CLOSED, PEER_CLOSED);
                }
                self.end1.base.signal_set(PEER_CLOSED);
            }
        } else {
            self.end1.alive = false;
            self.end1.queue = Vec::new();
            if self.end0.alive {
                proof {
                    lemma_signal_or(self.end0.base.signal, PEER_CLOSED, READABLE);
                    lemma_signal_or(self.end0.base.signal, PEER_CLOSED, WRITABLE);
                    lemma_signal_or(self.end0.base.signal, PEER_CLOSED, PEER_CLOSED);
                }
                self.end0.base.signal_set(PEER_CLOSED);
            }
        }
    }

    /// Current signal bitmask of endpoint `which`; a pure read.
    pub fn signal(&self, which: usize) -> (state: u32)
        requires
            which < 2,
        ensures
            state == self.sig(which as int),
    {
        if which == 0 {
            self.end0.base.signal()
        } else {
            self.end1.base.signal()
        }
    }

    /// Is the peer of endpoint `which` gone?
    fn peer_closed(&self, which: usize) -> (b: bool)
        requires
            which < 2,
        ensures
            b == !self.end_alive(peer_of(which as int)),
    {
        if which == 0 {
            !self.end1.alive
        } else {
            !self.end0.alive
        }
    }
}

/// Signal correctness as an invariant: on every well-formed pair, a live
/// endpoint is always writable, and readable exactly while its own queue
/// holds a message — so any write that filled the peer's queue left it
/// readable, and any read that drained a queue left its endpoint not
/// readable.
pub proof fn lemma_readable_iff_queued<T>(c: Channel_<T>, which: int)
    requires
        c.wf(),
        0 <= which < 2,
        c.end_alive(which),
    ensures
        has_signal(c.sig(which), WRITABLE),
        has_signal(c.sig(which), READABLE) <==> c.queue(which).len() > 0,
{
}

/// Peer-closed propagation as an invariant: on every well-formed pair, a
/// live endpoint carries `PEER_CLOSED` exactly when its peer is gone. An
/// endpoint whose peer was destroyed therefore reports it, and one whose
/// peer still exists never does.
pub proof fn lemma_peer_closed_signal<T>(c: Channel_<T>, which: int)
    requires
        c.wf(),
        0 <= which < 2,
        c.end_alive(which),
    ensures
        has_signal(c.sig(which), PEER_CLOSED) <==> !c.end_alive(peer_of(which)),
{
}

/// The queue contents after delivering the messages `ms`, one write after
/// another, to a receive queue holding `q`.
pub open spec fn enqueue_all<T>(q: Seq<T>, ms: Seq<T>) -> Seq<T>
    decreases ms.len(),
{
    if ms.len() == 0 {
        q
    } else {
        enqueue_all(q.push(ms[0]), ms.drop_first())
    }
}

/// FIFO ordering, write side: a sequence of writes `m1, …, mk` issued to
/// one endpoint leaves the peer's queue holding exactly its old contents
/// followed by `m1, …, mk` in issue order. Together with
/// [`lemma_fifo_reads`] and the contracts of [`Channel_::write`] and
/// [`Channel_::read`], reads on the peer yield `m1, …, mk` in that order.
pub proof fn lemma_fifo_writes<T>(q: Seq<T>, ms: Seq<T>)
    ensures
        enqueue_all(q, ms) == q + ms,
    decreases ms.len(),
{
    if ms.len() == 0 {
        assert(q + ms =~= q);
    } else {
        lemma_fifo_writes(q.push(ms[0]), ms.drop_first());
        assert(q.push(ms[0]) + ms.drop_first() =~= q + ms);
    }
}

/// FIFO ordering, read side: with a queue holding `ms`, the read made after
/// `j` earlier reads returns `ms[j]` and leaves the queue at `ms.skip(j+1)`,
/// since each read returns the front and drops it.
pub proof fn lemma_fifo_reads<T>(ms: Seq<T>, j: int)
    requires
        0 <= j < ms.len(),
    ensures
        ms.skip(j)[0] == ms[j],
        ms.skip(j).drop_first() == ms.skip(j + 1),
{
    assert(ms.skip(j).drop_first() =~= ms.skip(j + 1));
}

} // verus!
