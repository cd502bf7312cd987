//! The distribution bus: a bounded broadcast ring with per-consumer
//! cursors.
//!
//! One producer publishes; any number of readers each follow the full
//! publish history at their own pace.  The ring keeps only the last
//! `capacity` messages, so a publish never waits for a slow reader: a
//! reader that has fallen further behind is served the oldest message
//! still buffered and silently skips the rest — freshness over
//! completeness.  Delivery order always equals publish order.
//!
//! Blocking and cross-thread wakeup are left to the caller, who wraps the
//! bus in whatever synchronization the runtime offers; every operation
//! here is a total, non-blocking step.

use vstd::prelude::*;

use crate::frame::Message;
use crate::ConfigError;

verus! {

/// The result of one receive attempt.
pub enum RecvOutcome<T> {
    /// The next message for this reader, in publish order.
    Delivered(T),
    /// The reader has seen everything published so far; try again once
    /// the producer has published more.
    Pending,
    /// The producer closed the bus and nothing newer remains: terminal,
    /// the reader should exit its loop.
    Closed,
}

/// A consumer's cursor into one bus's publish history, created by
/// `DistributionBus::subscribe`.
pub struct BusReader {
    cursor: usize,
}

impl BusReader {
    /// The history index of the next message this reader asks for.
    pub closed spec fn position(&self) -> nat {
        self.cursor as nat
    }
}

/// The history index served to a reader at `cursor` once `len` messages
/// have been published on a bus that keeps the last `cap`: the reader's
/// own position, or the oldest still-buffered index if it lags further.
pub open spec fn delivery_index(len: nat, cap: nat, cursor: nat) -> nat {
    let oldest: nat = if len <= cap {
        0
    } else {
        (len - cap) as nat
    };
    if cursor >= oldest {
        cursor
    } else {
        oldest
    }
}

/// A bounded single-producer broadcast channel.
pub struct DistributionBus<T: Message> {
    ring: Vec<T>,
    published: usize,
    cap: usize,
    closed: bool,
    hist: Ghost<Seq<<T as View>::V>>,
}

impl<T: Message> DistributionBus<T> {
    /// Every message ever published, as views, in publish order.
    pub closed spec fn history(&self) -> Seq<<T as View>::V> {
        self.hist@
    }

    /// The fixed ring capacity chosen at construction.
    pub closed spec fn capacity(&self) -> nat {
        self.cap as nat
    }

    /// Whether the producer has closed the bus.
    pub closed spec fn is_closed(&self) -> bool {
        self.closed
    }

    /// The ring holds exactly the last `capacity` published messages
    /// (fewer while the history is still short), in publish order.
    pub closed spec fn wf(&self) -> bool {
        &&& self.cap >= 1
        &&& self.published == self.hist@.len()
        &&& self.ring@.len() == (if self.hist@.len() <= self.cap as nat {
            self.hist@.len()
        } else {
            self.cap as nat
        })
        &&& forall|i: int|
            0 <= i < self.ring@.len() ==> #[trigger] self.ring@[i]@ == self.hist@[self.hist@.len()
                - self.ring@.len() + i]
    }

    /// How many messages the ring currently holds.
    pub closed spec fn buffered(&self) -> nat {
        self.ring@.len()
    }

    /// Memory is bounded: the ring never holds more than `capacity`
    /// messages, however long the publish history grows.
    pub proof fn lemma_bounded_buffer(&self)
        requires
            self.wf(),
        ensures
            self.buffered() <= self.capacity(),
            self.buffered() == (if self.history().len() <= self.capacity() {
                self.history().len()
            } else {
                self.capacity()
            }),
            self.capacity() >= 1,
    {
    }

    /// Create a bus that keeps the last `capacity` messages.
    pub fn new(capacity: usize) -> (r: Result<DistributionBus<T>, ConfigError>)
        ensures
            r is Ok <==> capacity >= 1,
            r matches Ok(b) ==> {
                &&& b.wf()
                &&& b.history() == Seq::<<T as View>::V>::empty()
                &&& b.capacity() == capacity
                &&& !b.is_closed()
            },
            r matches Err(e) ==> e == ConfigError::ZeroCapacity,
    {
        if capacity == 0 {
            return Err(ConfigError::ZeroCapacity);
        }
        Ok(
            DistributionBus {
                ring: Vec::new(),
                published: 0,
                cap: capacity,
                closed: false,
                hist: Ghost(Seq::empty()),
            },
        )
    }

    /// How many messages have been published so far.
    pub fn published(&self) -> (r: usize)
        requires
            self.wf(),
        ensures
            r == self.history().len(),
    {
        self.published
    }

    /// Whether the producer has closed the bus.
    pub fn closed(&self) -> (r: bool)
        ensures
            r == self.is_closed(),
    {
        self.closed
    }

    /// Register a consumer; it starts at the next message to be
    /// published and sees no prior history.
    pub fn subscribe(&self) -> (r: BusReader)
        requires
            self.wf(),
        ensures
            r.position() == self.history().len(),
    {
        BusReader { cursor: self.published }
    }

    /// Publish a message to every reader.  This never waits: when the
    /// ring is full the oldest buffered message is retired instead.
    pub fn publish(&mut self, msg: T)
        requires
            old(self).wf(),
            !old(self).is_closed(),
            old(self).history().len() < usize::MAX,
        ensures
            final(self).wf(),
            final(self).history() == old(self).history().push(msg@),
            final(self).capacity() == old(self).capacity(),
            !final(self).is_closed(),
    {
        let g: Ghost<<T as View>::V> = Ghost(msg@);
        if self.ring.len() == self.cap {
            self.ring.remove(0);
        }
        self.ring.push(msg);
        self.published = self.published + 1;
        proof {
            self.hist@ = self.hist@.push(g@);
        }
    }

    /// Close the bus: readers that catch up will see `Closed`.
    pub fn close(&mut self)
        requires
            old(self).wf(),
        ensures
            final(self).wf(),
            final(self).is_closed(),
            final(self).history() == old(self).history(),
            final(self).capacity() == old(self).capacity(),
    {
        self.closed = true;
    }

    /// One receive attempt for `r`.  A reader that has messages waiting
    /// is served `delivery_index` — its own position, or the oldest
    /// still-buffered message if it has lagged past the ring — and its
    /// cursor advances just past the served index, so successive
    /// deliveries always move forward in publish order.  A reader that
    /// has seen everything gets `Pending`, or `Closed` once the producer
    /// has closed the bus.
    pub fn receive(&self, r: &mut BusReader) -> (out: RecvOutcome<T>)
        requires
            self.wf(),
        ensures
            old(r).position() >= self.history().len() ==> {
                &&& *final(r) == *old(r)
                &&& (out is Closed <==> self.is_closed())
                &&& (out is Pending <==> !self.is_closed())
            },
            old(r).position() < self.history().len() ==> {
                let i = delivery_index(
                    self.history().len(),
                    self.capacity(),
                    old(r).position(),
                );
                &&& out matches RecvOutcome::Delivered(m) && m@ == self.history()[i as int]
                &&& final(r).position() == i + 1
                &&& old(r).position() <= i < self.history().len()
                &&& self.history().len() <= i + self.capacity()
            },
    {
        if r.cursor >= self.published {
            if self.closed {
                RecvOutcome::Closed
            } else {
                RecvOutcome::Pending
            }
        } else {
            let oldest: usize = self.published - self.ring.len();
            let i: usize = if r.cursor >= oldest {
                r.cursor
            } else {
                oldest
            };
            let m: T = self.ring[i - oldest].duplicate();
            r.cursor = i + 1;
            RecvOutcome::Delivered(m)
        }
    }
}

/// Deliveries to one reader move strictly forward in publish order: after
/// a delivery at index `delivery_index(len1, cap, c1)` advanced the
/// cursor to `c2`, the next delivery — however many further messages were
/// published meanwhile — comes from a strictly later index.  A consumer
/// therefore observes a strictly increasing subsequence of the publish
/// history, even when lag makes it skip messages.
pub proof fn lemma_deliveries_in_order(len1: nat, len2: nat, cap: nat, c1: nat, c2: nat)
    requires
        cap >= 1,
        c1 < len1,
        len1 <= len2,
        c2 >= delivery_index(len1, cap, c1) + 1,
    ensures
        delivery_index(len2, cap, c2) > delivery_index(len1, cap, c1),
{
}

} // verus!

