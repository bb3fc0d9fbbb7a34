//! Ordered delivery under concurrent loading: a fixed-size reorder buffer
//! keyed by submission sequence number. Up to `capacity` productions may be
//! in flight and may complete in any order; the consumer receives items
//! strictly in submission order, a completed item being buffered until all
//! its predecessors have been released.

use vstd::prelude::*;
use crate::chunk::LoadedChunk;

verus! {

/// The reorder buffer. `submit` hands out consecutive sequence numbers,
/// `complete` files a finished production under its number, and `pop`
/// releases items in sequence-number order only.
pub struct ReorderBuffer<T> {
    capacity: usize,
    next_seq: u64,
    next_out: u64,
    slots: Vec<Option<T>>,
    completed: Ghost<Map<int, T>>,
    delivered: Ghost<Seq<T>>,
}

impl<T> ReorderBuffer<T> {
    /// Every item ever filed, by its sequence number.
    pub closed spec fn completed_items(self) -> Map<int, T> {
        self.completed@
    }

    /// Every item released to the consumer, in release order.
    pub closed spec fn delivered_items(self) -> Seq<T> {
        self.delivered@
    }

    /// The sequence number the next `submit` hands out.
    pub closed spec fn next_seq(self) -> int {
        self.next_seq as int
    }

    /// The sequence number of the item the consumer receives next.
    pub closed spec fn next_out(self) -> int {
        self.next_out as int
    }

    /// How many submissions are in flight (submitted, not yet released).
    pub open spec fn in_flight(self) -> int {
        self.next_seq() - self.next_out()
    }

    /// The configured concurrency ceiling.
    pub closed spec fn cap(self) -> int {
        self.capacity as int
    }

    /// Whether another production may be submitted now.
    pub open spec fn can_submit(self) -> bool {
        self.in_flight() < self.cap()
    }

    /// Whether `seq` was submitted, is unreleased, and is still unfilled.
    pub closed spec fn vacant(self, seq: int) -> bool {
        &&& self.next_out() <= seq < self.next_seq()
        &&& self.slots[seq - self.next_out()] is None
    }

    /// Whether the item the consumer receives next has been filed, so that
    /// `pop` will release it.
    pub closed spec fn front_ready(self) -> bool {
        &&& self.in_flight() > 0
        &&& self.slots[0] is Some
    }

    /// The buffer's invariant: slot `k` buffers the completed item for
    /// sequence number `next_out + k`, and everything released so far is
    /// exactly the completed items of the sequence numbers below `next_out`,
    /// in that order.
    pub closed spec fn wf(self) -> bool {
        &&& self.capacity >= 1
        &&& self.next_out <= self.next_seq
        &&& self.slots.len() == self.next_seq - self.next_out
        &&& self.slots.len() <= self.capacity
        &&& forall|k: int|
            0 <= k < self.slots.len() && self.slots[k] is Some ==> self.completed@.contains_key(
                self.next_out + k,
            ) && self.completed@[self.next_out + k] == self.slots[k]->0
        &&& self.delivered@.len() == self.next_out
        &&& forall|j: int| 0 <= j < self.next_out ==> #[trigger] self.completed@.contains_key(j)
        &&& forall|j: int|
            0 <= j < self.next_out ==> #[trigger] self.delivered@[j] == self.completed@[j]
    }

    /// An empty buffer with the given concurrency ceiling.
    pub fn new(capacity: usize) -> (r: ReorderBuffer<T>)
        requires
            capacity >= 1,
        ensures
            r.wf(),
            r.cap() == capacity,
            r.next_seq() == 0,
            r.next_out() == 0,
            r.completed_items() == Map::<int, T>::empty(),
            r.delivered_items() == Seq::<T>::empty(),
    {
        ReorderBuffer {
            capacity,
            next_seq: 0,
            next_out: 0,
            slots: Vec::new(),
            completed: Ghost(Map::empty()),
            delivered: Ghost(Seq::empty()),
        }
    }

    /// Starts one production: hands out the next sequence number. Only
    /// `capacity` submissions may be in flight at once.
    pub fn submit(&mut self) -> (seq: u64)
        requires
            old(self).wf(),
            old(self).can_submit(),
            old(self).next_seq() < u64::MAX,
        ensures
            final(self).wf(),
            seq == old(self).next_seq(),
            final(self).next_seq() == old(self).next_seq() + 1,
            final(self).next_out() == old(self).next_out(),
            final(self).cap() == old(self).cap(),
            final(self).completed_items() == old(self).completed_items(),
            final(self).delivered_items() == old(self).delivered_items(),
            final(self).vacant(seq as int),
    {
        let seq = self.next_seq;
        self.next_seq = self.next_seq + 1;
        self.slots.push(None);
        seq
    }

    /// Files the finished production for `seq`, wherever in the submission
    /// order it completed.
    pub fn complete(&mut self, seq: u64, item: T)
        requires
            old(self).wf(),
            old(self).vacant(seq as int),
        ensures
            final(self).wf(),
            final(self).next_seq() == old(self).next_seq(),
            final(self).next_out() == old(self).next_out(),
            final(self).cap() == old(self).cap(),
            final(self).completed_items() == old(self).completed_items().insert(seq as int, item),
            final(self).delivered_items() == old(self).delivered_items(),
            !final(self).vacant(seq as int),
    {
        assert(seq - self.next_out < self.slots.len() as u64);
        let idx = (seq - self.next_out) as usize;
        self.slots[idx] = Some(item);
        proof {
            self.completed@ = self.completed@.insert(seq as int, self.slots@[idx as int]->0);
        }
    }

    /// Inspects the item the consumer would receive next without consuming
    /// it: the single-slot lookahead the stage downstream uses to read the
    /// starting version before consumption begins.
    pub fn peek(&self) -> (r: Option<&T>)
        requires
            self.wf(),
        ensures
            (match r {
                Option::Some(item) => {
                    &&& self.front_ready()
                    &&& self.completed_items().contains_key(self.next_out())
                    &&& item == self.completed_items()[self.next_out()]
                },
                Option::None => !self.front_ready(),
            }),
    {
        if self.slots.len() == 0 {
            return None;
        }
        self.slots[0].as_ref()
    }

    /// Releases the next item in submission order, or `None` while it is
    /// still outstanding. What comes out for sequence number `next_out` is
    /// exactly what `complete` filed under that number: the consumer
    /// observes items in submission order however completions raced.
    pub fn pop(&mut self) -> (r: Option<T>)
        requires
            old(self).wf(),
        ensures
            final(self).wf(),
            final(self).next_seq() == old(self).next_seq(),
            final(self).cap() == old(self).cap(),
            final(self).completed_items() == old(self).completed_items(),
            (match r {
                Option::Some(item) => {
                    &&& old(self).front_ready()
                    &&& old(self).completed_items().contains_key(old(self).next_out())
                    &&& item == old(self).completed_items()[old(self).next_out()]
                    &&& final(self).next_out() == old(self).next_out() + 1
                    &&& final(self).delivered_items() == old(self).delivered_items().push(item)
                },
                Option::None => {
                    &&& !old(self).front_ready()
                    &&& final(self).next_out() == old(self).next_out()
                    &&& final(self).delivered_items() == old(self).delivered_items()
                },
            }),
    {
        if self.slots.len() == 0 {
            return None;
        }
        if self.slots[0].is_none() {
            return None;
        }
        let slot = self.slots.remove(0);
        let item = match slot {
            Some(item) => item,
            None => vstd::pervasive::unreached(),
        };
        self.next_out = self.next_out + 1;
        proof {
            self.delivered@ = self.delivered@.push(item);
        }
        Some(item)
    }

    /// The ordering law: the `j`-th item the consumer ever received is the
    /// item completed under sequence number `j` — submission order, however
    /// the completions were timed.
    pub proof fn lemma_delivered_in_submission_order(&self)
        requires
            self.wf(),
        ensures
            forall|j: int|
                0 <= j < self.delivered_items().len() ==> #[trigger] self.completed_items().contains_key(j),
            forall|j: int|
                0 <= j < self.delivered_items().len() ==> #[trigger] self.delivered_items()[j]
                    == self.completed_items()[j],
    {
    }
}

/// The pipeline's use of the ordering law: when productions are submitted
/// in ascending version order (each submitted chunk lying wholly before the
/// next), the consumer observes chunks in ascending version order, whatever
/// order the loads completed in.
pub proof fn lemma_chunks_delivered_in_version_order(buf: &ReorderBuffer<LoadedChunk>)
    requires
        buf.wf(),
        forall|s1: int, s2: int|
            buf.completed_items().contains_key(s1) && buf.completed_items().contains_key(s2) && s1
                < s2 ==> (#[trigger] buf.completed_items()[s1]).manifest.last_version < (
            #[trigger] buf.completed_items()[s2]).manifest.first_version,
    ensures
        forall|j1: int, j2: int|
            0 <= j1 < j2 < buf.delivered_items().len() ==> (
            #[trigger] buf.delivered_items()[j1]).manifest.last_version < (
            #[trigger] buf.delivered_items()[j2]).manifest.first_version,
{
    buf.lemma_delivered_in_submission_order();
}

} // verus!
