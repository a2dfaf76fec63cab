//! The cache-padded queue: the cursor-per-side queue with each cursor on a
//! cache line of its own.
//!
//! The steps are those of the cursor-per-side queue. Only the layout differs:
//! the producer's frequent writes to the push cursor no longer evict the line
//! that holds the consumer's pop cursor, and the other way round.

use vstd::prelude::*;
use crossbeam::utils::CachePadded;
use crate::bounded::{after_pop, after_push, front, has_room};
use crate::padded::{load, padded, padded_value, store};
use crate::ring::{
    lemma_round_robin, lemma_window_pop, lemma_window_push, slot, vacant_ring, window, window_wf,
};

verus! {

/// A bounded FIFO queue with one padded cursor per side.
pub struct Fifo3<T> {
    capacity: usize,
    ring: Vec<Option<T>>,
    push_cursor: CachePadded<usize>,
    pop_cursor: CachePadded<usize>,
}

impl<T> View for Fifo3<T> {
    type V = Seq<T>;

    /// The enqueued items, oldest first.
    closed spec fn view(&self) -> Seq<T> {
        window(self.ring@, self.pop_count() as int, self.push_count() as int)
    }
}

impl<T> Fifo3<T> {
    /// The fixed number of slots.
    pub closed spec fn capacity(&self) -> nat {
        self.capacity as nat
    }

    /// How many pushes have succeeded so far.
    pub closed spec fn push_count(&self) -> nat {
        padded_value(self.push_cursor) as nat
    }

    /// How many pops have succeeded so far.
    pub closed spec fn pop_count(&self) -> nat {
        padded_value(self.pop_cursor) as nat
    }

    /// The queue's invariant: the ring has `capacity` slots, and exactly the
    /// slots of the positions `pop_count .. push_count` are filled.
    pub closed spec fn wf(&self) -> bool {
        &&& self.capacity > 0
        &&& self.ring@.len() == self.capacity
        &&& window_wf(self.ring@, self.pop_count() as int, self.push_count() as int)
    }

    /// The cursors never cross, never drift more than `capacity` apart, and
    /// their difference is the number of items enqueued.
    pub proof fn cursor_bounds(&self)
        requires
            self.wf(),
        ensures
            self.capacity() >= 1,
            self.pop_count() <= self.push_count(),
            self.push_count() - self.pop_count() <= self.capacity(),
            self@.len() == self.push_count() - self.pop_count(),
            self.push_count() <= usize::MAX,
    {
    }

    /// What slot `index` of the ring holds.
    pub closed spec fn stored(&self, index: int) -> Option<T> {
        self.ring@[index]
    }

    /// Round robin. The item pushed at count `position` lies in slot
    /// `position % capacity` for as long as it is enqueued, and the slots
    /// that the pushes of the rest of the lap will use are vacant.
    pub proof fn round_robin(&self, position: int)
        requires
            self.wf(),
            self.pop_count() <= position < self.pop_count() + self.capacity(),
        ensures
            0 <= slot(position, self.capacity() as int) < self.capacity(),
            position < self.push_count() ==> self.stored(slot(position, self.capacity() as int))
                == Some(self@[position - self.pop_count()]),
            position >= self.push_count() ==> self.stored(slot(position, self.capacity() as int))
                is None,
    {
        lemma_round_robin(self.ring@, self.pop_count() as int, self.push_count() as int, position);
    }

    /// Creates an empty queue with `capacity` slots.
    pub fn new(capacity: usize) -> (queue: Fifo3<T>)
        requires
            capacity > 0,
        ensures
            queue.wf(),
            queue.capacity() == capacity,
            queue@ == Seq::<T>::empty(),
            queue.push_count() == 0,
            queue.pop_count() == 0,
    {
        let ring: Vec<Option<T>> = vacant_ring(capacity);
        Fifo3 { capacity, ring, push_cursor: padded(0), pop_cursor: padded(0) }
    }

    /// The consumer's step: takes the oldest item out and then publishes the
    /// pop cursor, or returns `None` and leaves the queue untouched when the
    /// two cursors are equal.
    pub fn pop(&mut self) -> (item: Option<T>)
        requires
            old(self).wf(),
        ensures
            final(self).wf(),
            final(self).capacity() == old(self).capacity(),
            item == front(old(self)@),
            final(self)@ == after_pop(old(self)@),
            final(self).push_count() == old(self).push_count(),
            final(self).pop_count() == old(self).pop_count() + (if item is Some {
                1nat
            } else {
                0nat
            }),
            item is None ==> *final(self) == *old(self),
    {
        let push_val = load(&self.push_cursor);
        let pop_val = load(&self.pop_cursor);
        if push_val == pop_val {
            return None;
        }
        proof {
            lemma_window_pop(self.ring@, pop_val as int, push_val as int);
        }
        let loc = pop_val % self.capacity;
        let value = self.ring[loc].take();
        store(&mut self.pop_cursor, pop_val + 1);
        value
    }

    /// The producer's step: fills the next slot and then publishes the push
    /// cursor, or returns `false` and leaves the queue untouched when the
    /// push cursor is a full lap ahead of the pop cursor.
    pub fn push(&mut self, item: T) -> (accepted: bool)
        requires
            old(self).wf(),
            has_room(old(self)@, old(self).capacity()) ==> old(self).push_count() < usize::MAX,
        ensures
            final(self).wf(),
            final(self).capacity() == old(self).capacity(),
            accepted == has_room(old(self)@, old(self).capacity()),
            final(self)@ == after_push(old(self)@, old(self).capacity(), item),
            final(self).push_count() == old(self).push_count() + (if accepted {
                1nat
            } else {
                0nat
            }),
            final(self).pop_count() == old(self).pop_count(),
            !accepted ==> *final(self) == *old(self),
    {
        let push_val = load(&self.push_cursor);
        let pop_val = load(&self.pop_cursor);
        if push_val - pop_val >= self.capacity {
            return false;
        }
        proof {
            lemma_window_push(self.ring@, pop_val as int, push_val as int, item);
        }
        let loc = push_val % self.capacity;
        self.ring[loc] = Some(item);
        store(&mut self.push_cursor, push_val + 1);
        true
    }
}

} // verus!
