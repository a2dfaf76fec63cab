//! The cursor-per-side queue: each side advances only its own cursor.
//!
//! The producer owns the push cursor and the consumer the pop cursor. A side
//! reads the other side's cursor to learn how much room or data there is,
//! touches its slot, and only then publishes its own cursor, so that whoever
//! sees the new cursor also finds the slot as it was left.

use vstd::prelude::*;
use crate::bounded::{after_pop, after_push, front, has_room};
use crate::ring::{
    lemma_round_robin, lemma_window_pop, lemma_window_push, slot, vacant_ring, window, window_wf,
};

verus! {

/// A bounded FIFO queue with one cursor per side.
pub struct Fifo2<T> {
    capacity: usize,
    ring: Vec<Option<T>>,
    push_cursor: usize,
    pop_cursor: usize,
}

impl<T> View for Fifo2<T> {
    type V = Seq<T>;

    /// The enqueued items, oldest first.
    closed spec fn view(&self) -> Seq<T> {
        window(self.ring@, self.pop_cursor as int, self.push_cursor as int)
    }
}

impl<T> Fifo2<T> {
    /// The fixed number of slots.
    pub closed spec fn capacity(&self) -> nat {
        self.capacity as nat
    }

    /// How many pushes have succeeded so far.
    pub closed spec fn push_count(&self) -> nat {
        self.push_cursor as nat
    }

    /// How many pops have succeeded so far.
    pub closed spec fn pop_count(&self) -> nat {
        self.pop_cursor as nat
    }

    /// The queue's invariant: the ring has `capacity` slots, and exactly the
    /// slots of the positions `pop_count .. push_count` are filled.
    pub closed spec fn wf(&self) -> bool {
        &&& self.capacity > 0
        &&& self.ring@.len() == self.capacity
        &&& window_wf(self.ring@, self.pop_cursor as int, self.push_cursor as int)
    }

    /// The cursors never cross, never drift more than `capacity` apart, and
    /// their difference is the number of items enqueued.
    pub proof fn cursor_bounds(&self)
        requires
            self.wf(),
        ensures
            self.capacity() >= 1,
            self.pop_count() <= self.push_count(),
            self.push_count() - self.pop_count() <= self.capacity(),
            self@.len() == self.push_count() - self.pop_count(),
            self.push_count() <= usize::MAX,
    {
    }

    /// What slot `index` of the ring holds.
    pub closed spec fn stored(&self, index: int) -> Option<T> {
        self.ring@[index]
    }

    /// Round robin. The item pushed at count `position` lies in slot
    /// `position % capacity` for as long as it is enqueued, and the slots
    /// that the pushes of the rest of the lap will use are vacant.
    pub proof fn round_robin(&self, position: int)
        requires
            self.wf(),
            self.pop_count() <= position < self.pop_count() + self.capacity(),
        ensures
            0 <= slot(position, self.capacity() as int) < self.capacity(),
            position < self.push_count() ==> self.stored(slot(position, self.capacity() as int))
                == Some(self@[position - self.pop_count()]),
            position >= self.push_count() ==> self.stored(slot(position, self.capacity() as int))
                is None,
    {
        lemma_round_robin(self.ring@, self.pop_count() as int, self.push_count() as int, position);
    }

    /// Creates an empty queue with `capacity` slots.
    pub fn new(capacity: usize) -> (queue: Fifo2<T>)
        requires
            capacity > 0,
        ensures
            queue.wf(),
            queue.capacity() == capacity,
            queue@ == Seq::<T>::empty(),
            queue.push_count() == 0,
            queue.pop_count() == 0,
    {
        let ring: Vec<Option<T>> = vacant_ring(capacity);
        Fifo2 { capacity, ring, push_cursor: 0, pop_cursor: 0 }
    }

    /// The consumer's step: takes the oldest item out and then publishes the
    /// pop cursor, or returns `None` and leaves the queue untouched when the
    /// two cursors are equal.
    pub fn pop(&mut self) -> (item: Option<T>)
        requires
            old(self).wf(),
        ensures
            final(self).wf(),
            final(self).capacity() == old(self).capacity(),
            item == front(old(self)@),
            final(self)@ == after_pop(old(self)@),
            final(self).push_count() == old(self).push_count(),
            final(self).pop_count() == old(self).pop_count() + (if item is Some {
                1nat
            } else {
                0nat
            }),
            item is None ==> *final(self) == *old(self),
    {
        let push_val = self.push_cursor;
        let pop_val = self.pop_cursor;
        if push_val == pop_val {
            return None;
        }
        proof {
            lemma_window_pop(self.ring@, pop_val as int, push_val as int);
        }
        let loc = pop_val % self.capacity;
        let value = self.ring[loc].take();
        self.pop_cursor = pop_val + 1;
        value
    }

    /// The producer's step: fills the next slot and then publishes the push
    /// cursor, or returns `false` and leaves the queue untouched when the
    /// push cursor is a full lap ahead of the pop cursor.
    pub fn push(&mut self, item: T) -> (accepted: bool)
        requires
            old(self).wf(),
            has_room(old(self)@, old(self).capacity()) ==> old(self).push_count() < usize::MAX,
        ensures
            final(self).wf(),
            final(self).capacity() == old(self).capacity(),
            accepted == has_room(old(self)@, old(self).capacity()),
            final(self)@ == after_push(old(self)@, old(self).capacity(), item),
            final(self).push_count() == old(self).push_count() + (if accepted {
                1nat
            } else {
                0nat
            }),
            final(self).pop_count() == old(self).pop_count(),
            !accepted ==> *final(self) == *old(self),
    {
        let push_val = self.push_cursor;
        let pop_val = self.pop_cursor;
        if push_val - pop_val >= self.capacity {
            return false;
        }
        proof {
            lemma_window_push(self.ring@, pop_val as int, push_val as int, item);
        }
        let loc = push_val % self.capacity;
        self.ring[loc] = Some(item);
        self.push_cursor = push_val + 1;
        true
    }

    /// The number of items enqueued: the lead of the push cursor over the pop
    /// cursor.
    pub fn size(&self) -> (n: usize)
        requires
            self.wf(),
        ensures
            n == self@.len(),
            n == self.push_count() - self.pop_count(),
    {
        let push_val = self.push_cursor;
        let pop_val = self.pop_cursor;
        push_val - pop_val
    }
}

} // verus!
