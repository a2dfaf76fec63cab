//! The baseline queue: one owner, plain cursors, every slot an `Option`.
//!
//! This variant is meant to sit behind a single exclusive lock. Each call
//! checks fullness or emptiness by the difference of the two cursors, touches
//! the slot at `cursor % capacity`, and advances its cursor.

use vstd::prelude::*;
use crate::bounded::{after_pop, after_push, front, has_room};
use crate::ring::{
    lemma_round_robin, lemma_window_pop, lemma_window_push, slot, vacant_ring, window, window_wf,
};

verus! {

/// A bounded FIFO queue over a ring of optional slots.
pub struct Fifo1<T> {
    capacity: usize,
    ring: Vec<Option<T>>,
    push_cursor: usize,
    pop_cursor: usize,
}

impl<T> View for Fifo1<T> {
    type V = Seq<T>;

    /// The enqueued items, oldest first.
    closed spec fn view(&self) -> Seq<T> {
        window(self.ring@, self.pop_cursor as int, self.push_cursor as int)
    }
}

impl<T> Fifo1<T> {
    /// The fixed number of slots.
    pub closed spec fn capacity(&self) -> nat {
        self.capacity as nat
    }

    /// How many pushes have succeeded so far.
    pub closed spec fn push_count(&self) -> nat {
        self.push_cursor as nat
    }

    /// How many pops have succeeded so far.
    pub closed spec fn pop_count(&self) -> nat {
        self.pop_cursor as nat
    }

    /// The queue's invariant: the ring has `capacity` slots, and exactly the
    /// slots of the positions `pop_count .. push_count` are filled.
    pub closed spec fn wf(&self) -> bool {
        &&& self.capacity > 0
        &&& self.ring@.len() == self.capacity
        &&& window_wf(self.ring@, self.pop_cursor as int, self.push_cursor as int)
    }

    /// The cursors never cross, never drift more than `capacity` apart, and
    /// their difference is the number of items enqueued.
    pub proof fn cursor_bounds(&self)
        requires
            self.wf(),
        ensures
            self.capacity() >= 1,
            self.pop_count() <= self.push_count(),
            self.push_count() - self.pop_count() <= self.capacity(),
            self@.len() == self.push_count() - self.pop_count(),
            self.push_count() <= usize::MAX,
    {
    }

    /// What slot `index` of the ring holds.
    pub closed spec fn stored(&self, index: int) -> Option<T> {
        self.ring@[index]
    }

    /// Round robin. The item pushed at count `position` lies in slot
    /// `position % capacity` for as long as it is enqueued, and the slots
    /// that the pushes of the rest of the lap will use are vacant.
    pub proof fn round_robin(&self, position: int)
        requires
            self.wf(),
            self.pop_count() <= position < self.pop_count() + self.capacity(),
        ensures
            0 <= slot(position, self.capacity() as int) < self.capacity(),
            position < self.push_count() ==> self.stored(slot(position, self.capacity() as int))
                == Some(self@[position - self.pop_count()]),
            position >= self.push_count() ==> self.stored(slot(position, self.capacity() as int))
                is None,
    {
        lemma_round_robin(self.ring@, self.pop_count() as int, self.push_count() as int, position);
    }

    /// Creates an empty queue with `capacity` slots.
    pub fn new(capacity: usize) -> (queue: Fifo1<T>)
        requires
            capacity > 0,
        ensures
            queue.wf(),
            queue.capacity() == capacity,
            queue@ == Seq::<T>::empty(),
            queue.push_count() == 0,
            queue.pop_count() == 0,
    {
        let ring: Vec<Option<T>> = vacant_ring(capacity);
        Fifo1 { capacity, ring, push_cursor: 0, pop_cursor: 0 }
    }

    /// Takes the oldest item out, or returns `None` and leaves the queue
    /// untouched when it is empty.
    pub fn pop(&mut self) -> (item: Option<T>)
        requires
            old(self).wf(),
        ensures
            final(self).wf(),
            final(self).capacity() == old(self).capacity(),
            item == front(old(self)@),
            final(self)@ == after_pop(old(self)@),
            final(self).push_count() == old(self).push_count(),
            final(self).pop_count() == old(self).pop_count() + (if item is Some {
                1nat
            } else {
                0nat
            }),
            item is None ==> *final(self) == *old(self),
    {
        if self.size() == 0 {
            return None;
        }
        proof {
            lemma_window_pop(self.ring@, self.pop_cursor as int, self.push_cursor as int);
        }
        let loc = self.pop_cursor % self.capacity;
        let value = self.ring[loc].take();
        self.pop_cursor += 1;
        value
    }

    /// Appends `item` when a slot is free and says whether it did. A full
    /// queue is left untouched.
    pub fn push(&mut self, item: T) -> (accepted: bool)
        requires
            old(self).wf(),
            has_room(old(self)@, old(self).capacity()) ==> old(self).push_count() < usize::MAX,
        ensures
            final(self).wf(),
            final(self).capacity() == old(self).capacity(),
            accepted == has_room(old(self)@, old(self).capacity()),
            final(self)@ == after_push(old(self)@, old(self).capacity(), item),
            final(self).push_count() == old(self).push_count() + (if accepted {
                1nat
            } else {
                0nat
            }),
            final(self).pop_count() == old(self).pop_count(),
            !accepted ==> *final(self) == *old(self),
    {
        if self.is_full() {
            return false;
        }
        proof {
            lemma_window_push(self.ring@, self.pop_cursor as int, self.push_cursor as int, item);
        }
        let loc = self.push_cursor % self.capacity;
        self.ring[loc] = Some(item);
        self.push_cursor += 1;
        true
    }

    /// The number of items enqueued.
    pub fn size(&self) -> (n: usize)
        requires
            self.wf(),
        ensures
            n == self@.len(),
            n == self.push_count() - self.pop_count(),
    {
        self.push_cursor - self.pop_cursor
    }

    /// Whether every slot is taken.
    pub fn is_full(&self) -> (full: bool)
        requires
            self.wf(),
        ensures
            full == !has_room(self@, self.capacity()),
            full == (self@.len() == self.capacity()),
    {
        self.capacity == self.size()
    }

    /// Whether no item is enqueued.
    pub fn is_empty(&self) -> (empty: bool)
        requires
            self.wf(),
        ensures
            empty == (self@.len() == 0),
    {
        self.size() == 0
    }
}

} // verus!
