//! The raw-storage queue: the shadow-cursor queue over slots that carry no
//! flag of their own.
//!
//! Whether a slot holds an item is known from the cursors alone. A push
//! places its item straight into the slot and a pop moves it out, without a
//! test of the slot on either side: the queue's invariant is the proof that
//! the slot is vacant or filled as the step needs it. The items between the
//! two cursors are the ones the queue owns, and they are what is destroyed
//! with it.

use vstd::prelude::*;
use crossbeam::utils::CachePadded;
use crate::bounded::{after_pop, after_push, front, has_room};
use crate::padded::{load, padded, padded_value, store};
use crate::ring::{
    lemma_round_robin, lemma_window_empty, lemma_window_pop, lemma_window_push, slot, window,
    window_wf,
};
use crate::slot::RawSlot;

verus! {

/// The producer's side: its cursor, padded to a cache line, and what it last
/// saw of the consumer.
struct ProducerFields {
    push_cursor: CachePadded<usize>,
    /// The pop cursor as the producer last saw it.
    cached_pop: usize,
}

/// The consumer's side: its cursor, padded to a cache line, and what it last
/// saw of the producer.
struct ConsumerFields {
    pop_cursor: CachePadded<usize>,
    /// The push cursor as the consumer last saw it.
    cached_push: usize,
}

/// A bounded FIFO queue over raw slots, with cached cursors.
pub struct Fifo5<T> {
    capacity: usize,
    ring: Vec<RawSlot<T>>,
    producer: ProducerFields,
    consumer: ConsumerFields,
}

impl<T> View for Fifo5<T> {
    type V = Seq<T>;

    /// The enqueued items, oldest first.
    closed spec fn view(&self) -> Seq<T> {
        window(self.cells(), self.pop_count() as int, self.push_count() as int)
    }
}

impl<T> Fifo5<T> {
    /// What each slot holds.
    spec fn cells(&self) -> Seq<Option<T>> {
        Seq::new(self.ring@.len(), |i: int| self.ring@[i]@)
    }

    /// The fixed number of slots.
    pub closed spec fn capacity(&self) -> nat {
        self.capacity as nat
    }

    /// How many pushes have succeeded so far.
    pub closed spec fn push_count(&self) -> nat {
        padded_value(self.producer.push_cursor) as nat
    }

    /// How many pops have succeeded so far.
    pub closed spec fn pop_count(&self) -> nat {
        padded_value(self.consumer.pop_cursor) as nat
    }

    /// The producer's copy of the pop cursor.
    pub closed spec fn cached_pop(&self) -> nat {
        self.producer.cached_pop as nat
    }

    /// The consumer's copy of the push cursor.
    pub closed spec fn cached_push(&self) -> nat {
        self.consumer.cached_push as nat
    }

    /// The queue's invariant. The ring has `capacity` slots. A slot is filled
    /// if and only if it is the slot of a position in
    /// `pop_count .. push_count`: these are the items the queue owns. Each
    /// cached cursor lies between the progress its owner has made on it and
    /// the cursor it stands for.
    pub closed spec fn wf(&self) -> bool {
        &&& self.capacity > 0
        &&& self.ring@.len() == self.capacity
        &&& window_wf(self.cells(), self.pop_count() as int, self.push_count() as int)
        &&& self.cached_pop() <= self.pop_count()
        &&& self.pop_count() <= self.cached_push() <= self.push_count()
        &&& self.push_count() <= self.cached_pop() + self.capacity
    }

    /// The cursors never cross, never drift more than `capacity` apart, and
    /// their difference is the number of items enqueued.
    pub proof fn cursor_bounds(&self)
        requires
            self.wf(),
        ensures
            self.capacity() >= 1,
            self.pop_count() <= self.push_count(),
            self.push_count() - self.pop_count() <= self.capacity(),
            self@.len() == self.push_count() - self.pop_count(),
            self.push_count() <= usize::MAX,
    {
    }

    /// A cached cursor never runs ahead of the cursor it stands for. So room
    /// that the producer's copy shows is there, and data that the consumer's
    /// copy shows is there; and neither side has gone further than its copy
    /// allowed.
    pub proof fn shadows_are_conservative(&self)
        requires
            self.wf(),
        ensures
            self.cached_pop() <= self.pop_count(),
            self.cached_push() <= self.push_count(),
            self.pop_count() <= self.cached_push(),
            self.push_count() <= self.cached_pop() + self.capacity(),
            self.push_count() - self.cached_pop() < self.capacity() ==> has_room(
                self@,
                self.capacity(),
            ),
            self.pop_count() < self.cached_push() ==> self@.len() > 0,
    {
    }

    /// What slot `index` of the ring holds.
    pub closed spec fn stored(&self, index: int) -> Option<T> {
        self.cells()[index]
    }

    /// Round robin. The item pushed at count `position` lies in slot
    /// `position % capacity` for as long as it is enqueued, and the slots
    /// that the pushes of the rest of the lap will use are vacant.
    pub proof fn round_robin(&self, position: int)
        requires
            self.wf(),
            self.pop_count() <= position < self.pop_count() + self.capacity(),
        ensures
            0 <= slot(position, self.capacity() as int) < self.capacity(),
            position < self.push_count() ==> self.stored(slot(position, self.capacity() as int))
                == Some(self@[position - self.pop_count()]),
            position >= self.push_count() ==> self.stored(slot(position, self.capacity() as int))
                is None,
    {
        lemma_round_robin(
            self.cells(),
            self.pop_count() as int,
            self.push_count() as int,
            position,
        );
    }

    /// Creates an empty queue with `capacity` slots.
    pub fn new(capacity: usize) -> (queue: Fifo5<T>)
        requires
            capacity > 0,
        ensures
            queue.wf(),
            queue.capacity() == capacity,
            queue@ == Seq::<T>::empty(),
            queue.push_count() == 0,
            queue.pop_count() == 0,
            queue.cached_pop() == 0,
            queue.cached_push() == 0,
    {
        let mut ring: Vec<RawSlot<T>> = Vec::with_capacity(capacity);
        let mut filled: usize = 0;
        while filled < capacity
            invariant
                filled <= capacity,
                ring@.len() == filled,
                forall|i: int| 0 <= i < ring@.len() ==> (#[trigger] ring@[i])@ is None,
            decreases capacity - filled,
        {
            ring.push(RawSlot::vacant());
            filled += 1;
        }
        let queue = Fifo5 {
            capacity,
            ring,
            producer: ProducerFields { push_cursor: padded(0), cached_pop: 0 },
            consumer: ConsumerFields { pop_cursor: padded(0), cached_push: 0 },
        };
        proof {
            lemma_window_empty(queue.cells());
        }
        queue
    }

    /// The consumer's step. Whether there is data is decided as in the
    /// shadow-cursor queue: by the consumer's copy of the push cursor, and by
    /// a fresh reading of the cursor when the copy shows none. The item is
    /// then moved out of its slot with no test of the slot.
    pub fn pop(&mut self) -> (item: Option<T>)
        requires
            old(self).wf(),
        ensures
            final(self).wf(),
            final(self).capacity() == old(self).capacity(),
            item == front(old(self)@),
            final(self)@ == after_pop(old(self)@),
            final(self).push_count() == old(self).push_count(),
            final(self).pop_count() == old(self).pop_count() + (if item is Some {
                1nat
            } else {
                0nat
            }),
            final(self).cached_pop() == old(self).cached_pop(),
            final(self).cached_push() == (if old(self).pop_count() >= old(self).cached_push() {
                old(self).push_count()
            } else {
                old(self).cached_push()
            }),
    {
        let pop_val = load(&self.consumer.pop_cursor);
        let mut cached_push = self.consumer.cached_push;
        if pop_val >= cached_push {
            let actual_push = load(&self.producer.push_cursor);
            self.consumer.cached_push = actual_push;
            cached_push = actual_push;
            if pop_val >= cached_push {
                return None;
            }
        }
        let ghost before = self.cells();
        proof {
            lemma_window_pop(before, pop_val as int, self.push_count() as int);
        }
        let loc = pop_val % self.capacity;
        let value = self.ring[loc].read();
        proof {
            assert(self.cells() =~= before.update(loc as int, None));
        }
        store(&mut self.consumer.pop_cursor, pop_val + 1);
        Some(value)
    }

    /// The producer's step. Whether there is room is decided as in the
    /// shadow-cursor queue: by the producer's copy of the pop cursor, and by
    /// a fresh reading of the cursor when the copy shows none. The item is
    /// then placed straight into its slot with no test of the slot.
    pub fn push(&mut self, item: T) -> (accepted: bool)
        requires
            old(self).wf(),
            has_room(old(self)@, old(self).capacity()) ==> old(self).push_count() < usize::MAX,
        ensures
            final(self).wf(),
            final(self).capacity() == old(self).capacity(),
            accepted == has_room(old(self)@, old(self).capacity()),
            final(self)@ == after_push(old(self)@, old(self).capacity(), item),
            final(self).push_count() == old(self).push_count() + (if accepted {
                1nat
            } else {
                0nat
            }),
            final(self).pop_count() == old(self).pop_count(),
            final(self).cached_push() == old(self).cached_push(),
            final(self).cached_pop() == (if old(self).push_count() - old(self).cached_pop()
                >= old(self).capacity() {
                old(self).pop_count()
            } else {
                old(self).cached_pop()
            }),
    {
        let push_val = load(&self.producer.push_cursor);
        let mut cached_pop = self.producer.cached_pop;
        if push_val - cached_pop >= self.capacity {
            let actual_pop = load(&self.consumer.pop_cursor);
            self.producer.cached_pop = actual_pop;
            cached_pop = actual_pop;
            if push_val - cached_pop >= self.capacity {
                return false;
            }
        }
        let ghost before = self.cells();
        proof {
            lemma_window_push(before, self.pop_count() as int, push_val as int, item);
            assert(before[slot(push_val as int, self.capacity as int)] is None);
        }
        let loc = push_val % self.capacity;
        self.ring[loc].write(item);
        proof {
            assert(self.cells() =~= before.update(loc as int, Some(item)));
        }
        store(&mut self.producer.push_cursor, push_val + 1);
        true
    }
}

} // verus!
