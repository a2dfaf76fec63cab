//! The shadow-cursor queue: each side remembers where it last saw the other.
//!
//! Reading the other side's cursor is the costly part of a step. Each side
//! therefore keeps a private copy of the other side's cursor as it last saw
//! it, and looks at the real cursor only when the copy says that the queue
//! looks full (to the producer) or empty (to the consumer). A copy is never
//! ahead of the cursor it stands for, so it can only ask for a second look,
//! never grant room or data that is not there.

use vstd::prelude::*;
use crossbeam::utils::CachePadded;
use crate::bounded::{after_pop, after_push, front, has_room};
use crate::padded::{load, padded, padded_value, store};
use crate::ring::{
    lemma_round_robin, lemma_window_pop, lemma_window_push, slot, vacant_ring, window, window_wf,
};

verus! {

/// What the producer alone touches. The padded cursor aligns the block to a
/// cache line, so nothing of the consumer shares a line with it.
struct ProducerFields {
    push_cursor: CachePadded<usize>,
    /// The pop cursor as the producer last saw it.
    cached_pop: usize,
}

/// What the consumer alone touches, laid out like the producer's block.
struct ConsumerFields {
    pop_cursor: CachePadded<usize>,
    /// The push cursor as the consumer last saw it.
    cached_push: usize,
}

/// A bounded FIFO queue whose sides cache each other's cursor.
pub struct Fifo4<T> {
    capacity: usize,
    ring: Vec<Option<T>>,
    producer: ProducerFields,
    consumer: ConsumerFields,
}

impl<T> View for Fifo4<T> {
    type V = Seq<T>;

    /// The enqueued items, oldest first.
    closed spec fn view(&self) -> Seq<T> {
        window(self.ring@, self.pop_count() as int, self.push_count() as int)
    }
}

impl<T> Fifo4<T> {
    /// The fixed number of slots.
    pub closed spec fn capacity(&self) -> nat {
        self.capacity as nat
    }

    /// How many pushes have succeeded so far.
    pub closed spec fn push_count(&self) -> nat {
        padded_value(self.producer.push_cursor) as nat
    }

    /// How many pops have succeeded so far.
    pub closed spec fn pop_count(&self) -> nat {
        padded_value(self.consumer.pop_cursor) as nat
    }

    /// The producer's copy of the pop cursor.
    pub closed spec fn cached_pop(&self) -> nat {
        self.producer.cached_pop as nat
    }

    /// The consumer's copy of the push cursor.
    pub closed spec fn cached_push(&self) -> nat {
        self.consumer.cached_push as nat
    }

    /// The queue's invariant: the ring has `capacity` slots, exactly the
    /// slots of the positions `pop_count .. push_count` are filled, and each
    /// copy lies between the progress its owner has made on it and the
    /// cursor it stands for.
    pub closed spec fn wf(&self) -> bool {
        &&& self.capacity > 0
        &&& self.ring@.len() == self.capacity
        &&& window_wf(self.ring@, self.pop_count() as int, self.push_count() as int)
        &&& self.cached_pop() <= self.pop_count()
        &&& self.pop_count() <= self.cached_push() <= self.push_count()
        &&& self.push_count() <= self.cached_pop() + self.capacity
    }

    /// The cursors never cross, never drift more than `capacity` apart, and
    /// their difference is the number of items enqueued.
    pub proof fn cursor_bounds(&self)
        requires
            self.wf(),
        ensures
            self.capacity() >= 1,
            self.pop_count() <= self.push_count(),
            self.push_count() - self.pop_count() <= self.capacity(),
            self@.len() == self.push_count() - self.pop_count(),
            self.push_count() <= usize::MAX,
    {
    }

    /// A copy is conservative. The producer's copy of the pop cursor is not
    /// ahead of it, so the room it shows exists; the consumer's copy of the
    /// push cursor is not ahead of it, so the data it shows exists. Neither
    /// side has gone further than its copy allowed.
    pub proof fn shadows_are_conservative(&self)
        requires
            self.wf(),
        ensures
            self.cached_pop() <= self.pop_count(),
            self.cached_push() <= self.push_count(),
            self.pop_count() <= self.cached_push(),
            self.push_count() <= self.cached_pop() + self.capacity(),
            self.push_count() - self.cached_pop() < self.capacity() ==> has_room(
                self@,
                self.capacity(),
            ),
            self.pop_count() < self.cached_push() ==> self@.len() > 0,
    {
    }

    /// What slot `index` of the ring holds.
    pub closed spec fn stored(&self, index: int) -> Option<T> {
        self.ring@[index]
    }

    /// Round robin. The item pushed at count `position` lies in slot
    /// `position % capacity` for as long as it is enqueued, and the slots
    /// that the pushes of the rest of the lap will use are vacant.
    pub proof fn round_robin(&self, position: int)
        requires
            self.wf(),
            self.pop_count() <= position < self.pop_count() + self.capacity(),
        ensures
            0 <= slot(position, self.capacity() as int) < self.capacity(),
            position < self.push_count() ==> self.stored(slot(position, self.capacity() as int))
                == Some(self@[position - self.pop_count()]),
            position >= self.push_count() ==> self.stored(slot(position, self.capacity() as int))
                is None,
    {
        lemma_round_robin(self.ring@, self.pop_count() as int, self.push_count() as int, position);
    }

    /// Creates an empty queue with `capacity` slots.
    pub fn new(capacity: usize) -> (queue: Fifo4<T>)
        requires
            capacity > 0,
        ensures
            queue.wf(),
            queue.capacity() == capacity,
            queue@ == Seq::<T>::empty(),
            queue.push_count() == 0,
            queue.pop_count() == 0,
            queue.cached_pop() == 0,
            queue.cached_push() == 0,
    {
        let ring: Vec<Option<T>> = vacant_ring(capacity);
        Fifo4 {
            capacity,
            ring,
            producer: ProducerFields { push_cursor: padded(0), cached_pop: 0 },
            consumer: ConsumerFields { pop_cursor: padded(0), cached_push: 0 },
        }
    }

    /// The consumer's step. It trusts its copy of the push cursor while the
    /// copy shows data; when the queue looks empty it reads the push cursor
    /// afresh, keeps what it read as its copy, and gives up only if the queue
    /// is empty by that reading too.
    pub fn pop(&mut self) -> (item: Option<T>)
        requires
            old(self).wf(),
        ensures
            final(self).wf(),
            final(self).capacity() == old(self).capacity(),
            item == front(old(self)@),
            final(self)@ == after_pop(old(self)@),
            final(self).push_count() == old(self).push_count(),
            final(self).pop_count() == old(self).pop_count() + (if item is Some {
                1nat
            } else {
                0nat
            }),
            final(self).cached_pop() == old(self).cached_pop(),
            final(self).cached_push() == (if old(self).pop_count() >= old(self).cached_push() {
                old(self).push_count()
            } else {
                old(self).cached_push()
            }),
    {
        let pop_val = load(&self.consumer.pop_cursor);
        let mut cached_push = self.consumer.cached_push;
        if pop_val >= cached_push {
            let actual_push = load(&self.producer.push_cursor);
            self.consumer.cached_push = actual_push;
            cached_push = actual_push;
            if pop_val >= cached_push {
                return None;
            }
        }
        proof {
            lemma_window_pop(self.ring@, pop_val as int, self.push_count() as int);
        }
        let loc = pop_val % self.capacity;
        let value = self.ring[loc].take();
        store(&mut self.consumer.pop_cursor, pop_val + 1);
        value
    }

    /// The producer's step. It trusts its copy of the pop cursor while the
    /// copy shows room; when the queue looks full it reads the pop cursor
    /// afresh, keeps what it read as its copy, and gives up only if the queue
    /// is full by that reading too.
    pub fn push(&mut self, item: T) -> (accepted: bool)
        requires
            old(self).wf(),
            has_room(old(self)@, old(self).capacity()) ==> old(self).push_count() < usize::MAX,
        ensures
            final(self).wf(),
            final(self).capacity() == old(self).capacity(),
            accepted == has_room(old(self)@, old(self).capacity()),
            final(self)@ == after_push(old(self)@, old(self).capacity(), item),
            final(self).push_count() == old(self).push_count() + (if accepted {
                1nat
            } else {
                0nat
            }),
            final(self).pop_count() == old(self).pop_count(),
            final(self).cached_push() == old(self).cached_push(),
            final(self).cached_pop() == (if old(self).push_count() - old(self).cached_pop()
                >= old(self).capacity() {
                old(self).pop_count()
            } else {
                old(self).cached_pop()
            }),
    {
        let push_val = load(&self.producer.push_cursor);
        let mut cached_pop = self.producer.cached_pop;
        if push_val - cached_pop >= self.capacity {
            let actual_pop = load(&self.consumer.pop_cursor);
            self.producer.cached_pop = actual_pop;
            cached_pop = actual_pop;
            if push_val - cached_pop >= self.capacity {
                return false;
            }
        }
        proof {
            lemma_window_push(self.ring@, self.pop_count() as int, push_val as int, item);
        }
        let loc = push_val % self.capacity;
        self.ring[loc] = Some(item);
        store(&mut self.producer.push_cursor, push_val + 1);
        true
    }
}

} // verus!
