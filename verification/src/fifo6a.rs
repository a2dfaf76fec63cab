//! The turn-based queue: every slot carries the turn it is ready for.
//!
//! A slot's turn says which lap of the ring it waits for. A slot whose turn
//! equals the tail cursor is free for the push at that cursor; a slot whose
//! turn equals the head cursor plus one holds the item for the pop at that
//! cursor. A side claims a slot by moving its cursor from the value it read
//! to the next one, and retries from a fresh reading when the cursor has
//! moved in the meantime. The number of slots is a power of two, so the
//! cursors may wrap around the word, and a slot can be found by masking the
//! cursor as well as by taking its remainder: the queue does either, as it
//! was set up, with the same result.

use vstd::prelude::*;
use vstd::arithmetic::power2::is_pow2;
use vstd::wrapping::usize_specs::{wrapping_add, wrapping_sub};
use crossbeam::utils::CachePadded;
use crate::bounded::{after_pop, after_push, front, has_room};
use crate::padded::{compare_exchange, load, padded, padded_value};
use crate::ring::{
    lemma_round_robin, lemma_slot_in_range, lemma_slot_next_lap, lemma_slots_differ,
    lemma_window_empty, lemma_window_pop, lemma_window_push, lemma_window_shift, slot, window,
    window_wf,
};
use crate::slot::RawSlot;
use crate::wrap::{fold, lemma_mask_is_slot, lemma_slot_ignores_word, lemma_word_is_laps, word};

verus! {

/// How a queue finds the slot of a cursor.
#[derive(Clone, Copy, Debug)]
pub enum Indexing {
    /// By the bits of the cursor below the capacity: `cursor & (capacity - 1)`.
    Mask,
    /// By the remainder of the cursor: `cursor % capacity`.
    Modulo,
}

/// One slot of the ring: the turn it is ready for, and its storage.
struct Slot<T> {
    turn: usize,
    data: RawSlot<T>,
}

/// A bounded FIFO queue whose slots are claimed by turn.
pub struct Fifo6<T> {
    capacity: usize,
    indexing: Indexing,
    ring: Vec<Slot<T>>,
    head: CachePadded<usize>,
    tail: CachePadded<usize>,
}

/// The turn that the slot of `position` shows while the queue holds the
/// positions `first .. first + count`: one past the position when the slot
/// is filled, the position itself when it waits for a push.
pub open spec fn turn_of(position: int, first: int, count: int) -> int {
    if position < first + count {
        fold(position + 1)
    } else {
        fold(position)
    }
}

/// Every slot shows the turn of the one position of the current lap that
/// lies in it.
pub open spec fn turns_wf(turns: Seq<usize>, first: int, count: int) -> bool {
    forall|p: int|
        first <= p < first + turns.len() ==> (#[trigger] turns[slot(p, turns.len() as int)])
            as int == turn_of(p, first, count)
}

/// After a push at position `first + count` has set its slot's turn, the
/// turns fit the longer window.
proof fn lemma_turns_push(turns: Seq<usize>, first: int, count: int)
    requires
        turns.len() > 0,
        turns_wf(turns, first, count),
        0 <= first < word(),
        0 <= count < turns.len() < word(),
    ensures
        0 <= fold(first + count + 1) <= usize::MAX,
        turns_wf(
            turns.update(slot(first + count, turns.len() as int), fold(first + count + 1) as usize),
            first,
            count + 1,
        ),
{
    let n = turns.len() as int;
    let at = first + count;
    let after = turns.update(slot(at, n), fold(at + 1) as usize);
    lemma_slot_in_range(at, n);
    assert forall|p: int| first <= p < first + n implies (#[trigger] after[slot(p, n)]) as int
        == turn_of(p, first, count + 1) by {
        lemma_slot_in_range(p, n);
        if p < at {
            lemma_slots_differ(p, at, n);
        } else if p > at {
            lemma_slots_differ(at, p, n);
        }
        assert(turns[slot(p, n)] as int == turn_of(p, first, count));
    }
}

/// After a pop at position `first` has set its slot's turn to the next lap,
/// the turns fit the shorter window, also when the head cursor wraps.
proof fn lemma_turns_pop(turns: Seq<usize>, first: int, count: int, capacity: usize)
    requires
        turns.len() == capacity,
        is_pow2(capacity as int),
        turns_wf(turns, first, count),
        0 <= first < word(),
        0 < count <= capacity,
    ensures
        0 <= fold(first + capacity) <= usize::MAX,
        turns_wf(
            turns.update(slot(first, capacity as int), fold(first + capacity) as usize),
            fold(first + 1),
            count - 1,
        ),
{
    let n = capacity as int;
    let laps = lemma_word_is_laps(capacity);
    assert(2 * n <= word()) by (nonlinear_arith)
        requires
            word() == n * laps,
            laps >= 2,
            n >= 1,
    ;
    let after = turns.update(slot(first, n), fold(first + n) as usize);
    let next = fold(first + 1);
    let shift = first + 1 - next;
    lemma_slot_in_range(first, n);
    assert forall|q: int| next <= q < next + n implies (#[trigger] after[slot(q, n)]) as int
        == turn_of(q, next, count - 1) by {
        let p = q + shift;
        lemma_slot_ignores_word(q, capacity);
        assert(slot(q, n) == slot(p, n));
        lemma_slot_in_range(p, n);
        if p == first + n {
            lemma_slot_next_lap(first, n);
        } else {
            lemma_slots_differ(first, p, n);
            assert(turns[slot(p, n)] as int == turn_of(p, first, count));
        }
    }
}

/// Whether the wrapped difference of two cursors stands for a negative
/// number: the first cursor trails the second.
fn trails(diff: usize) -> (behind: bool)
    ensures
        behind == (2 * diff >= word()),
{
    diff > usize::MAX / 2
}

impl<T> View for Fifo6<T> {
    type V = Seq<T>;

    /// The enqueued items, oldest first.
    closed spec fn view(&self) -> Seq<T> {
        window(self.cells(), self.head() as int, self.head() + self.count())
    }
}

impl<T> Fifo6<T> {
    /// What each slot's storage holds.
    spec fn cells(&self) -> Seq<Option<T>> {
        Seq::new(self.ring@.len(), |i: int| self.ring@[i].data@)
    }

    /// The turn that each slot shows.
    spec fn turns(&self) -> Seq<usize> {
        Seq::new(self.ring@.len(), |i: int| self.ring@[i].turn)
    }

    /// How far the tail cursor is ahead of the head cursor.
    spec fn count(&self) -> int {
        wrapping_sub(self.tail(), self.head()) as int
    }

    /// The fixed number of slots.
    pub closed spec fn capacity(&self) -> nat {
        self.capacity as nat
    }

    /// How this queue finds the slot of a cursor.
    pub closed spec fn indexing(&self) -> Indexing {
        self.indexing
    }

    /// The consumer cursor: the number of successful pops, wrapped to a word.
    pub closed spec fn head(&self) -> usize {
        padded_value(self.head)
    }

    /// The producer cursor: the number of successful pushes, wrapped to a
    /// word.
    pub closed spec fn tail(&self) -> usize {
        padded_value(self.tail)
    }

    /// The turn that slot `index` shows.
    pub closed spec fn turn(&self, index: int) -> usize {
        self.ring@[index].turn
    }

    /// The queue's invariant: the number of slots is a power of two, the
    /// tail is at most one lap ahead of the head, exactly the slots of the
    /// positions between them are filled, and every slot shows the turn of
    /// its position.
    pub closed spec fn wf(&self) -> bool {
        &&& is_pow2(self.capacity as int)
        &&& self.ring@.len() == self.capacity
        &&& self.count() <= self.capacity
        &&& window_wf(self.cells(), self.head() as int, self.head() + self.count())
        &&& turns_wf(self.turns(), self.head() as int, self.count())
    }

    /// The tail cursor is never more than one lap ahead of the head cursor,
    /// and its lead is the number of items enqueued.
    pub proof fn cursor_bounds(&self)
        requires
            self.wf(),
        ensures
            is_pow2(self.capacity() as int),
            self@.len() == wrapping_sub(self.tail(), self.head()),
            self@.len() <= self.capacity(),
    {
    }

    /// The slot under the tail cursor shows the tail as its turn exactly when
    /// it is free, and the slot under the head cursor shows the head plus one
    /// exactly when it holds an item; the one exception is a ring of a single
    /// slot, whose filled slot shows the next tail too.
    pub proof fn turns_follow_cursors(&self)
        requires
            self.wf(),
        ensures
            has_room(self@, self.capacity()) ==> self.turn(
                slot(self.tail() as int, self.capacity() as int),
            ) == self.tail(),
            self.capacity() >= 2 && !has_room(self@, self.capacity()) ==> self.turn(
                slot(self.tail() as int, self.capacity() as int),
            ) != self.tail(),
            self@.len() > 0 <==> self.turn(slot(self.head() as int, self.capacity() as int))
                == wrapping_add(self.head(), 1),
    {
        self.lemma_under_cursors();
    }

    /// What the slots under the two cursors show.
    proof fn lemma_under_cursors(&self)
        requires
            self.wf(),
        ensures
            self.capacity >= 1,
            2 * self.capacity <= word(),
            0 <= self.count() <= self.capacity,
            self@.len() == self.count(),
            self.tail() as int == fold(self.head() + self.count()),
            0 <= slot(self.tail() as int, self.capacity as int) < self.capacity,
            0 <= slot(self.head() as int, self.capacity as int) < self.capacity,
            slot(self.tail() as int, self.capacity as int) == slot(
                self.head() + self.count(),
                self.capacity as int,
            ),
            self.count() < self.capacity ==> self.ring@[slot(
                self.tail() as int,
                self.capacity as int,
            )].turn == self.tail(),
            self.count() == self.capacity ==> self.ring@[slot(
                self.tail() as int,
                self.capacity as int,
            )].turn as int == fold(self.head() + 1),
            self.count() > 0 ==> self.ring@[slot(self.head() as int, self.capacity as int)].turn
                as int == fold(self.head() + 1),
            self.count() == 0 ==> self.ring@[slot(self.head() as int, self.capacity as int)].turn
                == self.head(),
            self.count() < self.capacity ==> self.ring@[slot(
                self.tail() as int,
                self.capacity as int,
            )].data@ is None,
            self.count() > 0 ==> self.ring@[slot(self.head() as int, self.capacity as int)].data@
                is Some,
    {
        let n = self.capacity as int;
        let head = self.head() as int;
        let count = self.count();
        let laps = lemma_word_is_laps(self.capacity);
        assert(2 * n <= word()) by (nonlinear_arith)
            requires
                word() == n * laps,
                laps >= 2,
                n >= 1,
        ;
        lemma_slot_ignores_word(head + count, self.capacity);
        lemma_slot_in_range(head, n);
        lemma_slot_in_range(head + count, n);
        let turns = self.turns();
        let cells = self.cells();
        assert(turns.len() == n && cells.len() == n);
        assert(turns[slot(head, n)] as int == turn_of(head, head, count));
        if count > 0 {
            assert(cells[slot(head, n)] is Some);
        }
        if count < n {
            assert(turns[slot(head + count, n)] as int == turn_of(head + count, head, count));
            assert(cells[slot(head + count, n)] is None);
        } else {
            lemma_slot_next_lap(head, n);
        }
    }

    /// What slot `index` of the ring holds.
    pub closed spec fn stored(&self, index: int) -> Option<T> {
        self.cells()[index]
    }

    /// Round robin. The item pushed at count `position` lies in slot
    /// `position % capacity` for as long as it is enqueued, and the slots
    /// that the pushes of the rest of the lap will use are vacant. Either
    /// way the slot shows the turn of that position.
    pub proof fn round_robin(&self, position: int)
        requires
            self.wf(),
            self.head() <= position < self.head() + self.capacity(),
        ensures
            0 <= slot(position, self.capacity() as int) < self.capacity(),
            position < self.head() + self@.len() ==> self.stored(
                slot(position, self.capacity() as int),
            ) == Some(self@[position - self.head()]),
            position >= self.head() + self@.len() ==> self.stored(
                slot(position, self.capacity() as int),
            ) is None,
            self.turn(slot(position, self.capacity() as int)) as int == turn_of(
                position,
                self.head() as int,
                self@.len() as int,
            ),
    {
        let turns = self.turns();
        lemma_round_robin(self.cells(), self.head() as int, self.head() + self.count(), position);
        assert(turns[slot(position, turns.len() as int)] as int == turn_of(
            position,
            self.head() as int,
            self.count(),
        ));
    }

    /// The slot of `cursor`, found the way this queue was set up to find it.
    fn index_of(&self, cursor: usize) -> (index: usize)
        requires
            is_pow2(self.capacity as int),
        ensures
            index == slot(cursor as int, self.capacity as int),
            index < self.capacity,
    {
        proof {
            lemma_mask_is_slot(cursor, self.capacity);
            lemma_slot_in_range(cursor as int, self.capacity as int);
        }
        match self.indexing {
            Indexing::Mask => cursor & (self.capacity - 1),
            Indexing::Modulo => cursor % self.capacity,
        }
    }

    /// Creates an empty queue with `capacity` slots that finds its slots by
    /// masking. The capacity must be a power of two.
    pub fn new(capacity: usize) -> (queue: Fifo6<T>)
        requires
            is_pow2(capacity as int),
        ensures
            queue.wf(),
            queue.capacity() == capacity,
            queue.indexing() is Mask,
            queue@ == Seq::<T>::empty(),
            queue.head() == 0,
            queue.tail() == 0,
            forall|i: int| 0 <= i < capacity ==> queue.turn(i) == i,
    {
        Fifo6::with_indexing(capacity, Indexing::Mask)
    }

    /// Creates an empty queue with `capacity` slots, each showing its own
    /// index as its turn, that finds its slots as `indexing` says. The
    /// capacity must be a power of two.
    pub fn with_indexing(capacity: usize, indexing: Indexing) -> (queue: Fifo6<T>)
        requires
            is_pow2(capacity as int),
        ensures
            queue.wf(),
            queue.capacity() == capacity,
            queue.indexing() == indexing,
            queue@ == Seq::<T>::empty(),
            queue.head() == 0,
            queue.tail() == 0,
            forall|i: int| 0 <= i < capacity ==> queue.turn(i) == i,
    {
        let mut ring: Vec<Slot<T>> = Vec::with_capacity(capacity);
        let mut i: usize = 0;
        while i < capacity
            invariant
                i <= capacity,
                ring@.len() == i,
                forall|j: int|
                    0 <= j < i ==> (#[trigger] ring@[j]).turn == j && ring@[j].data@ is None,
            decreases capacity - i,
        {
            ring.push(Slot { turn: i, data: RawSlot::vacant() });
            i += 1;
        }
        let queue = Fifo6 { capacity, indexing, ring, head: padded(0), tail: padded(0) };
        proof {
            let laps = lemma_word_is_laps(capacity);
            lemma_window_empty(queue.cells());
            let turns = queue.turns();
            assert forall|p: int| 0 <= p < turns.len() implies (#[trigger] turns[slot(
                p,
                turns.len() as int,
            )]) as int == turn_of(p, 0, 0) by {
                vstd::arithmetic::div_mod::lemma_small_mod(p as nat, turns.len());
            }
        }
        queue
    }

    /// Takes the oldest item out, or returns `None` and leaves the queue
    /// untouched when it is empty. A successful pop advances the head cursor
    /// and readies the slot for the push one lap later.
    pub fn pop(&mut self) -> (item: Option<T>)
        requires
            old(self).wf(),
        ensures
            final(self).wf(),
            final(self).capacity() == old(self).capacity(),
            final(self).indexing() == old(self).indexing(),
            item == front(old(self)@),
            final(self)@ == after_pop(old(self)@),
            final(self).tail() == old(self).tail(),
            final(self).head() == (if item is Some {
                wrapping_add(old(self).head(), 1)
            } else {
                old(self).head()
            }),
            item is None ==> *final(self) == *old(self),
    {
        // With one owner the first reading settles the call: the slot is
        // either ready or not, and nobody else moves the cursor.
        loop
            invariant
                *self == *old(self),
                self.wf(),
            decreases 0nat,
        {
            let head = load(&self.head);
            let index = self.index_of(head);
            proof {
                self.lemma_under_cursors();
            }
            let turn = self.ring[index].turn;
            let diff = turn.wrapping_sub(head.wrapping_add(1));
            if diff == 0 {
                if compare_exchange(&mut self.head, head, head.wrapping_add(1)).is_ok() {
                    proof {
                        let first = head as int;
                        let count = old(self).count();
                        let cells = old(self).cells();
                        lemma_window_pop(cells, first, first + count);
                        lemma_turns_pop(old(self).turns(), first, count, self.capacity);
                        if first + 1 == word() {
                            let laps = lemma_word_is_laps(self.capacity);
                            assert(first + 1 + (-laps) * self.capacity == 0) by (nonlinear_arith)
                                requires
                                    first + 1 == self.capacity * laps,
                            ;
                            lemma_window_shift(
                                cells.update(index as int, None),
                                first + 1,
                                first + count,
                                -laps,
                            );
                        }
                    }
                    let data = self.ring[index].data.read();
                    self.ring[index].turn = head.wrapping_add(self.capacity);
                    proof {
                        assert(self.cells() =~= old(self).cells().update(index as int, None));
                        assert(self.turns() =~= old(self).turns().update(
                            index as int,
                            head.wrapping_add(self.capacity),
                        ));
                    }
                    return Some(data);
                }
                assert(false);
            } else if trails(diff) {
                return None;
            } else {
                assert(false);
            }
        }
    }

    /// Appends `item` when the slot under the tail cursor is free and says
    /// whether it did. A successful push advances the tail cursor and marks
    /// the slot as holding the item of that turn. A full queue is left
    /// untouched.
    ///
    /// On a ring of a single slot the filled slot shows the very turn that
    /// the next push looks for, so there the push tells a full queue by the
    /// cursors: the tail is ahead of the head.
    pub fn push(&mut self, item: T) -> (accepted: bool)
        requires
            old(self).wf(),
        ensures
            final(self).wf(),
            final(self).capacity() == old(self).capacity(),
            final(self).indexing() == old(self).indexing(),
            accepted == has_room(old(self)@, old(self).capacity()),
            final(self)@ == after_push(old(self)@, old(self).capacity(), item),
            final(self).head() == old(self).head(),
            final(self).tail() == (if accepted {
                wrapping_add(old(self).tail(), 1)
            } else {
                old(self).tail()
            }),
            !accepted ==> *final(self) == *old(self),
    {
        // With one owner the first reading settles the call: the slot is
        // either free or not, and nobody else moves the cursor.
        loop
            invariant
                *self == *old(self),
                self.wf(),
            decreases 0nat,
        {
            let tail = load(&self.tail);
            if self.capacity == 1 && load(&self.head) != tail {
                proof {
                    self.lemma_under_cursors();
                }
                return false;
            }
            let index = self.index_of(tail);
            proof {
                self.lemma_under_cursors();
            }
            let turn = self.ring[index].turn;
            let diff = turn.wrapping_sub(tail);
            if diff == 0 {
                if compare_exchange(&mut self.tail, tail, tail.wrapping_add(1)).is_ok() {
                    proof {
                        let first = old(self).head() as int;
                        let count = old(self).count();
                        lemma_window_push(old(self).cells(), first, first + count, item);
                        lemma_turns_push(old(self).turns(), first, count);
                    }
                    self.ring[index].data.write(item);
                    self.ring[index].turn = tail.wrapping_add(1);
                    proof {
                        assert(self.cells() =~= old(self).cells().update(index as int, Some(item)));
                        assert(self.turns() =~= old(self).turns().update(
                            index as int,
                            tail.wrapping_add(1),
                        ));
                    }
                    return true;
                }
                assert(false);
            } else if trails(diff) {
                return false;
            } else {
                assert(false);
            }
        }
    }
}

} // verus!
