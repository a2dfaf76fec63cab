//! Round-robin slots: how a window of cursor positions lies on a ring.
//!
//! A position is the count at which an item was pushed. Position `p` lives in
//! slot `p % n` of a ring of `n` slots, so the positions `pop .. push` of the
//! items still enqueued occupy pairwise different slots as long as there are
//! at most `n` of them.

use vstd::prelude::*;

verus! {

/// The slot that holds position `position` on a ring of `slots` slots.
pub open spec fn slot(position: int, slots: int) -> int {
    position % slots
}

/// The window `pop .. push` lies well on `cells`: it spans at most the whole
/// ring, every position in it finds its slot filled, and every slot that the
/// next pushes will use is vacant.
pub open spec fn window_wf<T>(cells: Seq<Option<T>>, pop: int, push: int) -> bool {
    &&& cells.len() > 0
    &&& 0 <= pop <= push <= pop + cells.len()
    &&& forall|p: int| pop <= p < push ==> (#[trigger] cells[slot(p, cells.len() as int)]) is Some
    &&& forall|p: int|
        push <= p < pop + cells.len() ==> (#[trigger] cells[slot(p, cells.len() as int)]) is None
}

/// The items of the window `pop .. push`, oldest first.
pub open spec fn window<T>(cells: Seq<Option<T>>, pop: int, push: int) -> Seq<T> {
    Seq::new((push - pop) as nat, |k: int| cells[slot(pop + k, cells.len() as int)]->Some_0)
}

/// A slot index is in range.
pub proof fn lemma_slot_in_range(position: int, slots: int)
    requires
        slots > 0,
    ensures
        0 <= slot(position, slots) < slots,
{
}

/// Two different positions less than a lap apart lie in different slots.
pub proof fn lemma_slots_differ(a: int, b: int, slots: int)
    requires
        slots > 0,
        a < b < a + slots,
    ensures
        slot(a, slots) != slot(b, slots),
{
    if a % slots == b % slots {
        // Equal remainders would make the distance a whole number of laps.
        let laps = b / slots - a / slots;
        assert(b - a == slots * laps) by (nonlinear_arith)
            requires
                slots > 0,
                a % slots == b % slots,
                laps == b / slots - a / slots,
        ;
        assert(false) by (nonlinear_arith)
            requires
                slots > 0,
                0 < b - a < slots,
                b - a == slots * laps,
        ;
    }
}

/// A position and the one a full lap later share a slot.
pub proof fn lemma_slot_next_lap(p: int, slots: int)
    requires
        slots > 0,
    ensures
        slot(p + slots, slots) == slot(p, slots),
{
    vstd::arithmetic::div_mod::lemma_mod_add_multiples_vanish(p, slots);
}

/// An empty window on a ring of vacant slots is well formed.
pub proof fn lemma_window_empty<T>(cells: Seq<Option<T>>)
    requires
        cells.len() > 0,
        forall|i: int| 0 <= i < cells.len() ==> (#[trigger] cells[i]) is None,
    ensures
        window_wf(cells, 0, 0),
        window(cells, 0, 0) =~= Seq::<T>::empty(),
{
    let n = cells.len() as int;
    assert forall|p: int| 0 <= p < n implies (#[trigger] cells[slot(p, n)]) is None by {
        lemma_slot_in_range(p, n);
    }
}

/// Builds a ring of `capacity` vacant slots, on which the empty window lies
/// well.
pub(crate) fn vacant_ring<T>(capacity: usize) -> (ring: Vec<Option<T>>)
    requires
        capacity > 0,
    ensures
        ring@.len() == capacity,
        forall|i: int| 0 <= i < capacity ==> (#[trigger] ring@[i]) is None,
        window_wf(ring@, 0, 0),
        window(ring@, 0, 0) == Seq::<T>::empty(),
{
    let mut ring: Vec<Option<T>> = Vec::with_capacity(capacity);
    let mut filled: usize = 0;
    while filled < capacity
        invariant
            filled <= capacity,
            ring@.len() == filled,
            forall|i: int| 0 <= i < ring@.len() ==> (#[trigger] ring@[i]) is None,
        decreases capacity - filled,
    {
        ring.push(None);
        filled += 1;
    }
    proof {
        lemma_window_empty(ring@);
    }
    ring
}

/// Round robin. Every position of the lap that starts at `pop` has a slot
/// of its own: filled with its item while the position is in the window,
/// vacant while it waits for its push.
pub proof fn lemma_round_robin<T>(cells: Seq<Option<T>>, pop: int, push: int, position: int)
    requires
        window_wf(cells, pop, push),
        pop <= position < pop + cells.len(),
    ensures
        0 <= slot(position, cells.len() as int) < cells.len(),
        position < push ==> cells[slot(position, cells.len() as int)] == Some(
            window(cells, pop, push)[position - pop],
        ),
        position >= push ==> cells[slot(position, cells.len() as int)] is None,
{
    let n = cells.len() as int;
    lemma_slot_in_range(position, n);
    if position < push {
        assert(cells[slot(position, n)] is Some);
        assert(pop + (position - pop) == position);
    } else {
        assert(cells[slot(position, n)] is None);
    }
}

/// Filling the slot of position `push` extends the window by that item.
pub proof fn lemma_window_push<T>(cells: Seq<Option<T>>, pop: int, push: int, item: T)
    requires
        window_wf(cells, pop, push),
        push < pop + cells.len(),
    ensures
        0 <= slot(push, cells.len() as int) < cells.len(),
        window_wf(cells.update(slot(push, cells.len() as int), Some(item)), pop, push + 1),
        window(cells.update(slot(push, cells.len() as int), Some(item)), pop, push + 1)
            =~= window(cells, pop, push).push(item),
{
    let n = cells.len() as int;
    let at = slot(push, n);
    let after = cells.update(at, Some(item));
    lemma_slot_in_range(push, n);
    assert forall|p: int| pop <= p < push + 1 implies (#[trigger] after[slot(p, n)])
        is Some by {
        lemma_slot_in_range(p, n);
        if p < push {
            lemma_slots_differ(p, push, n);
            assert(cells[slot(p, n)] is Some);
        }
    }
    assert forall|p: int| push + 1 <= p < pop + n implies (#[trigger] after[slot(p, n)])
        is None by {
        lemma_slot_in_range(p, n);
        lemma_slots_differ(push, p, n);
        assert(cells[slot(p, n)] is None);
    }
    let grown = window(after, pop, push + 1);
    let expected = window(cells, pop, push).push(item);
    assert forall|k: int| 0 <= k < grown.len() implies grown[k] == expected[k] by {
        lemma_slot_in_range(pop + k, n);
        if pop + k < push {
            lemma_slots_differ(pop + k, push, n);
        }
    }
}

/// Vacating the slot of position `pop` drops the oldest item from the window.
pub proof fn lemma_window_pop<T>(cells: Seq<Option<T>>, pop: int, push: int)
    requires
        window_wf(cells, pop, push),
        pop < push,
    ensures
        0 <= slot(pop, cells.len() as int) < cells.len(),
        cells[slot(pop, cells.len() as int)] == Some(window(cells, pop, push)[0]),
        window_wf(cells.update(slot(pop, cells.len() as int), None), pop + 1, push),
        window(cells.update(slot(pop, cells.len() as int), None), pop + 1, push)
            =~= window(cells, pop, push).subrange(1, push - pop),
{
    let n = cells.len() as int;
    let at = slot(pop, n);
    let after = cells.update(at, None::<T>);
    lemma_slot_in_range(pop, n);
    assert(cells[slot(pop, n)] is Some);
    assert forall|p: int| pop + 1 <= p < push implies (#[trigger] after[slot(p, n)])
        is Some by {
        lemma_slot_in_range(p, n);
        lemma_slots_differ(pop, p, n);
        assert(cells[slot(p, n)] is Some);
    }
    assert forall|p: int| push <= p < pop + 1 + n implies (#[trigger] after[slot(p, n)])
        is None by {
        lemma_slot_in_range(p, n);
        if p < pop + n {
            lemma_slots_differ(pop, p, n);
            assert(cells[slot(p, n)] is None);
        } else {
            lemma_slot_next_lap(pop, n);
        }
    }
    let shrunk = window(after, pop + 1, push);
    let expected = window(cells, pop, push).subrange(1, push - pop);
    assert forall|k: int| 0 <= k < shrunk.len() implies shrunk[k] == expected[k] by {
        lemma_slot_in_range(pop + 1 + k, n);
        lemma_slots_differ(pop, pop + 1 + k, n);
        assert(pop + 1 + k == pop + (k + 1));
    }
}

/// Moving both ends of a window by whole laps changes neither its slots nor
/// its items.
pub proof fn lemma_window_shift<T>(cells: Seq<Option<T>>, pop: int, push: int, laps: int)
    requires
        window_wf(cells, pop, push),
        0 <= pop + laps * cells.len(),
    ensures
        window_wf(cells, pop + laps * cells.len(), push + laps * cells.len()),
        window(cells, pop + laps * cells.len(), push + laps * cells.len()) =~= window(
            cells,
            pop,
            push,
        ),
{
    let n = cells.len() as int;
    let by = laps * n;
    assert forall|p: int| slot(p + by, n) == #[trigger] slot(p, n) by {
        vstd::arithmetic::div_mod::lemma_mod_multiples_vanish(laps, p, n);
        assert(n * laps + p == p + by) by (nonlinear_arith)
            requires
                by == laps * n,
        ;
    }
    assert forall|p: int| pop + by <= p < push + by implies (#[trigger] cells[slot(p, n)])
        is Some by {
        assert(slot((p - by) + by, n) == slot(p - by, n));
        assert(cells[slot(p - by, n)] is Some);
    }
    assert forall|p: int| push + by <= p < pop + by + n implies (#[trigger] cells[slot(p, n)])
        is None by {
        assert(slot((p - by) + by, n) == slot(p - by, n));
        assert(cells[slot(p - by, n)] is None);
    }
    let moved = window(cells, pop + by, push + by);
    let same = window(cells, pop, push);
    assert forall|k: int| 0 <= k < moved.len() implies moved[k] == same[k] by {
        assert(slot((pop + k) + by, n) == slot(pop + k, n));
        assert(pop + by + k == (pop + k) + by);
    }
}

} // verus!
