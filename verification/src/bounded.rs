//! The abstract bounded queue that every ring variant implements.
//!
//! A queue is a sequence of items, oldest first, together with a fixed
//! capacity. The functions here say what one `push` and one `pop` do to that
//! sequence; the executable queues state their contracts in these terms, so
//! what is proved here of sequences of calls holds of each of them.

use vstd::prelude::*;

verus! {

/// Whether a queue holding `queue` has room for one more item.
pub open spec fn has_room<T>(queue: Seq<T>, capacity: nat) -> bool {
    queue.len() < capacity
}

/// The contents after an attempt to push `item`: appended at the back when
/// there is room, unchanged otherwise.
pub open spec fn after_push<T>(queue: Seq<T>, capacity: nat, item: T) -> Seq<T> {
    if has_room(queue, capacity) {
        queue.push(item)
    } else {
        queue
    }
}

/// The item that a pop hands out: the oldest one, or nothing when empty.
pub open spec fn front<T>(queue: Seq<T>) -> Option<T> {
    if queue.len() > 0 {
        Some(queue[0])
    } else {
        None
    }
}

/// The contents after a pop: the oldest item is gone; an empty queue stays
/// as it is.
pub open spec fn after_pop<T>(queue: Seq<T>) -> Seq<T> {
    if queue.len() > 0 {
        queue.subrange(1, queue.len() as int)
    } else {
        queue
    }
}

/// One call on a queue.
pub enum Call<T> {
    /// A push of the given item.
    Push(T),
    /// A pop.
    Pop,
}

/// A queue together with the record of what it has taken in and handed out.
pub struct Trace<T> {
    /// The items enqueued now, oldest first.
    pub queue: Seq<T>,
    /// The items of the pushes that succeeded, in the order of the calls.
    pub accepted: Seq<T>,
    /// The items that pops handed out, in the order of the calls.
    pub delivered: Seq<T>,
}

/// The trace of a queue on which nothing has been called yet.
pub open spec fn fresh<T>() -> Trace<T> {
    Trace { queue: Seq::empty(), accepted: Seq::empty(), delivered: Seq::empty() }
}

/// The trace after one more call.
pub open spec fn step<T>(trace: Trace<T>, capacity: nat, call: Call<T>) -> Trace<T> {
    match call {
        Call::Push(item) => Trace {
            queue: after_push(trace.queue, capacity, item),
            accepted: if has_room(trace.queue, capacity) {
                trace.accepted.push(item)
            } else {
                trace.accepted
            },
            delivered: trace.delivered,
        },
        Call::Pop => Trace {
            queue: after_pop(trace.queue),
            accepted: trace.accepted,
            delivered: match front(trace.queue) {
                Some(item) => trace.delivered.push(item),
                None => trace.delivered,
            },
        },
    }
}

/// The trace after a sequence of calls, made in order from `start`.
pub open spec fn run<T>(start: Trace<T>, capacity: nat, calls: Seq<Call<T>>) -> Trace<T>
    decreases calls.len(),
{
    if calls.len() == 0 {
        start
    } else {
        step(run(start, capacity, calls.drop_last()), capacity, calls.last())
    }
}

/// A sequence of calls that pushes `items` one after the other.
pub open spec fn pushes<T>(items: Seq<T>) -> Seq<Call<T>> {
    Seq::new(items.len(), |i: int| Call::Push(items[i]))
}

/// A sequence of `n` pops.
pub open spec fn pops<T>(n: nat) -> Seq<Call<T>> {
    Seq::new(n, |i: int| Call::Pop)
}

/// First in, first out. Whatever calls are made on a new queue and in
/// whatever order, the items handed out so far followed by the items still
/// enqueued are exactly the items accepted, in the order in which they were
/// pushed; and the queue never holds more than its capacity.
pub proof fn fifo_order<T>(capacity: nat, calls: Seq<Call<T>>)
    ensures
        run(fresh(), capacity, calls).delivered + run(fresh(), capacity, calls).queue == run(
            fresh(),
            capacity,
            calls,
        ).accepted,
        run(fresh::<T>(), capacity, calls).queue.len() <= capacity,
    decreases calls.len(),
{
    let end = run(fresh::<T>(), capacity, calls);
    if calls.len() == 0 {
        assert(end.delivered + end.queue =~= end.accepted);
    } else {
        fifo_order(capacity, calls.drop_last());
        let before = run(fresh::<T>(), capacity, calls.drop_last());
        assert(before.delivered + before.queue == before.accepted);
        match calls.last() {
            Call::Push(item) => {
                if has_room(before.queue, capacity) {
                    assert(before.delivered + before.queue.push(item) =~= (before.delivered
                        + before.queue).push(item));
                }
            },
            Call::Pop => {
                if before.queue.len() > 0 {
                    assert(before.delivered.push(before.queue[0]) + before.queue.subrange(
                        1,
                        before.queue.len() as int,
                    ) =~= before.delivered + before.queue);
                }
            },
        }
    }
}

/// Nothing is lost and nothing comes twice. Whatever calls are made on a new
/// queue, by however many producers and consumers taking turns, the items
/// handed out are the first of the items accepted, in the same order; and
/// the items handed out together with the items still enqueued are, counted
/// with repeats, exactly the items accepted. Once the queue is empty, what
/// was handed out is what was accepted.
pub proof fn nothing_lost_or_repeated<T>(capacity: nat, calls: Seq<Call<T>>)
    ensures
        run(fresh(), capacity, calls).delivered.len() <= run(
            fresh(),
            capacity,
            calls,
        ).accepted.len(),
        run(fresh(), capacity, calls).delivered == run(fresh(), capacity, calls).accepted.subrange(
            0,
            run(fresh(), capacity, calls).delivered.len() as int,
        ),
        run(fresh(), capacity, calls).delivered.to_multiset().add(
            run(fresh(), capacity, calls).queue.to_multiset(),
        ) == run(fresh(), capacity, calls).accepted.to_multiset(),
        run(fresh::<T>(), capacity, calls).queue.len() == 0 ==> run(
            fresh(),
            capacity,
            calls,
        ).delivered == run(fresh(), capacity, calls).accepted,
{
    fifo_order(capacity, calls);
    let end = run(fresh::<T>(), capacity, calls);
    vstd::seq_lib::lemma_multiset_commutative(end.delivered, end.queue);
    assert(end.accepted.subrange(0, end.delivered.len() as int) =~= end.delivered);
    if end.queue.len() == 0 {
        assert(end.delivered + end.queue =~= end.delivered);
    }
}

/// A pop on an empty queue hands out nothing and changes nothing.
pub proof fn pop_on_empty_changes_nothing<T>(trace: Trace<T>, capacity: nat)
    requires
        trace.queue.len() == 0,
    ensures
        front(trace.queue) == None::<T>,
        step(trace, capacity, Call::Pop) == trace,
{
}

/// A queue of capacity `capacity` accepts that many pushes in a row; then it
/// is full and refuses the next push unchanged; and after one pop it
/// accepts a push again.
pub proof fn fills_then_refuses<T>(capacity: nat, items: Seq<T>, extra: T)
    requires
        capacity >= 1,
        items.len() == capacity,
    ensures
        run(fresh(), capacity, pushes(items)).queue == items,
        run(fresh(), capacity, pushes(items)).accepted == items,
        !has_room(items, capacity),
        after_push(items, capacity, extra) == items,
        has_room(after_pop(items), capacity),
        after_push(after_pop(items), capacity, extra) == items.subrange(1, items.len() as int).push(
            extra,
        ),
{
    lemma_pushes_within_capacity(capacity, items);
}

/// Pushes that fit are all accepted, in order.
pub proof fn lemma_pushes_within_capacity<T>(capacity: nat, items: Seq<T>)
    requires
        items.len() <= capacity,
    ensures
        run(fresh(), capacity, pushes(items)).queue == items,
        run(fresh(), capacity, pushes(items)).accepted == items,
        run(fresh(), capacity, pushes(items)).delivered == Seq::<T>::empty(),
    decreases items.len(),
{
    let calls = pushes(items);
    if items.len() > 0 {
        let fewer = items.drop_last();
        lemma_pushes_within_capacity(capacity, fewer);
        assert(calls.drop_last() =~= pushes(fewer));
        assert(calls.last() == Call::Push(items.last()));
        assert(fewer.push(items.last()) =~= items);
    } else {
        assert(items =~= Seq::<T>::empty());
    }
}

/// What goes in comes out: an item pushed on an empty queue is the one that
/// the next pop hands out, and the queue is empty again.
pub proof fn round_trip<T>(capacity: nat, item: T)
    requires
        capacity >= 1,
    ensures
        has_room(Seq::<T>::empty(), capacity),
        front(after_push(Seq::<T>::empty(), capacity, item)) == Some(item),
        after_pop(after_push(Seq::<T>::empty(), capacity, item)) == Seq::<T>::empty(),
{
    assert(after_pop(after_push(Seq::<T>::empty(), capacity, item)) =~= Seq::<T>::empty());
}

/// Draining loses nothing. Once no more pushes come, as many pops as there
/// are items enqueued hand out that backlog in order and leave the queue
/// empty, so that the first pop that finds nothing comes only after the
/// last item.
pub proof fn drain_delivers_backlog<T>(start: Trace<T>, capacity: nat)
    ensures
        run(start, capacity, pops(start.queue.len())).delivered == start.delivered + start.queue,
        run(start, capacity, pops(start.queue.len())).queue == Seq::<T>::empty(),
        run(start, capacity, pops(start.queue.len())).accepted == start.accepted,
        front(run(start, capacity, pops(start.queue.len())).queue) == None::<T>,
{
    lemma_pops(start, capacity, start.queue.len());
    let end = run(start, capacity, pops::<T>(start.queue.len()));
    assert(start.queue.subrange(0, start.queue.len() as int) =~= start.queue);
    assert(end.queue =~= Seq::<T>::empty());
}

/// The first `n` pops hand out the `n` oldest items.
pub proof fn lemma_pops<T>(start: Trace<T>, capacity: nat, n: nat)
    requires
        n <= start.queue.len(),
    ensures
        run(start, capacity, pops(n)).delivered == start.delivered + start.queue.subrange(
            0,
            n as int,
        ),
        run(start, capacity, pops(n)).queue == start.queue.subrange(
            n as int,
            start.queue.len() as int,
        ),
        run(start, capacity, pops(n)).accepted == start.accepted,
    decreases n,
{
    let calls = pops::<T>(n);
    let len = start.queue.len() as int;
    if n == 0 {
        assert(start.delivered + start.queue.subrange(0, 0) =~= start.delivered);
        assert(start.queue.subrange(0, len) =~= start.queue);
    } else {
        let fewer = (n - 1) as nat;
        lemma_pops(start, capacity, fewer);
        assert(calls.drop_last() =~= pops::<T>(fewer));
        let before = run(start, capacity, pops::<T>(fewer));
        assert(before.queue[0] == start.queue[n - 1]);
        assert(before.delivered.push(start.queue[n - 1]) =~= start.delivered
            + start.queue.subrange(0, n as int));
        assert(before.queue.subrange(1, before.queue.len() as int) =~= start.queue.subrange(
            n as int,
            len,
        ));
    }
}

} // verus!
