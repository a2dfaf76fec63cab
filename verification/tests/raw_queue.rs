use ring_fifo::fifo5::Fifo5;
use std::cell::Cell;
use std::collections::VecDeque;
use std::rc::Rc;

/// An item that counts how many of its kind were destroyed.
struct RawCounted {
    hits: Rc<Cell<usize>>,
}

impl Drop for RawCounted {
    fn drop(&mut self) {
        self.hits.set(self.hits.get() + 1);
    }
}

#[derive(Debug, Clone, PartialEq)]
struct RawRecord {
    id: u32,
    name: String,
    tags: Vec<u8>,
}

#[test]
fn raw_new_queue_is_empty() {
    let mut q: Fifo5<u32> = Fifo5::new(2);
    assert_eq!(q.pop(), None);
    assert_eq!(q.pop(), None);
}

#[test]
fn raw_keeps_push_order() {
    let mut q: Fifo5<u32> = Fifo5::new(8);
    assert!(q.push(10));
    assert!(q.push(20));
    assert!(q.push(30));
    assert_eq!(q.pop(), Some(10));
    assert_eq!(q.pop(), Some(20));
    assert_eq!(q.pop(), Some(30));
    assert_eq!(q.pop(), None);
}

#[test]
fn raw_full_queue_refuses_then_accepts_after_one_pop() {
    for capacity in [1usize, 2usize, 3usize, 5usize, 8usize] {
        let mut q: Fifo5<usize> = Fifo5::new(capacity);
        for i in 0..capacity {
            assert!(q.push(i), "push {} of {}", i, capacity);
        }
        assert!(!q.push(1000));
        assert!(!q.push(1001));
        assert_eq!(q.pop(), Some(0));
        assert!(q.push(2000));
        assert!(!q.push(2001));
        for i in 1..capacity {
            assert_eq!(q.pop(), Some(i));
        }
        assert_eq!(q.pop(), Some(2000));
        assert_eq!(q.pop(), None);
    }
}

#[test]
fn raw_pop_on_empty_leaves_queue_usable() {
    let mut q: Fifo5<u8> = Fifo5::new(2);
    for _ in 0..10 {
        assert_eq!(q.pop(), None);
    }
    assert!(q.push(7));
    assert_eq!(q.pop(), Some(7));
    assert_eq!(q.pop(), None);
}

#[test]
fn raw_runs_many_laps() {
    let mut q: Fifo5<u64> = Fifo5::new(7);
    let mut next_in: u64 = 0;
    let mut next_out: u64 = 0;
    assert!(q.push(next_in));
    next_in += 1;
    for _ in 0..5000 {
        assert!(q.push(next_in));
        next_in += 1;
        assert_eq!(q.pop(), Some(next_out));
        next_out += 1;
    }
    assert_eq!(q.pop(), Some(next_out));
    assert_eq!(q.pop(), None);
}

#[test]
fn raw_interleaved_calls_match_a_reference_queue() {
    for capacity in [1usize, 2usize, 3usize, 5usize, 8usize] {
        let mut q: Fifo5<u64> = Fifo5::new(capacity);
        let mut reference: VecDeque<u64> = VecDeque::new();
        let mut state: u64 = 0x9E37_79B9_7F4A_7C15 ^ (capacity as u64);
        let mut delivered: Vec<u64> = Vec::new();
        let mut accepted: Vec<u64> = Vec::new();
        for round in 0..20_000u64 {
            state = state.wrapping_mul(6364136223846793005).wrapping_add(1442695040888963407);
            let bits = state >> 60;
            if bits < 9 {
                let took = q.push(round);
                assert_eq!(took, reference.len() < capacity);
                if took {
                    reference.push_back(round);
                    accepted.push(round);
                }
            } else {
                let got = q.pop();
                assert_eq!(got, reference.pop_front());
                if let Some(v) = got {
                    delivered.push(v);
                }
            }
        }
        while let Some(v) = q.pop() {
            delivered.push(v);
        }
        assert_eq!(delivered, accepted);
    }
}

#[test]
fn raw_round_trips_any_item() {
    let mut names: Fifo5<String> = Fifo5::new(2);
    assert!(names.push(String::from("alpha")));
    assert_eq!(names.pop(), Some(String::from("alpha")));

    let record = RawRecord { id: 7, name: String::from("seven"), tags: vec![1, 2, 3] };
    let mut records: Fifo5<RawRecord> = Fifo5::new(2);
    assert!(records.push(record.clone()));
    assert_eq!(records.pop(), Some(record));
    assert_eq!(records.pop(), None);

    let mut nested: Fifo5<Option<Vec<i64>>> = Fifo5::new(2);
    assert!(nested.push(None));
    assert!(nested.push(Some(vec![-1, 0, 1])));
    assert_eq!(nested.pop(), Some(None));
    assert_eq!(nested.pop(), Some(Some(vec![-1, 0, 1])));
}

#[test]
fn raw_refused_item_is_not_stored() {
    let mut q: Fifo5<&str> = Fifo5::new(2);
    assert!(q.push("a"));
    assert!(q.push("b"));
    assert!(!q.push("c"));
    assert_eq!(q.pop(), Some("a"));
    assert_eq!(q.pop(), Some("b"));
    assert_eq!(q.pop(), None);
}

#[test]
fn raw_destroys_exactly_what_is_left() {
    for left in 0..=8usize {
        let hits = Rc::new(Cell::new(0usize));
        {
            let mut q: Fifo5<RawCounted> = Fifo5::new(8);
            for _ in 0..left {
                assert!(q.push(RawCounted { hits: hits.clone() }));
            }
            assert_eq!(hits.get(), 0);
        }
        assert_eq!(hits.get(), left);
    }
}

#[test]
fn raw_destroys_each_item_once_across_laps() {
    let hits = Rc::new(Cell::new(0usize));
    {
        let mut q: Fifo5<RawCounted> = Fifo5::new(2);
        for _ in 0..9 {
            assert!(q.push(RawCounted { hits: hits.clone() }));
            let item = q.pop();
            assert!(item.is_some());
            assert_eq!(hits.get() % 2, 0);
            drop(item);
            assert!(q.push(RawCounted { hits: hits.clone() }));
            drop(q.pop());
        }
        assert_eq!(hits.get(), 18);
        assert!(q.push(RawCounted { hits: hits.clone() }));
        assert!(q.push(RawCounted { hits: hits.clone() }));
        let refused = RawCounted { hits: hits.clone() };
        assert!(!q.push(refused));
        assert_eq!(hits.get(), 19);
    }
    assert_eq!(hits.get(), 21);
}

#[test]
fn raw_stale_copies_never_grant_room_or_data() {
    let mut q: Fifo5<String> = Fifo5::new(2);
    assert!(q.push(String::from("a")));
    assert!(q.push(String::from("b")));
    assert!(!q.push(String::from("c")));
    assert_eq!(q.pop(), Some(String::from("a")));
    assert!(q.push(String::from("d")));
    assert!(!q.push(String::from("e")));
    assert_eq!(q.pop(), Some(String::from("b")));
    assert_eq!(q.pop(), Some(String::from("d")));
    assert_eq!(q.pop(), None);
    assert!(q.push(String::from("f")));
    assert_eq!(q.pop(), Some(String::from("f")));
    assert_eq!(q.pop(), None);
}

#[test]
fn raw_destroys_only_items_between_the_cursors() {
    let hits = Rc::new(Cell::new(0usize));
    {
        let mut q: Fifo5<RawCounted> = Fifo5::new(4);
        for _ in 0..4 {
            assert!(q.push(RawCounted { hits: hits.clone() }));
        }
        let first = q.pop();
        let second = q.pop();
        assert!(first.is_some() && second.is_some());
        assert_eq!(hits.get(), 0);
        drop(first);
        drop(second);
        assert_eq!(hits.get(), 2);
        assert!(q.push(RawCounted { hits: hits.clone() }));
        assert_eq!(hits.get(), 2);
    }
    assert_eq!(hits.get(), 5);
}
