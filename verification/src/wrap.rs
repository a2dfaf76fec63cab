//! Cursors that run past the end of the machine word.
//!
//! A cursor of the turn-based queue is advanced with wrapping arithmetic. On
//! a ring whose number of slots is a power of two this is harmless: the
//! number of values of a word is a whole number of laps, so a cursor and its
//! wrapped value always name the same slot.

use vstd::prelude::*;
use vstd::arithmetic::power2::{
    is_pow2, is_pow2_equiv, lemma_pow2_adds, lemma_pow2_pos, lemma_pow2_strictly_increases,
    lemma_pow2_unfold, pow2,
};
use vstd::arithmetic::div_mod::lemma_mod_multiples_vanish;
use vstd::bits::{lemma_usize_low_bits_mask_is_mod, low_bits_mask};
use crate::ring::slot;

verus! {

/// The number of values that a cursor can take.
pub open spec fn word() -> int {
    usize::MAX + 1
}

/// The value that a cursor takes for a position less than two words long.
pub open spec fn fold(position: int) -> int {
    if position >= word() {
        position - word()
    } else {
        position
    }
}

/// The exponent of a power of two that fits in a word is below the word's
/// number of bits.
proof fn lemma_exponent_fits(capacity: usize) -> (e: nat)
    requires
        is_pow2(capacity as int),
    ensures
        pow2(e) == capacity,
        e < usize::BITS,
        word() == pow2(usize::BITS as nat),
{
    is_pow2_equiv(capacity as int);
    let e = choose|i: nat| vstd::arithmetic::power::pow(2, i) == capacity as int;
    vstd::layout::unsigned_int_max_values();
    if e >= usize::BITS {
        if e > usize::BITS {
            lemma_pow2_strictly_increases(usize::BITS as nat, e);
        }
    }
    e
}

/// A word holds a whole number of laps of a ring of `capacity` slots, and at
/// least two of them.
pub proof fn lemma_word_is_laps(capacity: usize) -> (laps: int)
    requires
        is_pow2(capacity as int),
    ensures
        word() == capacity * laps,
        laps >= 2,
        capacity >= 1,
{
    let e = lemma_exponent_fits(capacity);
    let rest = (usize::BITS - e) as nat;
    lemma_pow2_adds(e, rest);
    lemma_pow2_unfold(rest);
    lemma_pow2_pos((rest - 1) as nat);
    lemma_pow2_pos(e);
    pow2(rest) as int
}

/// Masking a cursor with `capacity - 1` picks its slot.
pub proof fn lemma_mask_is_slot(cursor: usize, capacity: usize)
    requires
        is_pow2(capacity as int),
    ensures
        capacity >= 1,
        (cursor & ((capacity - 1) as usize)) == slot(cursor as int, capacity as int),
{
    let e = lemma_exponent_fits(capacity);
    lemma_pow2_pos(e);
    lemma_usize_low_bits_mask_is_mod(cursor, e);
    assert(low_bits_mask(e) == capacity - 1);
}

/// A position and the same position one word earlier or later share a slot.
pub proof fn lemma_slot_ignores_word(position: int, capacity: usize)
    requires
        is_pow2(capacity as int),
    ensures
        slot(position + word(), capacity as int) == slot(position, capacity as int),
        slot(position - word(), capacity as int) == slot(position, capacity as int),
        slot(fold(position), capacity as int) == slot(position, capacity as int),
{
    let laps = lemma_word_is_laps(capacity);
    lemma_mod_multiples_vanish(laps, position, capacity as int);
    lemma_mod_multiples_vanish(-laps, position, capacity as int);
    assert(capacity * laps + position == position + word());
    assert(capacity * (-laps) + position == position - word()) by (nonlinear_arith)
        requires
            word() == capacity * laps,
    ;
}

} // verus!
