//! Cursors that sit alone on a cache line.
//!
//! Two counters that different sides update must not share a cache line, or
//! every update by one side evicts the other side's copy. A cursor is
//! therefore kept in a block padded and aligned to the length of a cache
//! line; the block comes from `crossbeam`.

use vstd::prelude::*;
use crossbeam::utils::CachePadded;

verus! {

#[verifier::external_type_specification]
#[verifier::external_body]
#[verifier::reject_recursive_types(T)]
pub struct ExCachePadded<T>(crossbeam::utils::CachePadded<T>);

/// The counter that a padded block holds.
pub uninterp spec fn padded_value(block: CachePadded<usize>) -> usize;

/// Calls `CachePadded::new`, which stores its argument in a fresh block:
/// the block holds `value`.
#[verifier::external_body]
pub(crate) fn padded(value: usize) -> (block: CachePadded<usize>)
    ensures
        padded_value(block) == value,
{
    CachePadded::new(value)
}

/// Reads through `CachePadded`'s `Deref`, which borrows the stored value:
/// the result is the counter that the block holds.
#[verifier::external_body]
pub(crate) fn load(block: &CachePadded<usize>) -> (value: usize)
    ensures
        value == padded_value(*block),
{
    **block
}

/// Writes through `CachePadded`'s `DerefMut`, which borrows the stored value
/// mutably: afterwards the block holds `value`.
#[verifier::external_body]
pub(crate) fn store(block: &mut CachePadded<usize>, value: usize)
    ensures
        padded_value(*final(block)) == value,
{
    **block = value;
}

/// Replaces the counter by `new` if it is `current`, and hands back the
/// counter found: in `Ok` when it was replaced, in `Err` when it was not.
pub(crate) fn compare_exchange(
    block: &mut CachePadded<usize>,
    current: usize,
    new: usize,
) -> (found: Result<usize, usize>)
    ensures
        found is Ok <==> padded_value(*old(block)) == current,
        found is Ok ==> found == Ok::<usize, usize>(current) && padded_value(*final(block)) == new,
        found is Err ==> found == Err::<usize, usize>(padded_value(*old(block))) && *final(block)
            == *old(block),
{
    let seen = load(block);
    if seen == current {
        store(block, new);
        Ok(seen)
    } else {
        Err(seen)
    }
}

} // verus!
