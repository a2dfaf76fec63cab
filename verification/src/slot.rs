//! A storage cell whose occupancy its user keeps track of.
//!
//! The cell carries no check of its own: `write` demands a vacant cell and
//! `read` a filled one. A queue that knows from its cursors which slots are
//! live can use it without testing each slot again.

use vstd::prelude::*;

verus! {

/// One slot of storage for a `T`, vacant or filled.
pub struct RawSlot<T> {
    cell: Option<T>,
}

impl<T> View for RawSlot<T> {
    type V = Option<T>;

    /// The item in the cell, if it is filled.
    closed spec fn view(&self) -> Option<T> {
        self.cell
    }
}

impl<T> RawSlot<T> {
    /// Creates a vacant cell.
    pub fn vacant() -> (slot: RawSlot<T>)
        ensures
            slot@ is None,
    {
        RawSlot { cell: None }
    }

    /// Places `item` in the cell. The cell must be vacant: the caller owns
    /// the slot and knows that no live item is in it.
    pub fn write(&mut self, item: T)
        requires
            old(self)@ is None,
        ensures
            final(self)@ == Some(item),
    {
        self.cell = Some(item);
    }

    /// Moves the item out and leaves the cell vacant. The cell must be
    /// filled: the caller owns the slot and knows that an item is in it.
    pub fn read(&mut self) -> (item: T)
        requires
            old(self)@ is Some,
        ensures
            Some(item) == old(self)@,
            final(self)@ is None,
    {
        self.cell.take().unwrap()
    }
}

} // verus!
