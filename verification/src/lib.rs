//! Bounded FIFO queues built on a fixed ring of slots.
//!
//! Every queue in this crate keeps its items in a ring of `capacity` slots and
//! tracks progress with monotone cursors. The variants differ in how the two
//! sides agree on which slots are occupied:
//!
//! - [`fifo1`]: one owner behind a lock, plain cursors;
//! - [`fifo2`]: one cursor per side, each side advancing only its own;
//! - [`fifo3`]: the same, each cursor on a cache line of its own;
//! - [`fifo4`]: each side also caches the other side's cursor;
//! - [`fifo5`]: the same over slots that carry no occupancy flag;
//! - [`fifo6a`]: a turn per slot, claimed by compare-and-swap, for several
//!   producers and consumers.
//!
//! The calls of every variant take the queue by `&mut`: what is proved is
//! what each protocol does for the side that holds the queue. All variants
//! are proved to behave as the same bounded queue, described in [`bounded`];
//! [`ring`] and [`wrap`] hold the arithmetic of slots and cursors.

pub mod bounded;
pub mod ring;
pub mod wrap;
pub mod padded;
pub mod slot;
pub mod fifo1;
pub mod fifo2;
pub mod fifo3;
pub mod fifo4;
pub mod fifo5;
pub mod fifo6a;
