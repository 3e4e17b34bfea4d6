//! Allocator-aware containers over a pluggable allocation capability.
//!
//! Memory blocks are described by plain values (an address and a length), so
//! that every allocator and container operation can carry an exact contract.
//! The containers take their blocks from an allocator, which decides their
//! capacity and whether they may grow; the elements themselves are kept in a
//! `Vec` beside the block.

pub mod layout;
pub mod allocator;
pub mod raw_array;
pub mod array;
pub mod multi_array;
pub mod string;
pub mod url;
pub mod unstable;
