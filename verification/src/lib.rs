//! An array-backed sequential list over a fixed-capacity slot buffer.
//!
//! The buffer ([`array::Array`]) is a block of slots, each either empty or
//! holding a value, touched only through a replace-and-return-previous
//! primitive. The list ([`array::ArrayStack`]) keeps its first `n` slots
//! occupied, shifts elements with a single in-flight carry on insert and
//! delete, and doubles or halves the buffer as the load demands.
//! [`traits`] holds the behavioural interfaces the list satisfies.

pub mod array;
pub mod laws;
pub mod traits;
