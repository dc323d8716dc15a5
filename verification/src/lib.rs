//! A toroidal two-dimensional Conway's Game of Life on a dense bit-packed
//! grid: step evolution, cell toggling and seeded-pattern insertion, with the
//! standard B3/S23 rule and wraparound neighbor semantics.

pub mod bitset;
pub mod life;
pub mod universe;
pub mod laws;
