//! Seed-reproducible two-dimensional gradient noise on an integer lattice.
//!
//! The crate holds the integer core of the noise: a seeded permutation of the
//! byte range, the chained lookup hash over it, and the choice of a gradient
//! for each corner of a lattice cell.

pub mod lattice;
pub mod permutation_table;
pub mod shuffle;
pub mod text;
