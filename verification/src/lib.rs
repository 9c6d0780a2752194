//! Conway's Game of Life on a bounded rectangular grid whose cells are packed
//! into a bit set.
//!
//! The grid has hard edges: a position beyond the first or last row or column
//! holds no cell and counts as dead when neighbours are counted.

pub mod bitset;
pub mod grid;
pub mod laws;
pub mod universe;

pub use grid::Grid;
pub use universe::Universe;
