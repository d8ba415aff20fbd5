//! Conway's Game of Life on a toroidal grid whose cells are kept in a packed bit set.

pub mod bitset;
pub mod grid;
pub mod rules;
pub mod universe;

pub use universe::{Cell, Universe};
