//! Conway's Game of Life on a bordered (non-wrapping) rectangular grid.
//!
//! The library holds the cellular-automaton core: the grid of boolean
//! cells, neighbor collection at borders, corners and in the interior,
//! random seeding, and the birth/survival rule applied once per tick.
//! Rendering and input handling are left to the embedding program.

pub mod grid;
mod rng;
pub mod rule;
