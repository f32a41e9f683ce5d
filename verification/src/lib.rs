//! Conway's Game of Life on a fixed rectangular grid, with wrapped or clipped
//! borders.
//!
//! [`Grid`] is the grid as mathematics sees it: the rule, the neighbourhoods
//! and the theorems are stated of it. [`GameMap`] is the grid that runs; each
//! of its operations is proved to do to its view what is said of the `Grid`.

pub mod counting;
pub mod game_map;
pub mod grid;
pub mod patterns;
mod random;
pub mod render;
pub mod seeding;

pub use game_map::{GameMap, GridError};
pub use grid::{BorderPolicy, Grid};
