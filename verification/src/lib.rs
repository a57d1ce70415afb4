//! Conway's Game of Life on a fixed-size rectangular grid.
//!
//! The crate holds the cellular-automaton engine: the grid of cells, the
//! neighbor-counting rule, the generation-transition function `step`, and
//! randomized seeding of an initial population. Rendering and input belong
//! to the surrounding program, which drives the engine through these
//! entry points.

pub mod grid;
pub mod seed;
pub mod sim;
