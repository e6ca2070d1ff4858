//! A verified Conway's Game of Life engine on a fixed-size toroidal grid.
//!
//! The grid owns a row-major boolean cell buffer and offers one-generation
//! stepping, single-cell mutation, pattern stamping, randomization, clearing
//! and a text rendering. Every operation carries a contract over the
//! mathematical model in [`model`], and the classical behaviours of the
//! automaton (still lifes, oscillators, wraparound) are proved in [`laws`].

pub mod grid;
pub mod laws;
pub mod model;
mod rng;

pub use grid::GridError;
pub use grid::Universe;
pub use model::GridView;
