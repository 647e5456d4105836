//! A terminal fire animation engine: a cellular-automaton heat field
//! simulated at a fixed physics rate, rendered as color-coded glyphs with
//! escape-sequence coalescing, and paced by a fixed-timestep scheduler.

pub mod control;
pub mod field;
pub mod render;
pub mod rng;
pub mod sched;
pub mod theme;
