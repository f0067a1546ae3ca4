//! A discrete-time falling-snow simulation on a bounded 2D grid: flakes
//! spawn at the top edge, drift down with random fall delays, and pile up
//! with height-balancing tie-breaks. The per-tick update rules live in
//! `engine`, the cell model and glyphs in `cell`, the random draws behind
//! the `rng::RandomSource` trait, and the proved simulation laws in
//! `laws`.

pub mod cell;
pub mod engine;
pub mod laws;
pub mod rng;
