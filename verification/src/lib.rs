//! Simulation core of a grid-based snake game.
//!
//! The library owns the authoritative game state (snake body, apple position,
//! score) and the per-tick update rule that advances that state in response to
//! a single directional input.  Rendering, input polling and frame pacing are
//! external consumers of the read-only snapshot this crate exposes.

pub mod game;
pub mod geometry;
pub mod laws;
pub mod rng;
