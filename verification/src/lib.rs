//! Core simulation engine for a terminal endless-runner mini-game: integer
//! parabolic jump arcs, bitmask key state, a replayable pseudo-random input
//! stream backed by a ring buffer, a bit-plane sprite engine with clipped
//! compositing and pixel-exact collision, and the per-tick game state machine
//! that composes them.

pub mod math;
pub mod assets;
pub mod image;
pub mod input;
pub mod motion;
pub mod rng;
pub mod solution;
pub mod trex;
