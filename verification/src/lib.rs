//! Core simulation of a side-scrolling avoidance game: a player flies through
//! a field of scrolling obstacles and power-ups, accumulating score until a
//! collision ends the run.
//!
//! The crate verifies the per-frame simulation: physics integration, timed
//! effects with apply/release symmetry, difficulty-scaled obstacle spawning,
//! power-up collection, collision detection, and scoring. Rendering and input
//! live outside the library; the loop driver hands each tick a key event and a
//! random number generator.

pub mod config;
pub mod effects;
pub mod obstacle;
pub mod player;
pub mod powerups;
pub mod rng;
pub mod state;
