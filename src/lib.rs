//! A verified kernel for a small arcade simulation: a ship, drifting
//! asteroids and missiles, driven by a coarse phase state machine and an
//! ordered per-tick pipeline.
//!
//! All quantities are integers. Lengths are in micro-units (a million per
//! world unit), time is in milliseconds, velocities in micro-units per
//! millisecond and accelerations in micro-units per square millisecond.
mod rng;

pub mod geometry;
pub mod health;
pub mod score;
pub mod timer;
pub mod phase;
pub mod world;
pub mod movement;
pub mod collision;
pub mod resolve;
pub mod despawn;
pub mod spawner;
pub mod spaceship;
pub mod schedule;
