//! Simulation core of a small arcade shooter.
//!
//! A player slides along one axis, a formation of enemies sweeps from side to
//! side and turns around at the edges of the playfield, the player fires
//! bullets that fly forward, and bullets that touch an enemy or the player are
//! resolved into removals and lost health.
//!
//! All coordinates are fixed-point integers: one world unit is
//! [`config::SCALE`] coordinate units, and elapsed time is given in
//! microseconds, so that a speed of `n` world units per second moves an entity
//! by `n` coordinate units per microsecond.

pub mod config;
pub mod geometry;
pub mod entity;
pub mod input;
pub mod store;
pub mod collision;
pub mod movement;
pub mod spawning;
pub mod lifecycle;
pub mod setup;
pub mod frame;
