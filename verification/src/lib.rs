//! Core of a tick-based grid-world simulation: a static terrain grid that
//! gates movement, entities that decide actions against an immutable
//! snapshot of the world, deferred side effects applied in emission order,
//! and removal of dead entities at the end of each tick.
//!
//! Coordinates and health values are fixed-point integers: one world unit
//! is `math::SCALE` stored units.

pub mod grid;
pub mod math;
pub mod sim;

pub use sim::run;
