//! A verified boids (flocking) simulation core.
//!
//! A population of agents moves on a 2D plane; each tick adjusts every
//! agent's velocity through an ordered pipeline of stages (avoidance,
//! flock statistics, alignment, cohesion, boundary handling, speed
//! limiting) and then advances positions by one step of integration.
//!
//! Coordinates and speeds are fixed-point values held in `i64`; the
//! steering weights are fractions with denominator [`params::SCALE`].
//! Callers pick the physical meaning of one unit.

pub mod agent;
pub mod avoidance;
pub mod boundary;
pub mod limit;
pub mod math;
pub mod params;
pub mod stats;
pub mod steering;
pub mod tick;
pub mod vec2;
