//! Tunable simulation parameters, the viewport, and the fixed-point limits
//! under which every stage of the pipeline is proved free of overflow.

use vstd::prelude::*;

verus! {

/// Denominator of the fractional steering weights: a weight of `SCALE`
/// means 1.0, i.e. an instant snap to the target of the steering rule.
pub const SCALE: i64 = 1_000_000;

/// Largest admitted magnitude of a position component.
pub const COORD_LIMIT: i64 = 1_000_000_000_000;

/// Largest admitted magnitude of an incoming velocity component.
pub const VEL_LIMIT: i64 = 1_000_000_000_000;

/// Largest admitted speed bound (`max_speed`).
pub const SPEED_LIMIT: i64 = 1_000_000_000;

/// Largest admitted avoidance strength (`avoid_factor`).
pub const FACTOR_LIMIT: i64 = 1_000_000_000;

/// Largest admitted neighbor radius.
pub const RADIUS_LIMIT: i64 = 1_000_000_000_000;

/// Largest admitted viewport dimension.
pub const DIM_LIMIT: i64 = 4_000_000_000_000;

/// Largest admitted number of agents in one population.
pub const MAX_AGENTS: usize = 10_000;

/// Headroom bound every intermediate velocity of a tick stays under:
/// steering can grow a velocity before the speed-limiting stage clamps
/// it again, and each stage's contract keeps components below this.
pub const VEL_STAGE_LIMIT: i64 = 100_000_000_000_000;

/// The tunable weights of the steering stages, owned externally and read
/// once per tick; the core never mutates them.
pub struct SimulationParameters {
    /// Strength of the pairwise repulsion, in speed units.
    pub avoid_factor: i64,
    /// Alignment weight: fraction of the gap to the flock's average
    /// velocity closed per tick, scaled by [`SCALE`].
    pub matching_factor: i64,
    /// Cohesion weight: fraction of the gap to the flock's average
    /// position closed per tick, scaled by [`SCALE`].
    pub centering_factor: i64,
    /// Distance threshold below which avoidance applies.
    pub neighbor_radius: i64,
    /// Lower clamp bound of the speed-limiting stage.
    pub min_speed: i64,
    /// Upper clamp bound of the speed-limiting stage.
    pub max_speed: i64,
    /// Buffer distance from the viewport edge used by the boundary stage.
    pub margin: i64,
}

impl SimulationParameters {
    /// The ranges in which every stage is proved to be well defined:
    /// nonnegative weights, fractional weights at most 1.0, and
    /// `0 < min_speed <= max_speed`.
    pub open spec fn valid(self) -> bool {
        &&& 0 <= self.avoid_factor <= FACTOR_LIMIT
        &&& 0 <= self.matching_factor <= SCALE
        &&& 0 <= self.centering_factor <= SCALE
        &&& 0 <= self.neighbor_radius <= RADIUS_LIMIT
        &&& 0 < self.min_speed <= self.max_speed
        &&& self.max_speed <= SPEED_LIMIT
        &&& 0 <= self.margin <= COORD_LIMIT
    }
}

/// The centered rectangle agents live in: `[-width/2, width/2]` by
/// `[-height/2, height/2]`. Owned externally and read once per tick.
pub struct Viewport {
    pub width: i64,
    pub height: i64,
}

impl Viewport {
    pub open spec fn valid(self) -> bool {
        &&& 0 < self.width <= DIM_LIMIT
        &&& 0 < self.height <= DIM_LIMIT
    }
}

} // verus!
