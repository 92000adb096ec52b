//! The unit of simulation: an agent with a position and a velocity.

use vstd::prelude::*;
use crate::params::{COORD_LIMIT, MAX_AGENTS, VEL_LIMIT};
use crate::vec2::Vec2;

verus! {

/// One member of the flock. Identity is positional in the agent
/// collection; agents are never created or destroyed by the core.
#[derive(Clone, Copy, Debug, PartialEq, Eq, Structural)]
pub struct Agent {
    /// Authoritative world-space location; mutated only by integration.
    pub position: Vec2,
    /// Current heading and speed; mutated by every steering stage.
    pub velocity: Vec2,
}

impl Agent {
    /// The coordinate ranges in which a tick is proved free of overflow.
    pub open spec fn well_formed(self) -> bool {
        &&& self.position.within(COORD_LIMIT as int)
        &&& self.velocity.within(VEL_LIMIT as int)
    }
}

/// A population the pipeline accepts: bounded size, bounded coordinates.
pub open spec fn population_ok(s: Seq<Agent>) -> bool {
    &&& s.len() <= MAX_AGENTS
    &&& forall|i: int| 0 <= i < s.len() ==> #[trigger] s[i].well_formed()
}

} // verus!
