//! Alignment and cohesion stages: steer every agent's velocity a
//! fraction of the way toward the flock's average velocity, and toward
//! the flock's average position.

use vstd::prelude::*;
use crate::agent::Agent;
use crate::math::{lemma_scaled_le, scale_i64, scaled};
use crate::params::{SCALE, VEL_STAGE_LIMIT};
use crate::stats::FlockStatistics;
use crate::vec2::Vec2;

verus! {

/// One alignment update: close the fraction `w / SCALE` of the gap from
/// the velocity to the flock's average velocity.
pub open spec fn align_vel(v: Vec2, avg: Vec2, w: int) -> Vec2 {
    Vec2 {
        x: (v.x + scaled(avg.x - v.x, w, SCALE as int)) as i64,
        y: (v.y + scaled(avg.y - v.y, w, SCALE as int)) as i64,
    }
}

/// One cohesion update: pull the velocity by the fraction `c / SCALE` of
/// the offset from the agent's position to the flock's average position.
pub open spec fn cohere_vel(v: Vec2, pos: Vec2, avg_pos: Vec2, c: int) -> Vec2 {
    Vec2 {
        x: (v.x + scaled(avg_pos.x - pos.x, c, SCALE as int)) as i64,
        y: (v.y + scaled(avg_pos.y - pos.y, c, SCALE as int)) as i64,
    }
}

pub open spec fn spec_align_stage(s: Seq<Agent>, st: FlockStatistics, w: int) -> Seq<Agent> {
    Seq::new(
        s.len(),
        |i: int| Agent { position: s[i].position, velocity: align_vel(s[i].velocity, st.avg_velocity, w) },
    )
}

pub open spec fn spec_cohere_stage(s: Seq<Agent>, st: FlockStatistics, c: int) -> Seq<Agent> {
    Seq::new(
        s.len(),
        |i: int|
            Agent {
                position: s[i].position,
                velocity: cohere_vel(s[i].velocity, s[i].position, st.avg_position, c),
            },
    )
}

/// Moving a value a truncated fraction of the way toward a goal lands
/// between the value and the goal.
pub proof fn lemma_frac_between(x: int, g: int, w: int, den: int)
    requires
        0 <= w <= den,
        0 < den,
    ensures
        x <= g ==> x <= x + scaled(g - x, w, den) <= g,
        g <= x ==> g <= x + scaled(g - x, w, den) <= x,
{
    let d = g - x;
    lemma_frac_offset_bound(d, w, den);
}

/// A truncated scaled offset has magnitude at most the offset's.
pub proof fn lemma_frac_offset_bound(d: int, w: int, den: int)
    requires
        0 <= w <= den,
        0 < den,
    ensures
        d >= 0 ==> 0 <= scaled(d, w, den) <= d,
        d < 0 ==> d <= scaled(d, w, den) <= 0,
{
    if d >= 0 {
        lemma_scaled_le(w, d, den);
        assert(w * d == d * w) by (nonlinear_arith);
        assert(d * w >= 0) by (nonlinear_arith)
            requires
                0 <= d,
                0 <= w,
        ;
    } else {
        lemma_scaled_le(w, -d, den);
        assert(w * (-d) == (-d) * w) by (nonlinear_arith);
        assert((-d) * w == -(d * w)) by (nonlinear_arith);
        assert(d * w <= 0) by (nonlinear_arith)
            requires
                d < 0,
                0 <= w,
        ;
    }
}

/// Alignment cannot leave the componentwise band that holds both the
/// velocity and the average velocity.
pub proof fn lemma_align_vel_within(v: Vec2, avg: Vec2, w: int, b: int)
    requires
        0 <= w <= SCALE,
        0 <= b,
        v.within(b),
        avg.within(b),
    ensures
        align_vel(v, avg, w).within(b),
{
    lemma_frac_between(v.x as int, avg.x as int, w, SCALE as int);
    lemma_frac_between(v.y as int, avg.y as int, w, SCALE as int);
}

/// Cohesion grows a velocity component by at most the position offset.
pub proof fn lemma_cohere_vel_within(v: Vec2, pos: Vec2, avg_pos: Vec2, c: int, b: int, bp: int)
    requires
        0 <= c <= SCALE,
        0 <= b,
        0 <= bp,
        v.within(b),
        pos.within(bp),
        avg_pos.within(bp),
    ensures
        cohere_vel(v, pos, avg_pos, c).within(b + 2 * bp),
{
    lemma_frac_offset_bound(avg_pos.x - pos.x, c, SCALE as int);
    lemma_frac_offset_bound(avg_pos.y - pos.y, c, SCALE as int);
}

/// Alignment stage: `velocity += (avg_velocity - velocity) * w / SCALE`
/// for every agent, all against the same tick statistics.
pub fn alignment_stage(agents: &mut Vec<Agent>, st: &FlockStatistics, matching_factor: i64)
    requires
        0 <= matching_factor <= SCALE,
        forall|i: int|
            0 <= i < old(agents)@.len() ==> (#[trigger] old(agents)@[i]).velocity.within(
                VEL_STAGE_LIMIT as int,
            ),
        st.avg_velocity.within(VEL_STAGE_LIMIT as int),
    ensures
        final(agents)@ == spec_align_stage(old(agents)@, *st, matching_factor as int),
{
    let n = agents.len();
    let mut i: usize = 0;
    while i < n
        invariant
            n == agents@.len() == old(agents)@.len(),
            0 <= i <= n,
            0 <= matching_factor <= SCALE,
            st.avg_velocity.within(VEL_STAGE_LIMIT as int),
            forall|k: int|
                0 <= k < n ==> (#[trigger] old(agents)@[k]).velocity.within(
                    VEL_STAGE_LIMIT as int,
                ),
            forall|k: int|
                i <= k < n ==> #[trigger] agents@[k] == old(agents)@[k],
            forall|k: int|
                0 <= k < i ==> #[trigger] agents@[k] == (Agent {
                    position: old(agents)@[k].position,
                    velocity: align_vel(
                        old(agents)@[k].velocity,
                        st.avg_velocity,
                        matching_factor as int,
                    ),
                }),
        decreases n - i,
    {
        let a = agents[i];
        let dx = st.avg_velocity.x - a.velocity.x;
        let dy = st.avg_velocity.y - a.velocity.y;
        let cx = scale_i64(dx, matching_factor, SCALE);
        let cy = scale_i64(dy, matching_factor, SCALE);
        let nv = Vec2 { x: a.velocity.x + cx, y: a.velocity.y + cy };
        agents[i] = Agent { position: a.position, velocity: nv };
        i = i + 1;
    }
    proof {
        assert(agents@ =~= spec_align_stage(old(agents)@, *st, matching_factor as int));
    }
}

/// Cohesion stage: `velocity += (avg_position - position) * c / SCALE`
/// for every agent, all against the same tick statistics.
pub fn cohesion_stage(agents: &mut Vec<Agent>, st: &FlockStatistics, centering_factor: i64)
    requires
        0 <= centering_factor <= SCALE,
        forall|i: int|
            0 <= i < old(agents)@.len() ==> (#[trigger] old(agents)@[i]).velocity.within(
                VEL_STAGE_LIMIT as int,
            ),
        forall|i: int|
            0 <= i < old(agents)@.len() ==> (#[trigger] old(agents)@[i]).position.within(
                crate::params::COORD_LIMIT as int,
            ),
        st.avg_position.within(crate::params::COORD_LIMIT as int),
    ensures
        final(agents)@ == spec_cohere_stage(old(agents)@, *st, centering_factor as int),
{
    let n = agents.len();
    let mut i: usize = 0;
    while i < n
        invariant
            n == agents@.len() == old(agents)@.len(),
            0 <= i <= n,
            0 <= centering_factor <= SCALE,
            st.avg_position.within(crate::params::COORD_LIMIT as int),
            forall|k: int|
                0 <= k < n ==> (#[trigger] old(agents)@[k]).velocity.within(
                    VEL_STAGE_LIMIT as int,
                ),
            forall|k: int|
                0 <= k < n ==> (#[trigger] old(agents)@[k]).position.within(
                    crate::params::COORD_LIMIT as int,
                ),
            forall|k: int|
                i <= k < n ==> #[trigger] agents@[k] == old(agents)@[k],
            forall|k: int|
                0 <= k < i ==> #[trigger] agents@[k] == (Agent {
                    position: old(agents)@[k].position,
                    velocity: cohere_vel(
                        old(agents)@[k].velocity,
                        old(agents)@[k].position,
                        st.avg_position,
                        centering_factor as int,
                    ),
                }),
        decreases n - i,
    {
        let a = agents[i];
        let dx = st.avg_position.x - a.position.x;
        let dy = st.avg_position.y - a.position.y;
        let cx = scale_i64(dx, centering_factor, SCALE);
        let cy = scale_i64(dy, centering_factor, SCALE);
        proof {
            lemma_frac_offset_bound(dx as int, centering_factor as int, SCALE as int);
            lemma_frac_offset_bound(dy as int, centering_factor as int, SCALE as int);
        }
        let nv = Vec2 { x: a.velocity.x + cx, y: a.velocity.y + cy };
        agents[i] = Agent { position: a.position, velocity: nv };
        i = i + 1;
    }
    proof {
        assert(agents@ =~= spec_cohere_stage(old(agents)@, *st, centering_factor as int));
    }
}

} // verus!
