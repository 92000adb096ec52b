//! The per-tick pipeline: avoidance, flock statistics, alignment,
//! cohesion, boundary handling, speed limiting, and integration, each
//! stage completing over the whole population before the next begins.

use vstd::prelude::*;
use crate::agent::{population_ok, Agent};
use crate::avoidance::{avoidance_stage, spec_avoid_stage, AVOID_VEL_LIMIT};
use crate::boundary::{abs_val, boundary_stage, spec_bounce_stage};
use crate::limit::{limit_velocity, spec_limit};
use crate::params::{SimulationParameters, Viewport, COORD_LIMIT, SPEED_LIMIT, VEL_STAGE_LIMIT};
use crate::stats::{compute_statistics, lemma_statistics_bound, spec_statistics};
use crate::steering::{alignment_stage, cohesion_stage, lemma_align_vel_within, lemma_cohere_vel_within, spec_align_stage, spec_cohere_stage};
use crate::vec2::Vec2;

verus! {

pub open spec fn spec_limit_stage(s: Seq<Agent>, min_speed: int, max_speed: int) -> Seq<Agent> {
    Seq::new(
        s.len(),
        |i: int|
            Agent {
                position: s[i].position,
                velocity: spec_limit(s[i].velocity, min_speed, max_speed),
            },
    )
}

pub open spec fn spec_integrate_stage(s: Seq<Agent>) -> Seq<Agent> {
    Seq::new(
        s.len(),
        |i: int|
            Agent {
                position: Vec2 {
                    x: (s[i].position.x + s[i].velocity.x) as i64,
                    y: (s[i].position.y + s[i].velocity.y) as i64,
                },
                velocity: s[i].velocity,
            },
    )
}

/// One full tick over a population snapshot: the six velocity stages in
/// order, then integration. Statistics are taken once, after avoidance,
/// and read by both steering stages.
pub open spec fn spec_run_tick(s: Seq<Agent>, p: SimulationParameters, vp: Viewport) -> Seq<
    Agent,
> {
    let s1 = spec_avoid_stage(s, p.neighbor_radius as int, p.avoid_factor as int);
    let st = spec_statistics(s1);
    let s2 = spec_align_stage(s1, st, p.matching_factor as int);
    let s3 = spec_cohere_stage(s2, st, p.centering_factor as int);
    let s4 = spec_bounce_stage(s3, vp, p.margin as int);
    let s5 = spec_limit_stage(s4, p.min_speed as int, p.max_speed as int);
    spec_integrate_stage(s5)
}

/// Speed-limiting stage: clamp every agent's velocity into the band.
pub fn speed_limit_stage(agents: &mut Vec<Agent>, min_speed: i64, max_speed: i64)
    requires
        0 < min_speed <= max_speed,
        max_speed <= SPEED_LIMIT,
        forall|i: int|
            0 <= i < old(agents)@.len() ==> (#[trigger] old(agents)@[i]).velocity.within(
                VEL_STAGE_LIMIT as int,
            ),
    ensures
        final(agents)@ == spec_limit_stage(old(agents)@, min_speed as int, max_speed as int),
        forall|i: int|
            0 <= i < final(agents)@.len() ==> (#[trigger] final(agents)@[i]).velocity.within(
                max_speed as int,
            ),
        forall|i: int|
            0 <= i < final(agents)@.len() ==> (#[trigger] final(agents)@[i]).velocity.mag_sq()
                <= max_speed * max_speed + 2 * max_speed,
        forall|i: int|
            0 <= i < final(agents)@.len() ==> (#[trigger] final(agents)@[i]).velocity.mag_sq() + 4
                * min_speed + 1 >= min_speed * min_speed,
{
    let n = agents.len();
    let mut i: usize = 0;
    while i < n
        invariant
            n == agents@.len() == old(agents)@.len(),
            0 <= i <= n,
            0 < min_speed <= max_speed,
            max_speed <= SPEED_LIMIT,
            forall|k: int|
                0 <= k < n ==> (#[trigger] old(agents)@[k]).velocity.within(
                    VEL_STAGE_LIMIT as int,
                ),
            forall|k: int|
                i <= k < n ==> #[trigger] agents@[k] == old(agents)@[k],
            forall|k: int|
                0 <= k < i ==> #[trigger] agents@[k] == (Agent {
                    position: old(agents)@[k].position,
                    velocity: spec_limit(
                        old(agents)@[k].velocity,
                        min_speed as int,
                        max_speed as int,
                    ),
                }),
            forall|k: int|
                0 <= k < i ==> (#[trigger] agents@[k]).velocity.within(max_speed as int),
            forall|k: int|
                0 <= k < i ==> (#[trigger] agents@[k]).velocity.mag_sq() <= max_speed * max_speed
                    + 2 * max_speed,
            forall|k: int|
                0 <= k < i ==> (#[trigger] agents@[k]).velocity.mag_sq() + 4 * min_speed + 1
                    >= min_speed * min_speed,
        decreases n - i,
    {
        let a = agents[i];
        let nv = limit_velocity(a.velocity, min_speed, max_speed);
        agents[i] = Agent { position: a.position, velocity: nv };
        i = i + 1;
    }
    proof {
        assert(agents@ =~= spec_limit_stage(old(agents)@, min_speed as int, max_speed as int));
    }
}

/// Integration stage: advance every position by the final velocity.
pub fn integrate_stage(agents: &mut Vec<Agent>)
    requires
        forall|i: int|
            0 <= i < old(agents)@.len() ==> (#[trigger] old(agents)@[i]).position.within(
                COORD_LIMIT as int,
            ),
        forall|i: int|
            0 <= i < old(agents)@.len() ==> (#[trigger] old(agents)@[i]).velocity.within(
                VEL_STAGE_LIMIT as int,
            ),
    ensures
        final(agents)@ == spec_integrate_stage(old(agents)@),
{
    let n = agents.len();
    let mut i: usize = 0;
    while i < n
        invariant
            n == agents@.len() == old(agents)@.len(),
            0 <= i <= n,
            forall|k: int|
                0 <= k < n ==> (#[trigger] old(agents)@[k]).position.within(COORD_LIMIT as int),
            forall|k: int|
                0 <= k < n ==> (#[trigger] old(agents)@[k]).velocity.within(
                    VEL_STAGE_LIMIT as int,
                ),
            forall|k: int|
                i <= k < n ==> #[trigger] agents@[k] == old(agents)@[k],
            forall|k: int|
                0 <= k < i ==> #[trigger] agents@[k] == (Agent {
                    position: Vec2 {
                        x: (old(agents)@[k].position.x + old(agents)@[k].velocity.x) as i64,
                        y: (old(agents)@[k].position.y + old(agents)@[k].velocity.y) as i64,
                    },
                    velocity: old(agents)@[k].velocity,
                }),
        decreases n - i,
    {
        let a = agents[i];
        let np = Vec2 { x: a.position.x + a.velocity.x, y: a.position.y + a.velocity.y };
        agents[i] = Agent { position: np, velocity: a.velocity };
        i = i + 1;
    }
    proof {
        assert(agents@ =~= spec_integrate_stage(old(agents)@));
    }
}

/// Advance the simulation by exactly one tick, in place.
///
/// The result is a mathematical function of the incoming population,
/// parameters and viewport, so equal inputs give equal outputs; the
/// population size never changes; and every agent leaves the tick with
/// its speed clamped into the admitted band, up to rounding.
pub fn run_tick(agents: &mut Vec<Agent>, params: &SimulationParameters, viewport: &Viewport)
    requires
        params.valid(),
        viewport.valid(),
        population_ok(old(agents)@),
    ensures
        final(agents)@ == spec_run_tick(old(agents)@, *params, *viewport),
        final(agents)@.len() == old(agents)@.len(),
        forall|i: int|
            0 <= i < final(agents)@.len() ==> (#[trigger] final(agents)@[i]).velocity.within(
                params.max_speed as int,
            ),
        forall|i: int|
            0 <= i < final(agents)@.len() ==> (#[trigger] final(agents)@[i]).velocity.mag_sq()
                <= params.max_speed * params.max_speed + 2 * params.max_speed,
        forall|i: int|
            0 <= i < final(agents)@.len() ==> (#[trigger] final(agents)@[i]).velocity.mag_sq() + 4
                * params.min_speed + 1 >= params.min_speed * params.min_speed,
        forall|i: int|
            0 <= i < final(agents)@.len() ==> (#[trigger] final(agents)@[i]).position.within(
                COORD_LIMIT as int + SPEED_LIMIT as int,
            ),
{
    let ghost s0 = agents@;
    avoidance_stage(agents, params.neighbor_radius, params.avoid_factor);
    let ghost s1 = agents@;
    proof {
        assert forall|k: int| 0 <= k < s1.len() implies (#[trigger] s1[k]).position.within(
            COORD_LIMIT as int,
        ) && s1[k].velocity.within(VEL_STAGE_LIMIT as int) && s1[k].velocity.within(
            AVOID_VEL_LIMIT as int,
        ) by {
            assert(s0[k].well_formed());
            assert(s1[k].position == s0[k].position);
        }
    }
    let st = compute_statistics(agents);
    proof {
        lemma_statistics_bound(s1, AVOID_VEL_LIMIT as int, COORD_LIMIT as int);
    }
    alignment_stage(agents, &st, params.matching_factor);
    let ghost s2 = agents@;
    proof {
        assert forall|k: int| 0 <= k < s2.len() implies (#[trigger] s2[k]).position.within(
            COORD_LIMIT as int,
        ) && s2[k].velocity.within(AVOID_VEL_LIMIT as int) && s2[k].velocity.within(
            VEL_STAGE_LIMIT as int,
        ) by {
            lemma_align_vel_within(
                s1[k].velocity,
                st.avg_velocity,
                params.matching_factor as int,
                AVOID_VEL_LIMIT as int,
            );
        }
    }
    cohesion_stage(agents, &st, params.centering_factor);
    let ghost s3 = agents@;
    proof {
        assert forall|k: int| 0 <= k < s3.len() implies (#[trigger] s3[k]).position.within(
            COORD_LIMIT as int,
        ) && s3[k].velocity.within(AVOID_VEL_LIMIT as int + 2 * COORD_LIMIT as int)
            && s3[k].velocity.within(VEL_STAGE_LIMIT as int) by {
            lemma_cohere_vel_within(
                s2[k].velocity,
                s2[k].position,
                st.avg_position,
                params.centering_factor as int,
                AVOID_VEL_LIMIT as int,
                COORD_LIMIT as int,
            );
        }
    }
    boundary_stage(agents, viewport, params.margin);
    let ghost s4 = agents@;
    proof {
        assert forall|k: int| 0 <= k < s4.len() implies (#[trigger] s4[k]).position.within(
            COORD_LIMIT as int,
        ) && s4[k].velocity.within(VEL_STAGE_LIMIT as int) by {
            assert(abs_val(s4[k].velocity.x as int) == abs_val(s3[k].velocity.x as int));
            assert(abs_val(s4[k].velocity.y as int) == abs_val(s3[k].velocity.y as int));
        }
    }
    speed_limit_stage(agents, params.min_speed, params.max_speed);
    let ghost s5 = agents@;
    proof {
        assert forall|k: int| 0 <= k < s5.len() implies (#[trigger] s5[k]).position.within(
            COORD_LIMIT as int,
        ) && s5[k].velocity.within(VEL_STAGE_LIMIT as int) by {
            assert(s5[k].position == s4[k].position);
        }
    }
    integrate_stage(agents);
    proof {
        assert(agents@ == spec_run_tick(s0, *params, *viewport));
        assert forall|i: int| 0 <= i < agents@.len() implies (
        #[trigger] agents@[i]).velocity.within(params.max_speed as int) && agents@[i].velocity.mag_sq()
            <= params.max_speed * params.max_speed + 2 * params.max_speed
            && agents@[i].velocity.mag_sq() + 4 * params.min_speed + 1 >= params.min_speed
            * params.min_speed && agents@[i].position.within(
            COORD_LIMIT as int + SPEED_LIMIT as int,
        ) by {
            assert(agents@[i].velocity == s5[i].velocity);
            assert(s5[i].velocity.within(params.max_speed as int));
        }
    }
}

/// The population never changes size: a tick maps a population to one of
/// the same length.
pub proof fn lemma_population_invariant(s: Seq<Agent>, p: SimulationParameters, vp: Viewport)
    ensures
        spec_run_tick(s, p, vp).len() == s.len(),
{
}

/// The tick is deterministic: equal populations, parameters and
/// viewports produce equal next states, with no hidden inputs.
pub proof fn lemma_tick_deterministic(
    s1: Seq<Agent>,
    s2: Seq<Agent>,
    p1: SimulationParameters,
    p2: SimulationParameters,
    vp1: Viewport,
    vp2: Viewport,
)
    requires
        s1 == s2,
        p1 == p2,
        vp1 == vp2,
    ensures
        spec_run_tick(s1, p1, vp1) == spec_run_tick(s2, p2, vp2),
{
}

} // verus!
