//! Flock statistics stage: the population-wide average velocity and
//! average position, computed once per tick from a snapshot and read by
//! the alignment and cohesion stages.

use vstd::prelude::*;
use crate::agent::Agent;
use crate::math::{div_trunc, lemma_div_trunc_bound, scale_i64};
use crate::vec2::Vec2;
use vstd::arithmetic::mul::lemma_mul_upper_bound;

verus! {

/// Tick-scoped averages over the whole population; recomputed every tick
/// and never persisted.
#[derive(Clone, Copy, Debug, PartialEq, Eq, Structural)]
pub struct FlockStatistics {
    pub avg_velocity: Vec2,
    pub avg_position: Vec2,
}

/// Componentwise sums over all agents' velocities and positions.
pub open spec fn sum_vel_x(s: Seq<Agent>) -> int
    decreases s.len(),
{
    if s.len() == 0 {
        0
    } else {
        sum_vel_x(s.drop_last()) + s.last().velocity.x
    }
}

pub open spec fn sum_vel_y(s: Seq<Agent>) -> int
    decreases s.len(),
{
    if s.len() == 0 {
        0
    } else {
        sum_vel_y(s.drop_last()) + s.last().velocity.y
    }
}

pub open spec fn sum_pos_x(s: Seq<Agent>) -> int
    decreases s.len(),
{
    if s.len() == 0 {
        0
    } else {
        sum_pos_x(s.drop_last()) + s.last().position.x
    }
}

pub open spec fn sum_pos_y(s: Seq<Agent>) -> int
    decreases s.len(),
{
    if s.len() == 0 {
        0
    } else {
        sum_pos_y(s.drop_last()) + s.last().position.y
    }
}

/// The arithmetic mean of velocities and positions, componentwise with
/// truncating division; zero vectors for an empty population.
pub open spec fn spec_statistics(s: Seq<Agent>) -> FlockStatistics {
    if s.len() == 0 {
        FlockStatistics {
            avg_velocity: Vec2 { x: 0, y: 0 },
            avg_position: Vec2 { x: 0, y: 0 },
        }
    } else {
        let n = s.len() as int;
        FlockStatistics {
            avg_velocity: Vec2 {
                x: div_trunc(sum_vel_x(s), n) as i64,
                y: div_trunc(sum_vel_y(s), n) as i64,
            },
            avg_position: Vec2 {
                x: div_trunc(sum_pos_x(s), n) as i64,
                y: div_trunc(sum_pos_y(s), n) as i64,
            },
        }
    }
}

/// A sum over agents whose components stay in `[-b, b]` stays in
/// `[-(len * b), len * b]`.
pub proof fn lemma_sums_bound(s: Seq<Agent>, bv: int, bp: int)
    requires
        0 <= bv,
        0 <= bp,
        forall|i: int| 0 <= i < s.len() ==> (#[trigger] s[i]).velocity.within(bv),
        forall|i: int| 0 <= i < s.len() ==> (#[trigger] s[i]).position.within(bp),
    ensures
        -(s.len() as int * bv) <= sum_vel_x(s) <= s.len() as int * bv,
        -(s.len() as int * bv) <= sum_vel_y(s) <= s.len() as int * bv,
        -(s.len() as int * bp) <= sum_pos_x(s) <= s.len() as int * bp,
        -(s.len() as int * bp) <= sum_pos_y(s) <= s.len() as int * bp,
    decreases s.len(),
{
    if s.len() == 0 {
    } else {
        let n = s.len() as int;
        lemma_sums_bound(s.drop_last(), bv, bp);
        assert((n - 1) * bv + bv == n * bv) by (nonlinear_arith);
        assert((n - 1) * bp + bp == n * bp) by (nonlinear_arith);
    }
}

/// Averages stay within the componentwise bounds of what they average.
pub proof fn lemma_statistics_bound(s: Seq<Agent>, bv: int, bp: int)
    requires
        0 <= bv,
        0 <= bp,
        forall|i: int| 0 <= i < s.len() ==> (#[trigger] s[i]).velocity.within(bv),
        forall|i: int| 0 <= i < s.len() ==> (#[trigger] s[i]).position.within(bp),
    ensures
        spec_statistics(s).avg_velocity.within(bv),
        spec_statistics(s).avg_position.within(bp),
{
    if s.len() == 0 {
    } else {
        let n = s.len() as int;
        lemma_sums_bound(s, bv, bp);
        lemma_div_trunc_bound(sum_vel_x(s), n, bv);
        lemma_div_trunc_bound(sum_vel_y(s), n, bv);
        lemma_div_trunc_bound(sum_pos_x(s), n, bp);
        lemma_div_trunc_bound(sum_pos_y(s), n, bp);
    }
}

/// Compute the tick's flock statistics: the componentwise arithmetic
/// mean of every agent's velocity and position, as of stage entry; an
/// empty population yields zero vectors.
pub fn compute_statistics(agents: &Vec<Agent>) -> (r: FlockStatistics)
    requires
        agents@.len() <= crate::params::MAX_AGENTS,
        forall|i: int|
            0 <= i < agents@.len() ==> (#[trigger] agents@[i]).velocity.within(
                crate::params::VEL_STAGE_LIMIT as int,
            ),
        forall|i: int|
            0 <= i < agents@.len() ==> (#[trigger] agents@[i]).position.within(
                crate::params::COORD_LIMIT as int,
            ),
    ensures
        r == spec_statistics(agents@),
{
    let n = agents.len();
    if n == 0 {
        return FlockStatistics {
            avg_velocity: Vec2 { x: 0, y: 0 },
            avg_position: Vec2 { x: 0, y: 0 },
        };
    }
    let mut svx: i64 = 0;
    let mut svy: i64 = 0;
    let mut spx: i64 = 0;
    let mut spy: i64 = 0;
    let mut i: usize = 0;
    proof {
        assert(agents@.take(0) =~= Seq::<Agent>::empty());
    }
    while i < n
        invariant
            n == agents@.len() <= crate::params::MAX_AGENTS,
            0 <= i <= n,
            forall|k: int|
                0 <= k < agents@.len() ==> (#[trigger] agents@[k]).velocity.within(
                    crate::params::VEL_STAGE_LIMIT as int,
                ),
            forall|k: int|
                0 <= k < agents@.len() ==> (#[trigger] agents@[k]).position.within(
                    crate::params::COORD_LIMIT as int,
                ),
            svx == sum_vel_x(agents@.take(i as int)),
            svy == sum_vel_y(agents@.take(i as int)),
            spx == sum_pos_x(agents@.take(i as int)),
            spy == sum_pos_y(agents@.take(i as int)),
            -(i as int) * (crate::params::VEL_STAGE_LIMIT as int) <= svx <= (i as int) * (
            crate::params::VEL_STAGE_LIMIT as int),
            -(i as int) * (crate::params::VEL_STAGE_LIMIT as int) <= svy <= (i as int) * (
            crate::params::VEL_STAGE_LIMIT as int),
            -(i as int) * (crate::params::COORD_LIMIT as int) <= spx <= (i as int) * (
            crate::params::COORD_LIMIT as int),
            -(i as int) * (crate::params::COORD_LIMIT as int) <= spy <= (i as int) * (
            crate::params::COORD_LIMIT as int),
        decreases n - i,
    {
        let a = agents[i];
        proof {
            lemma_mul_upper_bound(
                i as int,
                crate::params::MAX_AGENTS as int,
                crate::params::VEL_STAGE_LIMIT as int,
                crate::params::VEL_STAGE_LIMIT as int,
            );
            lemma_mul_upper_bound(
                i as int,
                crate::params::MAX_AGENTS as int,
                crate::params::COORD_LIMIT as int,
                crate::params::COORD_LIMIT as int,
            );
            assert(agents@.take(i as int + 1).drop_last() =~= agents@.take(i as int));
            assert((i as int + 1) * (crate::params::VEL_STAGE_LIMIT as int) == (i as int) * (
            crate::params::VEL_STAGE_LIMIT as int) + crate::params::VEL_STAGE_LIMIT as int)
                by (nonlinear_arith);
            assert((i as int + 1) * (crate::params::COORD_LIMIT as int) == (i as int) * (
            crate::params::COORD_LIMIT as int) + crate::params::COORD_LIMIT as int)
                by (nonlinear_arith);
        }
        svx = svx + a.velocity.x;
        svy = svy + a.velocity.y;
        spx = spx + a.position.x;
        spy = spy + a.position.y;
        i = i + 1;
    }
    proof {
        assert(agents@.take(n as int) =~= agents@);
        lemma_mul_upper_bound(
            n as int,
            crate::params::MAX_AGENTS as int,
            crate::params::VEL_STAGE_LIMIT as int,
            crate::params::VEL_STAGE_LIMIT as int,
        );
        lemma_mul_upper_bound(
            n as int,
            crate::params::MAX_AGENTS as int,
            crate::params::COORD_LIMIT as int,
            crate::params::COORD_LIMIT as int,
        );
    }
    let avx = scale_i64(svx, 1, n as i64);
    let avy = scale_i64(svy, 1, n as i64);
    let apx = scale_i64(spx, 1, n as i64);
    let apy = scale_i64(spy, 1, n as i64);
    FlockStatistics {
        avg_velocity: Vec2 { x: avx, y: avy },
        avg_position: Vec2 { x: apx, y: apy },
    }
}

} // verus!
