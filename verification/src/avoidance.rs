//! Neighbor avoidance stage: pairwise repulsion. Every unordered pair of
//! distinct agents is inspected once, in index order, and only the
//! first-indexed agent of the pair is pushed; closeness is measured in
//! velocity space, an inherited trait of the simulation that is kept.

use vstd::prelude::*;
use crate::agent::{population_ok, Agent};
use crate::math::{isqrt_u128, lemma_comp_le_sqrt, lemma_scaled_le, lemma_sq_le, lemma_sqrt_floor, scale_i64, scaled, sqrt_floor};
use crate::limit::{lemma_scaled_abs, lemma_sq_nonneg};
use crate::params::{FACTOR_LIMIT, MAX_AGENTS, RADIUS_LIMIT, VEL_LIMIT, VEL_STAGE_LIMIT};
use crate::vec2::Vec2;
use vstd::arithmetic::mul::{lemma_mul_inequality, lemma_mul_upper_bound};

verus! {

/// Componentwise velocity bound that holds after the avoidance stage.
pub const AVOID_VEL_LIMIT: i64 = 11_000_000_000_000;

/// One inspection of the pair `(A, B)`: if the velocities differ, and
/// differ by less than `radius` in velocity space, `A` is pushed away by
/// the difference normalized to magnitude `f` (up to rounding); equal
/// velocities contribute nothing rather than faulting on normalization.
pub open spec fn avoid_step(w: Vec2, u: Vec2, radius: int, f: int) -> Vec2 {
    let dx = w.x - u.x;
    let dy = w.y - u.y;
    let m = dx * dx + dy * dy;
    if m != 0 && m < radius * radius {
        let s = sqrt_floor(m);
        Vec2 { x: (w.x + scaled(dx, f, s)) as i64, y: (w.y + scaled(dy, f, s)) as i64 }
    } else {
        w
    }
}

/// Agent `i`'s velocity after its pairs `(i, i+1) .. (i, j-1)` have been
/// inspected, each against the partner's velocity as of stage entry:
/// pairs in which `i` is the second index never touch agent `i`.
pub open spec fn avoid_fold(s0: Seq<Agent>, i: int, j: int, radius: int, f: int) -> Vec2
    decreases j - i,
{
    if j - i - 1 <= 0 {
        s0[i].velocity
    } else {
        avoid_step(avoid_fold(s0, i, j - 1, radius, f), s0[j - 1].velocity, radius, f)
    }
}

pub open spec fn spec_avoid_stage(s: Seq<Agent>, radius: int, f: int) -> Seq<Agent> {
    Seq::new(
        s.len(),
        |i: int|
            Agent {
                position: s[i].position,
                velocity: avoid_fold(s, i, s.len() as int, radius, f),
            },
    )
}

/// One inspection moves each velocity component by at most `f`.
pub proof fn lemma_avoid_step_within(w: Vec2, u: Vec2, radius: int, f: int, b: int)
    requires
        0 <= f,
        0 <= b,
        b + f <= i64::MAX,
        w.within(b),
    ensures
        avoid_step(w, u, radius, f).within(b + f),
{
    let dx = w.x - u.x;
    let dy = w.y - u.y;
    let m = dx * dx + dy * dy;
    if m != 0 && m < radius * radius {
        lemma_sq_nonneg(dx);
        lemma_sq_nonneg(dy);
        lemma_sqrt_floor(m);
        let s = sqrt_floor(m);
        if s == 0 {
            assert(false) by (nonlinear_arith)
                requires
                    s == 0,
                    m >= 1,
                    m < (s + 1) * (s + 1),
            ;
        }
        lemma_comp_le_sqrt(vstd::math::abs(dx) as int, s, m);
        lemma_comp_le_sqrt(vstd::math::abs(dy) as int, s, m);
        lemma_scaled_abs(dx, f, s);
        lemma_scaled_abs(dy, f, s);
        lemma_scaled_le(vstd::math::abs(dx) as int, f, s);
        lemma_scaled_le(vstd::math::abs(dy) as int, f, s);
    }
}

/// The fold moves each velocity component by at most `f` per partner.
pub proof fn lemma_avoid_fold_within(s0: Seq<Agent>, i: int, j: int, radius: int, f: int, b: int)
    requires
        0 <= i < s0.len(),
        i + 1 <= j <= s0.len(),
        0 <= f <= FACTOR_LIMIT,
        0 <= b,
        s0[i].velocity.within(b),
        b + (s0.len() as int) * f <= i64::MAX,
    ensures
        avoid_fold(s0, i, j, radius, f).within(b + (j - i - 1) * f),
    decreases j - i,
{
    lemma_mul_inequality(j - i - 1, s0.len() as int, f);
    if j - i - 1 <= 0 {
    } else {
        lemma_avoid_fold_within(s0, i, j - 1, radius, f, b);
        lemma_mul_inequality(j - i - 2, s0.len() as int, f);
        assert((j - i - 2) * f + f == (j - i - 1) * f) by (nonlinear_arith);
        assert((j - i - 2) * f >= 0) by (nonlinear_arith)
            requires
                j - i - 2 >= 0,
                f >= 0,
        ;
        lemma_avoid_step_within(
            avoid_fold(s0, i, j - 1, radius, f),
            s0[j - 1].velocity,
            radius,
            f,
            b + (j - i - 2) * f,
        );
    }
}

/// The documented asymmetry of the avoidance rule, for a pair of agents:
/// each unordered pair is inspected once, and only the first-indexed
/// agent's velocity is adjusted; the second agent keeps its velocity,
/// whether or not the two are within the neighbor radius.
pub proof fn lemma_avoid_pair_asymmetric(s: Seq<Agent>, radius: int, f: int)
    requires
        s.len() == 2,
    ensures
        spec_avoid_stage(s, radius, f)[1].velocity == s[1].velocity,
        spec_avoid_stage(s, radius, f)[0].velocity == avoid_step(
            s[0].velocity,
            s[1].velocity,
            radius,
            f,
        ),
{
    assert(avoid_fold(s, 1, 2, radius, f) == s[1].velocity);
    assert(avoid_fold(s, 0, 2, radius, f) == avoid_step(
        avoid_fold(s, 0, 1, radius, f),
        s[1].velocity,
        radius,
        f,
    ));
}

/// In any population, the last agent is never pushed by the avoidance
/// stage: no pair has it as its first index.
pub proof fn lemma_avoid_last_unchanged(s: Seq<Agent>, radius: int, f: int)
    requires
        s.len() > 0,
    ensures
        spec_avoid_stage(s, radius, f)[s.len() - 1].velocity == s[s.len() - 1].velocity,
{
}

/// Avoidance stage: inspect every unordered pair once, in index order,
/// pushing only the first-indexed agent; partners are always read as of
/// stage entry. Positions are untouched.
pub fn avoidance_stage(agents: &mut Vec<Agent>, neighbor_radius: i64, avoid_factor: i64)
    requires
        0 <= neighbor_radius <= RADIUS_LIMIT,
        0 <= avoid_factor <= FACTOR_LIMIT,
        population_ok(old(agents)@),
    ensures
        final(agents)@ == spec_avoid_stage(
            old(agents)@,
            neighbor_radius as int,
            avoid_factor as int,
        ),
        forall|k: int|
            0 <= k < final(agents)@.len() ==> (#[trigger] final(agents)@[k]).velocity.within(
                AVOID_VEL_LIMIT as int,
            ),
{
    let n = agents.len();
    let ghost s0 = agents@;
    let ghost r = neighbor_radius as int;
    let ghost f = avoid_factor as int;
    let mut i: usize = 0;
    while i < n
        invariant
            n == agents@.len() == s0.len(),
            s0 == old(agents)@,
            population_ok(s0),
            0 <= i <= n,
            0 <= neighbor_radius <= RADIUS_LIMIT,
            0 <= avoid_factor <= FACTOR_LIMIT,
            r == neighbor_radius as int,
            f == avoid_factor as int,
            forall|k: int| 0 <= k < n ==> (#[trigger] agents@[k]).position == s0[k].position,
            forall|k: int|
                0 <= k < i ==> (#[trigger] agents@[k]).velocity == avoid_fold(
                    s0,
                    k,
                    n as int,
                    r,
                    f,
                ),
            forall|k: int|
                0 <= k < i ==> (#[trigger] agents@[k]).velocity.within(AVOID_VEL_LIMIT as int),
            forall|k: int| i <= k < n ==> (#[trigger] agents@[k]).velocity == s0[k].velocity,
        decreases n - i,
    {
        let mut j: usize = i + 1;
        proof {
            assert(s0[i as int].well_formed());
        }
        while j < n
            invariant
                n == agents@.len() == s0.len(),
                s0 == old(agents)@,
                population_ok(s0),
                0 <= i < n,
                i + 1 <= j <= n,
                0 <= neighbor_radius <= RADIUS_LIMIT,
                0 <= avoid_factor <= FACTOR_LIMIT,
                r == neighbor_radius as int,
                f == avoid_factor as int,
                forall|k: int| 0 <= k < n ==> (#[trigger] agents@[k]).position == s0[k].position,
                forall|k: int|
                    0 <= k < i ==> (#[trigger] agents@[k]).velocity == avoid_fold(
                        s0,
                        k,
                        n as int,
                        r,
                        f,
                    ),
                forall|k: int|
                    0 <= k < i ==> (#[trigger] agents@[k]).velocity.within(AVOID_VEL_LIMIT as int),
                forall|k: int| i < k < n ==> (#[trigger] agents@[k]).velocity == s0[k].velocity,
                agents@[i as int].velocity == avoid_fold(s0, i as int, j as int, r, f),
                agents@[i as int].velocity.within(
                    VEL_LIMIT as int + (j - i - 1) * (avoid_factor as int),
                ),
            decreases n - j,
        {
            proof {
                lemma_mul_upper_bound(
                    j - i - 1,
                    MAX_AGENTS as int,
                    avoid_factor as int,
                    FACTOR_LIMIT as int,
                );
                lemma_mul_upper_bound(
                    j - i,
                    MAX_AGENTS as int,
                    avoid_factor as int,
                    FACTOR_LIMIT as int,
                );
                assert((j - i) * f == (j - i - 1) * f + f) by (nonlinear_arith);
                assert((j - i - 1) * f >= 0) by (nonlinear_arith)
                    requires
                        j - i - 1 >= 0,
                        f >= 0,
                ;
            }
            proof {
                assert(s0[j as int].well_formed());
            }
            let a = agents[i];
            let vi = a.velocity;
            let vj = agents[j].velocity;
            let dx = vi.x - vj.x;
            let dy = vi.y - vj.y;
            proof {
                lemma_sq_nonneg(dx as int);
                lemma_sq_nonneg(dy as int);
                lemma_sq_le(vstd::math::abs(dx as int) as int, VEL_STAGE_LIMIT as int);
                lemma_sq_le(vstd::math::abs(dy as int) as int, VEL_STAGE_LIMIT as int);
                assert((VEL_STAGE_LIMIT as int) * (VEL_STAGE_LIMIT as int)
                    < 0x4000_0000_0000_0000_0000_0000_0000_0000) by (nonlinear_arith);
            }
            let mxx: i128 = (dx as i128) * (dx as i128);
            let myy: i128 = (dy as i128) * (dy as i128);
            let m: u128 = (mxx + myy) as u128;
            proof {
                lemma_mul_upper_bound(
                    neighbor_radius as int,
                    RADIUS_LIMIT as int,
                    neighbor_radius as int,
                    RADIUS_LIMIT as int,
                );
                assert((RADIUS_LIMIT as int) * (RADIUS_LIMIT as int)
                    < 0x4000_0000_0000_0000_0000_0000_0000_0000) by (nonlinear_arith);
            }
            let rr: u128 = (neighbor_radius as u128) * (neighbor_radius as u128);
            if m != 0 && m < rr {
                let s128 = isqrt_u128(m);
                proof {
                    assert(s128 as int <= 2 * (VEL_STAGE_LIMIT as int)) by (nonlinear_arith)
                        requires
                            s128 * s128 <= m,
                            m as int <= 2 * ((VEL_STAGE_LIMIT as int) * (VEL_STAGE_LIMIT as int)),
                    ;
                }
                let s = s128 as i64;
                proof {
                    assert(s128 >= 1) by (nonlinear_arith)
                        requires
                            m >= 1,
                            m < (s128 + 1) * (s128 + 1),
                    ;
                    lemma_comp_le_sqrt(vstd::math::abs(dx as int) as int, s as int, m as int);
                    lemma_comp_le_sqrt(vstd::math::abs(dy as int) as int, s as int, m as int);
                }
                let cx = scale_i64(dx, avoid_factor, s);
                let cy = scale_i64(dy, avoid_factor, s);
                let nv = Vec2 { x: vi.x + cx, y: vi.y + cy };
                agents[i] = Agent { position: a.position, velocity: nv };
            }
            proof {
                assert(agents@[i as int].velocity == avoid_step(
                    avoid_fold(s0, i as int, j as int, r, f),
                    s0[j as int].velocity,
                    r,
                    f,
                ));
                assert(avoid_fold(s0, i as int, j as int + 1, r, f) == avoid_step(
                    avoid_fold(s0, i as int, j as int, r, f),
                    s0[j as int].velocity,
                    r,
                    f,
                ));
            }
            j = j + 1;
        }
        proof {
            lemma_mul_upper_bound(
                n as int - i - 1,
                MAX_AGENTS as int,
                avoid_factor as int,
                FACTOR_LIMIT as int,
            );
        }
        i = i + 1;
    }
    proof {
        assert(agents@ =~= spec_avoid_stage(s0, r, f));
    }
}

} // verus!
