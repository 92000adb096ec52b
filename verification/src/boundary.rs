//! Boundary stage: reflect agents near the viewport edges by overwriting
//! the offending velocity component with its inward-pointing magnitude.

use vstd::prelude::*;
use crate::agent::Agent;
use crate::params::Viewport;
use crate::vec2::Vec2;

verus! {

/// Magnitude of an integer.
pub open spec fn abs_val(a: int) -> int {
    if a < 0 {
        -a
    } else {
        a
    }
}

/// Left edge of the centered viewport rectangle.
pub open spec fn spec_left(vp: Viewport) -> int {
    -(vp.width as int / 2)
}

pub open spec fn spec_right(vp: Viewport) -> int {
    vp.width as int / 2
}

pub open spec fn spec_bottom(vp: Viewport) -> int {
    -(vp.height as int / 2)
}

pub open spec fn spec_top(vp: Viewport) -> int {
    vp.height as int / 2
}

/// The reflective boundary rule for one agent, each axis independent:
/// within `margin` of the left edge the horizontal velocity is forced
/// positive, of the right edge forced negative, of the top edge forced
/// negative, of the bottom edge forced positive; conditions are applied
/// in that order, so in a degenerate rectangle the later one wins.
pub open spec fn bounce_vel(pos: Vec2, v: Vec2, vp: Viewport, margin: int) -> Vec2 {
    let vx1: int = if pos.x < spec_left(vp) + margin {
        abs_val(v.x as int)
    } else {
        v.x as int
    };
    let vx2: int = if pos.x > spec_right(vp) - margin {
        -abs_val(vx1)
    } else {
        vx1
    };
    let vy1: int = if pos.y > spec_top(vp) - margin {
        -abs_val(v.y as int)
    } else {
        v.y as int
    };
    let vy2: int = if pos.y < spec_bottom(vp) + margin {
        abs_val(vy1)
    } else {
        vy1
    };
    Vec2 { x: vx2 as i64, y: vy2 as i64 }
}

pub open spec fn spec_bounce_stage(s: Seq<Agent>, vp: Viewport, margin: int) -> Seq<Agent> {
    Seq::new(
        s.len(),
        |i: int|
            Agent {
                position: s[i].position,
                velocity: bounce_vel(s[i].position, s[i].velocity, vp, margin),
            },
    )
}

/// Reflection never changes a component's magnitude.
pub proof fn lemma_bounce_preserves_mag(pos: Vec2, v: Vec2, vp: Viewport, margin: int)
    requires
        v.within(crate::params::VEL_STAGE_LIMIT as int),
    ensures
        abs_val(bounce_vel(pos, v, vp, margin).x as int) == abs_val(v.x as int),
        abs_val(bounce_vel(pos, v, vp, margin).y as int) == abs_val(v.y as int),
{
}

/// An agent within the margin band of the left edge, and not within the
/// band of the right edge, leaves the boundary stage moving rightward.
pub proof fn lemma_boundary_pushes_right(pos: Vec2, v: Vec2, vp: Viewport, margin: int)
    requires
        v.within(crate::params::VEL_STAGE_LIMIT as int),
        pos.x < spec_left(vp) + margin,
        pos.x <= spec_right(vp) - margin,
    ensures
        bounce_vel(pos, v, vp, margin).x >= 0,
        bounce_vel(pos, v, vp, margin).x as int == abs_val(v.x as int),
{
}

/// Boundary stage: apply the reflective rule to every agent against the
/// tick's viewport.
pub fn boundary_stage(agents: &mut Vec<Agent>, vp: &Viewport, margin: i64)
    requires
        vp.valid(),
        0 <= margin,
        forall|i: int|
            0 <= i < old(agents)@.len() ==> (#[trigger] old(agents)@[i]).velocity.within(
                crate::params::VEL_STAGE_LIMIT as int,
            ),
    ensures
        final(agents)@ == spec_bounce_stage(old(agents)@, *vp, margin as int),
        forall|i: int|
            0 <= i < final(agents)@.len() ==> abs_val(#[trigger] final(agents)@[i].velocity.x as int) == abs_val(
                old(agents)@[i].velocity.x as int,
            ) && abs_val(final(agents)@[i].velocity.y as int) == abs_val(old(agents)@[i].velocity.y as int),
{
    let half_w = ((vp.width as u64) / 2) as i64;
    let half_h = ((vp.height as u64) / 2) as i64;
    let left = -half_w;
    let right = half_w;
    let bottom = -half_h;
    let top = half_h;
    let n = agents.len();
    let mut i: usize = 0;
    while i < n
        invariant
            n == agents@.len() == old(agents)@.len(),
            0 <= i <= n,
            vp.valid(),
            0 <= margin,
            forall|k: int|
                0 <= k < n ==> (#[trigger] old(agents)@[k]).velocity.within(
                    crate::params::VEL_STAGE_LIMIT as int,
                ),
            left == spec_left(*vp),
            right == spec_right(*vp),
            bottom == spec_bottom(*vp),
            top == spec_top(*vp),
            forall|k: int|
                i <= k < n ==> #[trigger] agents@[k] == old(agents)@[k],
            forall|k: int|
                0 <= k < i ==> #[trigger] agents@[k] == (Agent {
                    position: old(agents)@[k].position,
                    velocity: bounce_vel(
                        old(agents)@[k].position,
                        old(agents)@[k].velocity,
                        *vp,
                        margin as int,
                    ),
                }),
        decreases n - i,
    {
        let a = agents[i];
        let mut vx = a.velocity.x;
        let mut vy = a.velocity.y;
        if a.position.x < left + margin {
            vx = if vx >= 0 { vx } else { -vx };
        }
        if a.position.x > right - margin {
            vx = if vx >= 0 { -vx } else { vx };
        }
        if a.position.y > top - margin {
            vy = if vy >= 0 { -vy } else { vy };
        }
        if a.position.y < bottom + margin {
            vy = if vy >= 0 { vy } else { -vy };
        }
        agents[i] = Agent { position: a.position, velocity: Vec2 { x: vx, y: vy } };
        i = i + 1;
    }
    proof {
        assert(agents@ =~= spec_bounce_stage(old(agents)@, *vp, margin as int));
        assert forall|k: int| 0 <= k < agents@.len() implies abs_val(
            #[trigger] agents@[k].velocity.x as int,
        ) == abs_val(old(agents)@[k].velocity.x as int) && abs_val(agents@[k].velocity.y as int)
            == abs_val(old(agents)@[k].velocity.y as int) by {
            lemma_bounce_preserves_mag(
                old(agents)@[k].position,
                old(agents)@[k].velocity,
                *vp,
                margin as int,
            );
        }
    }
}

} // verus!
