use boids::agent::Agent;
use boids::avoidance::avoidance_stage;
use boids::boundary::boundary_stage;
use boids::limit::limit_velocity;
use boids::params::Viewport;
use boids::stats::{compute_statistics, FlockStatistics};
use boids::steering::{alignment_stage, cohesion_stage};
use boids::tick::{integrate_stage, speed_limit_stage};
use boids::vec2::Vec2;

fn agent(px: i64, py: i64, vx: i64, vy: i64) -> Agent {
    Agent {
        position: Vec2 { x: px, y: py },
        velocity: Vec2 { x: vx, y: vy },
    }
}

#[test]
fn statistics_single_agent() {
    let agents = vec![agent(10, -20, 3, 4)];
    let st = compute_statistics(&agents);
    assert_eq!(st.avg_velocity, Vec2 { x: 3, y: 4 });
    assert_eq!(st.avg_position, Vec2 { x: 10, y: -20 });
}

#[test]
fn statistics_two_agents() {
    let agents = vec![agent(0, 0, 10, -6), agent(20, 30, 4, -2)];
    let st = compute_statistics(&agents);
    assert_eq!(st.avg_velocity, Vec2 { x: 7, y: -4 });
    assert_eq!(st.avg_position, Vec2 { x: 10, y: 15 });
}

#[test]
fn statistics_hundred_agents() {
    // Agent k sits at (k, 2k) with velocity (3k, -k), k = 0..99; the
    // means over 100 agents divide the sums 4950, 9900, 14850, -4950.
    let mut agents = Vec::new();
    for k in 0..100i64 {
        agents.push(agent(k, 2 * k, 3 * k, -k));
    }
    let st = compute_statistics(&agents);
    assert_eq!(st.avg_position, Vec2 { x: 49, y: 99 });
    assert_eq!(st.avg_velocity, Vec2 { x: 148, y: -49 });
}

#[test]
fn statistics_empty_population() {
    let agents: Vec<Agent> = Vec::new();
    let st = compute_statistics(&agents);
    assert_eq!(st.avg_velocity, Vec2 { x: 0, y: 0 });
    assert_eq!(st.avg_position, Vec2 { x: 0, y: 0 });
}

#[test]
fn statistics_truncate_toward_zero() {
    let agents = vec![agent(0, 0, -3, 3), agent(0, 0, 0, 0)];
    let st = compute_statistics(&agents);
    // -3 / 2 truncates to -1, 3 / 2 to 1.
    assert_eq!(st.avg_velocity, Vec2 { x: -1, y: 1 });
}

#[test]
fn alignment_moves_toward_average() {
    let st = FlockStatistics {
        avg_velocity: Vec2 { x: 100, y: 200 },
        avg_position: Vec2 { x: 0, y: 0 },
    };
    let mut agents = vec![agent(0, 0, 0, 0), agent(0, 0, 100, 200)];
    // A weight of 500_000 / SCALE closes half the gap.
    alignment_stage(&mut agents, &st, 500_000);
    assert_eq!(agents[0].velocity, Vec2 { x: 50, y: 100 });
    assert_eq!(agents[1].velocity, Vec2 { x: 100, y: 200 });
}

#[test]
fn cohesion_pulls_toward_center() {
    let st = FlockStatistics {
        avg_velocity: Vec2 { x: 0, y: 0 },
        avg_position: Vec2 { x: 1_000, y: -1_000 },
    };
    let mut agents = vec![agent(0, 0, 7, 7)];
    // A weight of 10_000 / SCALE adds a hundredth of the offset.
    cohesion_stage(&mut agents, &st, 10_000);
    assert_eq!(agents[0].velocity, Vec2 { x: 17, y: -3 });
    assert_eq!(agents[0].position, Vec2 { x: 0, y: 0 });
}

#[test]
fn avoidance_pushes_first_of_pair_only() {
    // Velocities differ by (-2, 0), within the radius; the push is the
    // difference normalized to the avoid factor: (-2 * 6 / 2, 0).
    let mut agents = vec![agent(0, 0, 10, 0), agent(0, 0, 12, 0)];
    avoidance_stage(&mut agents, 50, 6);
    assert_eq!(agents[0].velocity, Vec2 { x: 4, y: 0 });
    assert_eq!(agents[1].velocity, Vec2 { x: 12, y: 0 });
}

#[test]
fn avoidance_ignores_equal_velocities() {
    let mut agents = vec![agent(0, 0, 10, 10), agent(5, 5, 10, 10)];
    avoidance_stage(&mut agents, 50, 6);
    assert_eq!(agents[0].velocity, Vec2 { x: 10, y: 10 });
    assert_eq!(agents[1].velocity, Vec2 { x: 10, y: 10 });
}

#[test]
fn avoidance_respects_radius() {
    // Difference magnitude 10 is not below a radius of 10.
    let mut agents = vec![agent(0, 0, 0, 0), agent(0, 0, 10, 0)];
    avoidance_stage(&mut agents, 10, 6);
    assert_eq!(agents[0].velocity, Vec2 { x: 0, y: 0 });
}

#[test]
fn boundary_pushes_away_from_edges() {
    // A 1000 x 1000 viewport: edges at +-500, margin 100.
    let vp = Viewport { width: 1_000, height: 1_000 };
    let mut agents = vec![
        agent(-401, 0, -5, 0),  // left band: vx forced positive
        agent(401, 0, 5, 0),    // right band: vx forced negative
        agent(0, 401, 0, 7),    // top band: vy forced negative
        agent(0, -401, 0, -7),  // bottom band: vy forced positive
        agent(0, 0, -5, -7),    // interior: untouched
    ];
    boundary_stage(&mut agents, &vp, 100);
    assert_eq!(agents[0].velocity, Vec2 { x: 5, y: 0 });
    assert_eq!(agents[1].velocity, Vec2 { x: -5, y: 0 });
    assert_eq!(agents[2].velocity, Vec2 { x: 0, y: -7 });
    assert_eq!(agents[3].velocity, Vec2 { x: 0, y: 7 });
    assert_eq!(agents[4].velocity, Vec2 { x: -5, y: -7 });
}

#[test]
fn boundary_corner_applies_both_axes() {
    let vp = Viewport { width: 1_000, height: 1_000 };
    let mut agents = vec![agent(-450, 450, -3, 9)];
    boundary_stage(&mut agents, &vp, 100);
    assert_eq!(agents[0].velocity, Vec2 { x: 3, y: -9 });
}

#[test]
fn limit_zero_velocity_gets_min_speed() {
    let r = limit_velocity(Vec2 { x: 0, y: 0 }, 7, 20);
    assert_eq!(r, Vec2 { x: 7, y: 0 });
    assert_eq!(r.x * r.x + r.y * r.y, 49);
}

#[test]
fn limit_slow_velocity_scaled_up() {
    // Speed 5 below a minimum of 20: scaled by 20 / 5.
    let r = limit_velocity(Vec2 { x: -3, y: 4 }, 20, 100);
    assert_eq!(r, Vec2 { x: -12, y: 16 });
}

#[test]
fn limit_tiny_diagonal_reclamped() {
    // (1, 1) has floor speed 1; scaling to a band with min == max == 10
    // overshoots to (10, 10), which is clamped back to (7, 7).
    let r = limit_velocity(Vec2 { x: 1, y: 1 }, 10, 10);
    assert_eq!(r, Vec2 { x: 7, y: 7 });
}

#[test]
fn limit_stage_preserves_positions() {
    let mut agents = vec![agent(11, 22, 300, 400)];
    speed_limit_stage(&mut agents, 5, 10);
    assert_eq!(agents[0].position, Vec2 { x: 11, y: 22 });
    assert_eq!(agents[0].velocity, Vec2 { x: 6, y: 8 });
}

#[test]
fn integration_adds_velocity_once() {
    let mut agents = vec![agent(100, -100, -7, 9), agent(0, 0, 1, 1)];
    integrate_stage(&mut agents);
    assert_eq!(agents[0].position, Vec2 { x: 93, y: -91 });
    assert_eq!(agents[0].velocity, Vec2 { x: -7, y: 9 });
    assert_eq!(agents[1].position, Vec2 { x: 1, y: 1 });
}
