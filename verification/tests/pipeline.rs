use boids::agent::Agent;
use boids::params::{SimulationParameters, Viewport};
use boids::tick::run_tick;
use boids::vec2::Vec2;

fn agent(px: i64, py: i64, vx: i64, vy: i64) -> Agent {
    Agent {
        position: Vec2 { x: px, y: py },
        velocity: Vec2 { x: vx, y: vy },
    }
}

fn quiet_params() -> SimulationParameters {
    SimulationParameters {
        avoid_factor: 0,
        matching_factor: 0,
        centering_factor: 0,
        neighbor_radius: 0,
        min_speed: 1,
        max_speed: 1_000_000,
        margin: 0,
        }
}

fn viewport() -> Viewport {
    Viewport { width: 1_000_000, height: 1_000_000 }
}

#[test]
fn tick_is_deterministic() {
    let params = SimulationParameters {
        avoid_factor: 50,
        matching_factor: 500_000,
        centering_factor: 500,
        neighbor_radius: 50_000,
        min_speed: 2_000,
        max_speed: 5_000,
        margin: 100_000,
    };
    let vp = Viewport { width: 1_280_000, height: 720_000 };
    let start = vec![
        agent(-40_000, 13_000, 2_000, 0),
        agent(25_000, -8_000, -1_500, 1_200),
        agent(0, 0, 900, -3_300),
        agent(610_000, 300_000, 4_000, 4_000),
    ];
    let mut first = start.clone();
    let mut second = start.clone();
    run_tick(&mut first, &params, &vp);
    run_tick(&mut second, &params, &vp);
    assert_eq!(first, second);
}

#[test]
fn tick_keeps_population_size() {
    let params = quiet_params();
    let vp = viewport();
    let mut agents = vec![
        agent(0, 0, 3, 4),
        agent(100, 100, -3, -4),
        agent(-100, 50, 5, 0),
    ];
    run_tick(&mut agents, &params, &vp);
    assert_eq!(agents.len(), 3);
    let mut empty: Vec<Agent> = Vec::new();
    run_tick(&mut empty, &params, &vp);
    assert_eq!(empty.len(), 0);
}

#[test]
fn quiet_tick_only_integrates() {
    // With all weights zero and a huge speed band, a tick is just
    // position += velocity.
    let params = quiet_params();
    let vp = viewport();
    let mut agents = vec![agent(10, -20, 3, 4)];
    run_tick(&mut agents, &params, &vp);
    assert_eq!(agents[0].position, Vec2 { x: 13, y: -16 });
    assert_eq!(agents[0].velocity, Vec2 { x: 3, y: 4 });
}

#[test]
fn tick_clamps_speed_band() {
    let mut params = quiet_params();
    params.min_speed = 5;
    params.max_speed = 10;
    let vp = viewport();
    let mut agents = vec![
        agent(0, 0, 30, 40),  // speed 50, clamped down
        agent(0, 0, 0, 0),    // zero, synthesized at min speed
        agent(0, 0, 3, 4),    // speed 5, kept
    ];
    run_tick(&mut agents, &params, &vp);
    // 30 * 10 / 50 == 6, 40 * 10 / 50 == 8: magnitude exactly 10.
    assert_eq!(agents[0].velocity, Vec2 { x: 6, y: 8 });
    assert_eq!(agents[1].velocity, Vec2 { x: 5, y: 0 });
    assert_eq!(agents[2].velocity, Vec2 { x: 3, y: 4 });
}

#[test]
fn speeds_stay_in_band_after_tick() {
    let params = SimulationParameters {
        avoid_factor: 1_000,
        matching_factor: 250_000,
        centering_factor: 2_000,
        neighbor_radius: 100_000,
        min_speed: 2_000,
        max_speed: 5_000,
        margin: 50_000,
    };
    let vp = Viewport { width: 800_000, height: 600_000 };
    let mut agents = vec![
        agent(-350_000, 0, -40_000, 0),
        agent(-350_000, 10, -39_999, 5),
        agent(200_000, 200_000, 1, 0),
        agent(0, 0, 0, 0),
        agent(5, 5, 2_000, 2_000),
    ];
    run_tick(&mut agents, &params, &vp);
    for a in agents.iter() {
        let m = a.velocity.x as i128 * a.velocity.x as i128
            + a.velocity.y as i128 * a.velocity.y as i128;
        let min = params.min_speed as i128;
        let max = params.max_speed as i128;
        assert!(m <= max * max + 2 * max, "speed above band: {m}");
        assert!(m + 4 * min + 1 >= min * min, "speed below band: {m}");
    }
}
