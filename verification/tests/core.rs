use slime_sim::{
    Config, ConfigError, Particle, Simulation, TrailMap, WorldDimensions, angle_to_unit_vec,
    read_neighborhood_average, readings_3x3, render, row_of, sense, spawn_particles, steer,
    to_index, wrap,
};
use slime_sim::agent::SensorControll;

fn err_of(r: Result<Simulation, ConfigError>) -> ConfigError {
    match r {
        Ok(_) => panic!("expected a configuration error"),
        Err(e) => e,
    }
}

fn dims(w: i32, h: i32) -> WorldDimensions {
    WorldDimensions::new(w, h).unwrap()
}

fn config_10x10() -> Config {
    Config {
        population_size: 1,
        width: 10,
        height: 10,
        sensor_angle_deg: 45,
        sensor_distance: 100,
        evaporation_threshold: 500_000,
        deposit_intensity: 100_000_000,
        step_speed: 5,
        turn_increment_deg: 10,
        tick_millis: 50,
    }
}

#[test]
fn angle_to_unit_vec_test() {
    let angle = 45;
    let unit_vec = angle_to_unit_vec(angle);
    assert_eq!(unit_vec, (1, 1));
}

#[test]
fn mean_filter_test() {
    let vec: Vec<u64> = vec![5, 3, 6, 2, 1, 9, 8, 4, 7];
    let dimensions = dims(3, 3);
    let reading = readings_3x3(&vec, 0, &dimensions);
    assert_eq!(reading, 11);
}

#[test]
fn readings_center_includes_all() {
    let vec: Vec<u64> = vec![5, 3, 6, 2, 1, 9, 8, 4, 7];
    let dimensions = dims(3, 3);
    assert_eq!(readings_3x3(&vec, 4, &dimensions), 45);
    assert_eq!(read_neighborhood_average(&vec, 4, &dimensions), 5);
}

#[test]
fn wrap_is_nonnegative_and_periodic() {
    assert_eq!(wrap(-3, 10), 7);
    assert_eq!(wrap(-13, 10), 7);
    assert_eq!(wrap(23, 10), 3);
    let x: i64 = -3;
    let w: i64 = 10;
    let base = wrap(x, w);
    for k in -3i64..=3 {
        assert_eq!(wrap(base + k * w, w), base);
    }
}

#[test]
fn index_roundtrip() {
    let d = dims(3, 3);
    assert_eq!(to_index(2, 1, &d), 5);
    assert_eq!(row_of(5, &d), 1);
}

#[test]
fn direction_vector_quadrants() {
    assert_eq!(angle_to_unit_vec(0), (1, 0));
    assert_eq!(angle_to_unit_vec(90), (0, 1));
    assert_eq!(angle_to_unit_vec(180), (-1, 0));
    assert_eq!(angle_to_unit_vec(270), (0, -1));
    assert_eq!(angle_to_unit_vec(135), (-1, 1));
    assert_eq!(angle_to_unit_vec(-45), (1, -1));
    assert_eq!(angle_to_unit_vec(360 + 45), (1, 1));
}

#[test]
fn steer_keeps_headings_unreduced() {
    // a right turn past a full circle is stored as 365, not wrapped to 5
    assert_eq!(steer(355, 900, 90, 0, true, 10), 365);
    assert_eq!(steer(-355, 0, 90, 900, true, 10), -365);
}

#[test]
fn heading_survives_unreduced_through_a_tick() {
    let config = config_10x10();
    let spawn = Particle { x: 0, y: 0, heading: 720 };
    let mut sim = Simulation::new(&config, vec![spawn]).unwrap();
    assert_eq!(sim.particles[0].heading, 720);
    sim.tick();
    // on an all-zero field the heading is kept as it came in, two full
    // turns and all, and movement reads it modulo one turn
    assert_eq!(sim.particles[0].heading, 720);
    assert_eq!(sim.agent_positions(), vec![(5, 0)]);
}

#[test]
fn steer_decision_table() {
    // forward strictly greatest: keep the heading
    assert_eq!(steer(100, 3, 9, 4, true, 10), 100);
    // turn away from the larger side reading
    assert_eq!(steer(100, 2, 5, 7, true, 10), 90);
    assert_eq!(steer(100, 7, 5, 2, true, 10), 110);
    // side tie without a unique forward extreme: keep the heading
    assert_eq!(steer(100, 4, 4, 4, true, 10), 100);
    // forward strictly least: the coin picks the side
    assert_eq!(steer(100, 5, 1, 6, true, 10), 110);
    assert_eq!(steer(100, 5, 1, 6, false, 10), 90);
}

#[test]
fn sensor_rig_mirrors_angles() {
    let rig = SensorControll::new(45, 100);
    assert_eq!(rig.left.angle, -45);
    assert_eq!(rig.forward.angle, 0);
    assert_eq!(rig.right.angle, 45);
    assert_eq!(rig.forward.distance, 100);
}

#[test]
fn sense_draws_coin_when_forward_least() {
    let d = dims(10, 10);
    let mut map = TrailMap::new(&d);
    // sensors at distance 2, side angle 90: probes at (5,3), (7,5), (5,7)
    map.trail[3 * 10 + 5] = 900;
    map.trail[7 * 10 + 5] = 900;
    let rig = SensorControll::new(90, 2);
    let p = Particle { x: 5, y: 5, heading: 0 };
    let h = sense(&rig, &p, &map, &d, 10);
    assert!(h == 10 || h == -10);
}

#[test]
fn deposit_is_idempotent() {
    let d = dims(3, 3);
    let mut once = TrailMap::new(&d);
    let mut twice = TrailMap::new(&d);
    once.deposit(&vec![(1, 1)], &d, 77);
    twice.deposit(&vec![(1, 1), (1, 1)], &d, 77);
    assert_eq!(once.trail, twice.trail);
    assert_eq!(once.trail[4], 77);
}

#[test]
fn diffusion_never_adds_mass() {
    let d = dims(3, 3);
    let mut map = TrailMap::new(&d);
    let cells: Vec<u64> = vec![90, 30, 60, 20, 10, 900, 80, 40, 70];
    for (i, v) in cells.iter().enumerate() {
        map.trail[i] = *v;
    }
    let before: u64 = map.trail.iter().sum();
    map.diffuse_and_evaporate(&d, 0);
    let after: u64 = map.trail.iter().sum();
    assert!(after <= before);
}

#[test]
fn end_to_end_single_tick() {
    let config = config_10x10();
    let spawn = Particle { x: 0, y: 0, heading: 0 };
    let mut sim = Simulation::new(&config, vec![spawn]).unwrap();
    sim.tick();
    // heading 0 on an all-zero field: no reading stands out, the heading is
    // kept, and the agent advances step_speed cells along the x axis.
    assert_eq!(sim.agent_positions(), vec![(5, 0)]);
    let field = sim.field_snapshot();
    for (i, cell) in field.iter().enumerate() {
        if i == 5 {
            assert_eq!(*cell, 100_000_000);
        } else {
            assert_eq!(*cell, 0);
        }
    }
}

#[test]
fn population_is_invariant_across_ticks() {
    let mut config = config_10x10();
    config.width = 20;
    config.height = 20;
    config.population_size = 37;
    let mut sim = Simulation::new_random(&config).unwrap();
    assert_eq!(sim.agent_positions().len(), 37);
    for _ in 0..5 {
        sim.tick();
        assert_eq!(sim.agent_positions().len(), 37);
    }
}

#[test]
fn spawns_are_in_bounds() {
    let d = dims(10, 10);
    let spawned = spawn_particles(50, &d);
    assert_eq!(spawned.len(), 50);
    for p in &spawned {
        assert!(0 <= p.x && p.x < 10);
        assert!(0 <= p.y && p.y < 10);
        assert!(0 <= p.heading && p.heading < 360);
    }
}

#[test]
fn config_rejections() {
    let good = config_10x10();
    assert!(Simulation::new_random(&good).is_ok());

    let mut c = config_10x10();
    c.width = 0;
    assert_eq!(err_of(Simulation::new_random(&c)), ConfigError::ZeroWidth);

    c = config_10x10();
    c.height = -3;
    assert_eq!(err_of(Simulation::new_random(&c)), ConfigError::ZeroHeight);

    c = config_10x10();
    c.width = 65536;
    c.height = 65536;
    assert_eq!(err_of(Simulation::new_random(&c)), ConfigError::WorldTooLarge);

    c = config_10x10();
    c.sensor_angle_deg = 0x4000_0001;
    assert_eq!(
        err_of(Simulation::new_random(&c)),
        ConfigError::SensorAngleOutOfRange
    );

    c = config_10x10();
    c.sensor_distance = -1;
    assert_eq!(
        err_of(Simulation::new_random(&c)),
        ConfigError::SensorDistanceOutOfRange
    );

    c = config_10x10();
    c.deposit_intensity = slime_sim::INTENSITY_CAP + 1;
    assert_eq!(
        err_of(Simulation::new_random(&c)),
        ConfigError::DepositIntensityTooHigh
    );

    c = config_10x10();
    c.step_speed = -1;
    assert_eq!(
        err_of(Simulation::new_random(&c)),
        ConfigError::StepSpeedOutOfRange
    );

    c = config_10x10();
    c.turn_increment_deg = 0x4000_0001;
    assert_eq!(
        err_of(Simulation::new_random(&c)),
        ConfigError::TurnIncrementOutOfRange
    );

    c = config_10x10();
    let off_grid = Particle { x: 10, y: 0, heading: 0 };
    assert_eq!(
        err_of(Simulation::new(&c, vec![off_grid])),
        ConfigError::SpawnOutOfBounds
    );
}

#[test]
fn render_scales_and_saturates() {
    let d = dims(4, 1);
    let mut map = TrailMap::new(&d);
    map.trail[0] = 0;
    map.trail[1] = 50;
    map.trail[2] = 100;
    map.trail[3] = 200;
    let alphas = render(&map, &d, 100);
    assert_eq!(alphas, vec![0u8, 127, 255, 255]);
}
