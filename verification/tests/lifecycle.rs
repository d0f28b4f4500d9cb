use gravity_sim::particle::Particle;
use gravity_sim::sim::{Config, ConfigError, Simulation};

fn default_cfg() -> Config {
    Config::default()
}

fn one_particle_cfg(width: i64, height: i64, budget: u64) -> Config {
    Config::new(1, width, height, 10_000, 50_000, budget).unwrap()
}

#[test]
fn config_default_matches_the_documented_values() {
    let c = default_cfg();
    assert_eq!(c.count, 50);
    assert_eq!(c.width, 800_000);
    assert_eq!(c.height, 600_000);
    assert_eq!(c.mass_min, 10_000);
    assert_eq!(c.mass_max, 50_000);
    assert_eq!(c.step_budget, 1000);
}

#[test]
fn config_rejects_each_bad_parameter() {
    assert_eq!(
        Config::new(0, 800_000, 600_000, 10_000, 50_000, 1000),
        Err(ConfigError::NoParticles)
    );
    assert_eq!(
        Config::new(50, 0, 600_000, 10_000, 50_000, 1000),
        Err(ConfigError::EmptyArena)
    );
    assert_eq!(
        Config::new(50, 800_000, -5, 10_000, 50_000, 1000),
        Err(ConfigError::EmptyArena)
    );
    assert_eq!(
        Config::new(50, 800_000, 600_000, 0, 50_000, 1000),
        Err(ConfigError::BadMassRange)
    );
    assert_eq!(
        Config::new(50, 800_000, 600_000, 50_000, 10_000, 1000),
        Err(ConfigError::BadMassRange)
    );
    assert_eq!(
        Config::new(501, 800_000, 600_000, 10_000, 50_000, 1000),
        Err(ConfigError::TooLarge)
    );
    assert_eq!(
        Config::new(50, 800_000, 600_000, 10_000, 50_000, 10_001),
        Err(ConfigError::TooLarge)
    );
    let ok = Config::new(2, 400_000, 300_000, 10_000, 20_000, 5).unwrap();
    assert_eq!(ok.count, 2);
    assert_eq!(ok.step_budget, 5);
}

#[test]
fn from_particles_checks_count_and_particles() {
    let cfg = one_particle_cfg(800_000, 600_000, 1000);
    assert!(matches!(
        Simulation::from_particles(cfg, vec![], 0),
        Err(ConfigError::WrongCount)
    ));
    // A particle with a hand-broken radius is rejected.
    let mut bad = Particle::new(400_000, 300_000, 0, 0, 10_000);
    bad.radius = 1;
    assert!(matches!(
        Simulation::from_particles(cfg, vec![bad], 0),
        Err(ConfigError::BadParticle)
    ));
    let good = Particle::new(400_000, 300_000, 0, 0, 10_000);
    let sim = Simulation::from_particles(cfg, vec![good], 7).unwrap();
    assert_eq!(sim.step_count, 0);
    assert!(!sim.finished);
    assert_eq!(sim.execution_micros, None);
    assert_eq!(sim.start_micros, 7);
}

#[test]
fn budget_reached_after_1001_steps_then_steps_are_noops() {
    let cfg = one_particle_cfg(800_000, 600_000, 1000);
    let p = Particle::new(400_000, 300_000, 0, 0, 10_000);
    let mut sim = Simulation::from_particles(cfg, vec![p], 100).unwrap();
    for i in 0..1000u64 {
        sim.step(100 + i);
        assert!(!sim.finished, "finished too early at call {}", i + 1);
        assert_eq!(sim.execution_micros, None);
        assert_eq!(sim.step_count, i + 1);
    }
    sim.step(5100);
    assert!(sim.finished);
    assert_eq!(sim.step_count, 1001);
    assert_eq!(sim.execution_micros, Some(5000));
    // Further calls are no-ops: the counter stays at 1001 and the captured
    // time does not move.
    let x_before = sim.particles[0].x;
    sim.step(999_999);
    sim.step(1_000_000);
    assert_eq!(sim.step_count, 1001);
    assert_eq!(sim.execution_micros, Some(5000));
    assert_eq!(sim.particles[0].x, x_before);
}

#[test]
fn average_step_time_is_derived_on_completion() {
    let cfg = one_particle_cfg(800_000, 600_000, 2);
    let p = Particle::new(400_000, 300_000, 0, 0, 10_000);
    let mut sim = Simulation::from_particles(cfg, vec![p], 0).unwrap();
    assert_eq!(sim.average_step_nanos(), None);
    sim.step(1000);
    sim.step(2000);
    assert_eq!(sim.average_step_nanos(), None);
    sim.step(3000);
    assert!(sim.finished);
    assert_eq!(sim.step_count, 3);
    assert_eq!(sim.execution_micros, Some(3000));
    // 3000 us over 3 steps: one million nanoseconds per step.
    assert_eq!(sim.average_step_nanos(), Some(1_000_000));
}

#[test]
fn boundary_reflection_flips_and_clamps() {
    // radius 2 units; x sits one unit from the origin, well past the low
    // edge, moving inward at 1 unit/s.
    let cfg = one_particle_cfg(800_000, 600_000, 1000);
    let p = Particle::new(1_000, 300_000, 1_000, 0, 10_000);
    let mut sim = Simulation::from_particles(cfg, vec![p], 0).unwrap();
    sim.step(1);
    let q = sim.particles[0];
    // velocity flipped and damped to -0.8 units/s, position clamped to the
    // radius.
    assert_eq!(q.vx, -800);
    assert_eq!(q.x, 2_000);
    assert_eq!(q.vy, 0);
    assert_eq!(q.y, 300_000);
}

#[test]
fn equal_mass_pair_accelerations_balance_exactly() {
    let cfg = Config::new(2, 800_000, 600_000, 10_000, 50_000, 1000).unwrap();
    let a = Particle::new(100_000, 300_000, 0, 0, 50_000);
    let b = Particle::new(110_000, 300_000, 0, 0, 50_000);
    let mut sim = Simulation::from_particles(cfg, vec![a, b], 0).unwrap();
    sim.step(1);
    let (p0, p1) = (sim.particles[0], sim.particles[1]);
    // F = 0.1 * 50 * 50 / 10^2 = 2.5; a = F / 50 = 0.05 units/s^2 = 50 milli.
    assert_eq!(p0.ax, 50);
    assert_eq!(p1.ax, -50);
    assert_eq!(p0.ax + p1.ax, 0);
    assert_eq!(p0.ay + p1.ay, 0);
    assert_eq!(p0.vx, 5);
    assert_eq!(p1.vx, -5);
}

#[test]
fn symmetric_pair_stays_mirrored_for_many_steps() {
    let cfg = Config::new(2, 800_000, 600_000, 10_000, 50_000, 1000).unwrap();
    let a = Particle::new(300_000, 250_000, 0, 0, 20_000);
    let b = Particle::new(500_000, 350_000, 0, 0, 20_000);
    let mut sim = Simulation::from_particles(cfg, vec![a, b], 0).unwrap();
    for i in 0..25u64 {
        sim.step(i);
        let (p0, p1) = (sim.particles[0], sim.particles[1]);
        assert_eq!(p0.x + p1.x, 800_000);
        assert_eq!(p0.y + p1.y, 600_000);
        assert_eq!(p0.vx, -p1.vx);
        assert_eq!(p0.vy, -p1.vy);
        assert_eq!(p0.ax, -p1.ax);
        assert_eq!(p0.ay, -p1.ay);
    }
}

#[test]
fn single_particle_keeps_its_velocity_away_from_walls() {
    let cfg = one_particle_cfg(800_000, 600_000, 1000);
    let p = Particle::new(400_000, 300_000, 5_000, -3_000, 10_000);
    let mut sim = Simulation::from_particles(cfg, vec![p], 0).unwrap();
    for i in 0..5u64 {
        sim.step(i);
    }
    let q = sim.particles[0];
    // No pairs, no walls hit: velocity untouched, position drifts by
    // v * dt each step.
    assert_eq!(q.vx, 5_000);
    assert_eq!(q.vy, -3_000);
    assert_eq!(q.x, 400_000 + 5 * 500);
    assert_eq!(q.y, 300_000 - 5 * 300);
    assert_eq!(q.ax, 0);
    assert_eq!(q.ay, 0);
}

#[test]
fn coincident_particles_stay_finite_under_the_floor() {
    let cfg = Config::new(2, 800_000, 600_000, 10_000, 50_000, 1000).unwrap();
    let a = Particle::new(400_000, 300_000, 0, 0, 30_000);
    let b = Particle::new(400_000, 300_000, 0, 0, 30_000);
    let mut sim = Simulation::from_particles(cfg, vec![a, b], 0).unwrap();
    for i in 0..10u64 {
        sim.step(i);
    }
    let (p0, p1) = (sim.particles[0], sim.particles[1]);
    // The zero displacement gives zero force components under the 5-unit
    // floor: nothing moves and nothing blows up.
    assert_eq!(p0.ax, 0);
    assert_eq!(p0.ay, 0);
    assert_eq!(p0.x, 400_000);
    assert_eq!(p0.y, 300_000);
    assert_eq!(p1.x, 400_000);
    assert_eq!(p1.y, 300_000);
}

#[test]
fn random_population_respects_the_configured_ranges() {
    macroquad::rand::srand(12345);
    let cfg = default_cfg();
    let sim = Simulation::new_random(cfg, 42).unwrap();
    assert_eq!(sim.particles.len(), 50);
    assert_eq!(sim.step_count, 0);
    assert!(!sim.finished);
    assert_eq!(sim.start_micros, 42);
    for p in sim.particles.iter() {
        assert!(50_000 <= p.x && p.x <= 750_000);
        assert!(50_000 <= p.y && p.y <= 550_000);
        assert!(-1_000 <= p.vx && p.vx <= 1_000);
        assert!(-1_000 <= p.vy && p.vy <= 1_000);
        assert!(10_000 <= p.mass && p.mass <= 50_000);
        let expected_radius = std::cmp::max(p.mass / 5, 2_000);
        assert_eq!(p.radius, expected_radius);
        assert_eq!(p.ax, 0);
        assert_eq!(p.ay, 0);
    }
}

#[test]
fn random_population_steps_without_leaving_the_arena() {
    macroquad::rand::srand(987);
    let cfg = default_cfg();
    let mut sim = Simulation::new_random(cfg, 0).unwrap();
    for i in 0..20u64 {
        sim.step(i);
    }
    assert_eq!(sim.step_count, 20);
    for p in sim.particles.iter() {
        assert!(p.radius <= p.x && p.x <= 800_000 - p.radius);
        assert!(p.radius <= p.y && p.y <= 600_000 - p.radius);
    }
}

#[test]
fn random_construction_needs_room_for_the_inset() {
    let cfg = Config::new(5, 90_000, 600_000, 10_000, 50_000, 1000).unwrap();
    assert!(matches!(
        Simulation::new_random(cfg, 0),
        Err(ConfigError::ArenaTooSmall)
    ));
    let bad = Config {
        count: 0,
        ..Config::default()
    };
    assert!(matches!(
        Simulation::new_random(bad, 0),
        Err(ConfigError::NoParticles)
    ));
}

#[test]
fn snapshot_reports_positions_radii_and_colors() {
    let cfg = Config::new(2, 800_000, 600_000, 10_000, 50_000, 1000).unwrap();
    let a = Particle::new(100_000, 200_000, 0, 0, 30_000);
    let b = Particle::new(700_000, 400_000, 0, 0, 10_000);
    let sim = Simulation::from_particles(cfg, vec![a, b], 0).unwrap();
    let snap = sim.snapshot();
    assert_eq!(snap.len(), 2);
    assert_eq!(snap[0].x, 100_000);
    assert_eq!(snap[0].y, 200_000);
    assert_eq!(snap[0].radius, 6_000);
    assert_eq!(snap[0].color, (150, 75, 205));
    assert_eq!(snap[1].x, 700_000);
    assert_eq!(snap[1].radius, 2_000);
    assert_eq!(snap[1].color, (50, 25, 239));
}
