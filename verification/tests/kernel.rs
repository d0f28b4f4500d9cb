use gravity_sim::color::color_of_mass;
use gravity_sim::num::{div_trunc, isqrt};
use gravity_sim::particle::Particle;

#[test]
fn div_trunc_rounds_toward_zero() {
    assert_eq!(div_trunc(7, 2), 3);
    assert_eq!(div_trunc(-7, 2), -3);
    assert_eq!(div_trunc(-10, 5), -2);
    assert_eq!(div_trunc(9, 10), 0);
    assert_eq!(div_trunc(-9, 10), 0);
    assert_eq!(div_trunc(0, 3), 0);
}

#[test]
fn isqrt_is_the_floor_square_root() {
    assert_eq!(isqrt(0), 0);
    assert_eq!(isqrt(1), 1);
    assert_eq!(isqrt(24), 4);
    assert_eq!(isqrt(25), 5);
    assert_eq!(isqrt(26), 5);
    assert_eq!(isqrt(1_000_000_000_000), 1_000_000);
    assert_eq!(isqrt(999_999_999_999), 999_999);
}

#[test]
fn radius_derives_from_mass_with_floor() {
    // mass 10 units: radius = max(2, 2) = 2 units.
    assert_eq!(Particle::new(0, 0, 0, 0, 10_000).radius, 2_000);
    // mass 50 units: radius = 10 units.
    assert_eq!(Particle::new(0, 0, 0, 0, 50_000).radius, 10_000);
    // mass 5 units: mass / 5 = 1 unit, floored to 2 units.
    assert_eq!(Particle::new(0, 0, 0, 0, 5_000).radius, 2_000);
    // Radius is monotone in mass.
    let light = Particle::new(0, 0, 0, 0, 20_000).radius;
    let heavy = Particle::new(0, 0, 0, 0, 20_001).radius;
    assert!(light <= heavy);
}

#[test]
fn new_particle_starts_with_zero_acceleration() {
    let p = Particle::new(7, -7, 3, -3, 10_000);
    assert_eq!(p.ax, 0);
    assert_eq!(p.ay, 0);
    assert_eq!(p.x, 7);
    assert_eq!(p.y, -7);
    assert_eq!(p.vx, 3);
    assert_eq!(p.vy, -3);
    assert_eq!(p.mass, 10_000);
}

#[test]
fn color_channels_follow_the_mass_formula() {
    // mass 30 units: byte = 150, channels (150, 75, 255 - 50).
    assert_eq!(color_of_mass(30_000), (150, 75, 205));
    // mass 10 units: byte = 50, channels (50, 25, 255 - 16).
    assert_eq!(color_of_mass(10_000), (50, 25, 239));
    // mass 60 units: byte saturates at 255, channels (255, 127, 255 - 85).
    assert_eq!(color_of_mass(60_000), (255, 127, 170));
    // the degenerate zero mass maps to (0, 0, 255).
    assert_eq!(color_of_mass(0), (0, 0, 255));
}

#[test]
fn color_is_deterministic_in_the_mass() {
    for mass in [1, 999, 10_000, 33_333, 50_000, 1_000_000] {
        assert_eq!(color_of_mass(mass), color_of_mass(mass));
    }
    // different masses with the same byte agree as well
    assert_eq!(color_of_mass(30_000), color_of_mass(30_199));
}
