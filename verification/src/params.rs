use vstd::prelude::*;

verus! {

// All lengths, speeds and masses are carried in thousandths of a unit
// ("milli-units"), so one arena unit is 1000 and the fixed time step
// dt = 0.1 s divides a rate by DT_DIV.

/// Thousandths of a unit per unit.
pub const SCALE: i64 = 1000;

/// dt = 0.1 s: one integration step adds rate / DT_DIV.
pub const DT_DIV: u64 = 10;

/// Softening floor: pair distances are clamped up to 5 units.
pub const DIST_FLOOR: i64 = 5000;

/// G = 0.1 in unit terms: pair force is G_NUM * m_i * m_j / d^2 in milli-units.
pub const G_NUM: i64 = 100;

/// A particle's radius is at least 2 units.
pub const MIN_RADIUS: i64 = 2000;

/// radius = max(mass / RADIUS_DIV, MIN_RADIUS).
pub const RADIUS_DIV: u64 = 5;

/// Bounce damping 0.8 = DAMP_NUM / DAMP_DEN.
pub const DAMP_NUM: i64 = 8;

pub const DAMP_DEN: u64 = 10;

// Machine limits. They keep every intermediate product inside i64 and are
// far beyond the documented defaults below.

/// Largest arena side: 10 000 units.
pub const MAX_DIM: i64 = 10_000_000;

/// Largest particle mass: 1 000 units.
pub const MAX_MASS: i64 = 1_000_000;

/// Largest radius that MAX_MASS can give.
pub const MAX_RADIUS: i64 = 200_000;

/// Largest particle population.
pub const MAX_COUNT: usize = 500;

/// Largest step budget.
pub const MAX_BUDGET: u64 = 10_000;

/// Largest speed a particle may be constructed with: one million units/s.
pub const MAX_INIT_SPEED: i64 = 1_000_000_000;

/// Largest pair force magnitude: G_NUM * MAX_MASS^2 / DIST_FLOOR^2.
pub const PAIR_FORCE_MAX: i64 = 4_000_000;

/// Largest acceleration one pair can add: PAIR_FORCE_MAX * SCALE / 1.
pub const PAIR_ACCEL_MAX: i64 = 4_000_000_000;

/// Accumulated acceleration stays below
/// (MAX_COUNT^2 + MAX_COUNT + 1) * PAIR_ACCEL_MAX.
pub const ACCEL_MAX: i64 = 1_100_000_000_000_000;

/// Largest speed one step can add: ACCEL_MAX / DT_DIV.
pub const VEL_GAIN: i64 = 110_000_000_000_000;

/// Speed bound before a step: MAX_INIT_SPEED + MAX_BUDGET * VEL_GAIN.
pub const VEL_CAP: i64 = 1_100_000_001_000_000_000;

/// Speed bound after integration: VEL_CAP + VEL_GAIN.
pub const VEL_LIMIT: i64 = 1_100_110_001_000_000_000;

/// Position bound right after integration, before the clamp:
/// MAX_DIM + VEL_LIMIT / DT_DIV, with room to spare.
pub const POS_LIMIT: i64 = 200_000_000_000_000_000;

// Documented defaults.

pub const DEFAULT_COUNT: usize = 50;

pub const DEFAULT_WIDTH: i64 = 800_000;

pub const DEFAULT_HEIGHT: i64 = 600_000;

pub const DEFAULT_MASS_MIN: i64 = 10_000;

pub const DEFAULT_MASS_MAX: i64 = 50_000;

pub const DEFAULT_BUDGET: u64 = 1000;

/// Random spawn positions keep 50 units from each arena edge.
pub const SPAWN_INSET: i64 = 50_000;

/// Random spawn speeds lie in [-1, 1] units/s per axis.
pub const SPAWN_SPEED: i64 = 1000;

} // verus!
