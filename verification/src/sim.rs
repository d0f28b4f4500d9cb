use vstd::prelude::*;
use vstd::pervasive::VecAdditionalExecFns;
use vstd::arithmetic::div_mod::{
    lemma_div_is_ordered, lemma_div_is_ordered_by_denominator, lemma_div_pos_is_pos,
};
use crate::num::{
    div_trunc, div_tz, int_abs, int_max, isqrt, lemma_div_tz_product_bound, lemma_div_tz_within,
    sqrt_floor,
};
use crate::params::{
    ACCEL_MAX, DEFAULT_BUDGET, DEFAULT_COUNT, DEFAULT_HEIGHT, DEFAULT_MASS_MAX, DEFAULT_MASS_MIN,
    DEFAULT_WIDTH, DIST_FLOOR, G_NUM, MAX_BUDGET, MAX_COUNT, MAX_DIM, MAX_INIT_SPEED, MAX_MASS,
    MAX_RADIUS, MIN_RADIUS, PAIR_ACCEL_MAX, PAIR_FORCE_MAX, RADIUS_DIV, SCALE, SPAWN_INSET,
    SPAWN_SPEED, VEL_CAP, VEL_GAIN,
};
use crate::particle::{integrate_spec, radius_spec, reflect_spec, Particle, PState};
use crate::color::{color_of_mass, color_spec};
use crate::rng::random_in_range;

verus! {

// ---------------------------------------------------------------------------
// The step model: what one discrete time step does, stated over ghost states.
// ---------------------------------------------------------------------------

/// The ghost states of a particle collection.
pub open spec fn views(s: Seq<Particle>) -> Seq<PState> {
    s.map_values(|p: Particle| p@)
}

pub open spec fn reset_one(p: PState) -> PState {
    PState { ax: 0, ay: 0, ..p }
}

/// Phase one: every acceleration is cleared.
pub open spec fn reset_spec(s: Seq<PState>) -> Seq<PState> {
    s.map_values(|p: PState| reset_one(p))
}

pub open spec fn dist2_spec(pi: PState, pj: PState) -> int {
    let dx = pj.x - pi.x;
    let dy = pj.y - pi.y;
    dx * dx + dy * dy
}

/// Pair distance, floored at 5 units of softening.
pub open spec fn eff_dist_spec(pi: PState, pj: PState) -> int {
    int_max(sqrt_floor(dist2_spec(pi, pj)), DIST_FLOOR as int)
}

/// F = G * m_i * m_j / d^2, in milli-units.
pub open spec fn force_spec(pi: PState, pj: PState) -> int {
    let d = eff_dist_spec(pi, pj);
    ((G_NUM as int) * pi.mass * pj.mass) / (d * d)
}

/// Fx = F * dx / d.
pub open spec fn force_x_spec(pi: PState, pj: PState) -> int {
    div_tz(force_spec(pi, pj) * (pj.x - pi.x), eff_dist_spec(pi, pj))
}

/// Fy = F * dy / d.
pub open spec fn force_y_spec(pi: PState, pj: PState) -> int {
    div_tz(force_spec(pi, pj) * (pj.y - pi.y), eff_dist_spec(pi, pj))
}

/// The acceleration a force component adds onto a mass.
pub open spec fn accel_delta_spec(f: int, mass: int) -> int {
    div_tz(f * (SCALE as int), mass)
}

/// One unordered pair: the attraction pulls i toward j and j toward i,
/// equal and opposite.
pub open spec fn apply_pair_spec(s: Seq<PState>, i: int, j: int) -> Seq<PState>
    recommends
        0 <= i < j < s.len(),
{
    let pi = s[i];
    let pj = s[j];
    let fx = force_x_spec(pi, pj);
    let fy = force_y_spec(pi, pj);
    let pi2 = PState {
        ax: pi.ax + accel_delta_spec(fx, pi.mass),
        ay: pi.ay + accel_delta_spec(fy, pi.mass),
        ..pi
    };
    let pj2 = PState {
        ax: pj.ax - accel_delta_spec(fx, pj.mass),
        ay: pj.ay - accel_delta_spec(fy, pj.mass),
        ..pj
    };
    s.update(i, pi2).update(j, pj2)
}

/// The pairs still to process from row i, column j on, in row-major order.
pub open spec fn accum_from_spec(s: Seq<PState>, i: int, j: int) -> Seq<PState>
    recommends
        0 <= i < j,
    decreases s.len() - i, int_max(s.len() + 1 - j, 0),
{
    if i < 0 || j <= i || i + 1 >= s.len() {
        s
    } else if j >= s.len() {
        accum_from_spec(s, i + 1, i + 2)
    } else {
        accum_from_spec(apply_pair_spec(s, i, j), i, j + 1)
    }
}

/// Phase two: every unordered pair processed exactly once.
pub open spec fn accum_spec(s: Seq<PState>) -> Seq<PState> {
    accum_from_spec(s, 0, 1)
}

/// Phases three and four for one particle: integrate, then reflect.
pub open spec fn move_spec(w: int, h: int, p: PState) -> PState {
    reflect_spec(w, h, integrate_spec(p))
}

/// The whole per-particle part of a step.
pub open spec fn step_particles_spec(w: int, h: int, s: Seq<PState>) -> Seq<PState> {
    accum_spec(reset_spec(s)).map_values(|p: PState| move_spec(w, h, p))
}

// ---------------------------------------------------------------------------
// Validity predicates.
// ---------------------------------------------------------------------------

pub open spec fn mass_ok(p: PState) -> bool {
    1 <= p.mass <= MAX_MASS
}

pub open spec fn pos_ok(p: PState) -> bool {
    int_abs(p.x) <= MAX_DIM && int_abs(p.y) <= MAX_DIM
}

/// The step-independent part of a running particle's validity.
pub open spec fn particle_ok(p: PState) -> bool {
    mass_ok(p) && pos_ok(p) && p.radius == radius_spec(p.mass) && MIN_RADIUS <= p.radius
        <= MAX_RADIUS && int_abs(p.ax) <= ACCEL_MAX && int_abs(p.ay) <= ACCEL_MAX
}

/// Speeds grow by at most VEL_GAIN per completed step.
pub open spec fn vel_ok(p: PState, steps: int) -> bool {
    int_abs(p.vx) <= MAX_INIT_SPEED + steps * VEL_GAIN && int_abs(p.vy) <= MAX_INIT_SPEED + steps
        * VEL_GAIN
}

/// What a freshly constructed particle must satisfy.
pub open spec fn particle_init_ok(p: PState) -> bool {
    mass_ok(p) && pos_ok(p) && p.radius == radius_spec(p.mass) && int_abs(p.vx) <= MAX_INIT_SPEED
        && int_abs(p.vy) <= MAX_INIT_SPEED && p.ax == 0 && p.ay == 0
}

/// Everything of two states but the accumulated acceleration.
pub open spec fn same_static(a: PState, b: PState) -> bool {
    a.x == b.x && a.y == b.y && a.vx == b.vx && a.vy == b.vy && a.mass == b.mass && a.radius
        == b.radius
}

// ---------------------------------------------------------------------------
// The pair kernel.
// ---------------------------------------------------------------------------

/// The four acceleration deltas of one pair: onto i (added) and onto j
/// (subtracted), per axis.
fn pair_accel(pi: &Particle, pj: &Particle) -> (d: (i64, i64, i64, i64))
    requires
        mass_ok(pi@),
        mass_ok(pj@),
        pos_ok(pi@),
        pos_ok(pj@),
    ensures
        d.0 == accel_delta_spec(force_x_spec(pi@, pj@), pi@.mass),
        d.1 == accel_delta_spec(force_y_spec(pi@, pj@), pi@.mass),
        d.2 == accel_delta_spec(force_x_spec(pi@, pj@), pj@.mass),
        d.3 == accel_delta_spec(force_y_spec(pi@, pj@), pj@.mass),
        int_abs(d.0 as int) <= PAIR_ACCEL_MAX,
        int_abs(d.1 as int) <= PAIR_ACCEL_MAX,
        int_abs(d.2 as int) <= PAIR_ACCEL_MAX,
        int_abs(d.3 as int) <= PAIR_ACCEL_MAX,
{
    let dx: i64 = pj.x - pi.x;
    let dy: i64 = pj.y - pi.y;
    assert(dx * dx <= 400_000_000_000_000 && dx * dx >= 0) by (nonlinear_arith)
        requires
            -20_000_000 <= dx <= 20_000_000,
    ;
    assert(dy * dy <= 400_000_000_000_000 && dy * dy >= 0) by (nonlinear_arith)
        requires
            -20_000_000 <= dy <= 20_000_000,
    ;
    let d2u: u64 = ((dx * dx) as u64) + ((dy * dy) as u64);
    let root: u64 = isqrt(d2u);
    assert(root <= 30_000_000) by (nonlinear_arith)
        requires
            root * root <= 800_000_000_000_000u64,
    ;
    let dist: u64 = if root < (DIST_FLOOR as u64) {
        DIST_FLOOR as u64
    } else {
        root
    };
    assert(dist == eff_dist_spec(pi@, pj@));
    assert(25_000_000 <= dist * dist <= 900_000_000_000_000) by (nonlinear_arith)
        requires
            5000 <= dist <= 30_000_000u64,
    ;
    let dd: u64 = dist * dist;
    let mi: u64 = pi.mass as u64;
    let mj: u64 = pj.mass as u64;
    let gm: u64 = (G_NUM as u64) * mi;
    assert(gm * mj <= 100_000_000_000_000 && gm * mj >= 100) by (nonlinear_arith)
        requires
            100 <= gm <= 100_000_000u64,
            1 <= mj <= 1_000_000u64,
    ;
    let fnum: u64 = gm * mj;
    assert(fnum as int == (G_NUM as int) * (pi@.mass) * (pj@.mass)) by (nonlinear_arith)
        requires
            gm == 100 * mi,
            fnum == gm * mj,
            mi == pi@.mass,
            mj == pj@.mass,
            G_NUM == 100i64,
    ;
    let fmag: u64 = fnum / dd;
    proof {
        lemma_div_is_ordered_by_denominator(fnum as int, 25_000_000, dd as int);
        lemma_div_is_ordered(fnum as int, 100_000_000_000_000int, 25_000_000);
        lemma_div_pos_is_pos(fnum as int, dd as int);
    }
    assert(0 <= fmag <= PAIR_FORCE_MAX);
    assert(fmag == force_spec(pi@, pj@));
    // |dx| and |dy| never exceed the effective distance.
    assert(-(dist as int) <= dx <= dist as int) by (nonlinear_arith)
        requires
            dx * dx <= d2u,
            d2u < (root + 1) * (root + 1),
            0 <= root <= dist,
    ;
    assert(-(dist as int) <= dy <= dist as int) by (nonlinear_arith)
        requires
            dy * dy <= d2u,
            d2u < (root + 1) * (root + 1),
            0 <= root <= dist,
    ;
    assert(-((fmag as int) * (dist as int)) <= (fmag as int) * (dx as int) <= (fmag as int)
        * (dist as int) && (fmag as int) * (dist as int) <= 120_000_000_000_000) by (nonlinear_arith)
        requires
            -(dist as int) <= dx as int <= dist as int,
            0 <= fmag as int <= 4_000_000,
            5000 <= dist as int <= 30_000_000,
    ;
    assert(-((fmag as int) * (dist as int)) <= (fmag as int) * (dy as int) <= (fmag as int)
        * (dist as int)) by (nonlinear_arith)
        requires
            -(dist as int) <= dy as int <= dist as int,
            0 <= fmag as int,
    ;
    let fx: i64 = div_trunc((fmag as i64) * dx, dist);
    let fy: i64 = div_trunc((fmag as i64) * dy, dist);
    proof {
        lemma_div_tz_product_bound((fmag as int) * (dx as int), dist as int, fmag as int);
        lemma_div_tz_product_bound((fmag as int) * (dy as int), dist as int, fmag as int);
    }
    assert(int_abs(fx as int) <= PAIR_FORCE_MAX && int_abs(fy as int) <= PAIR_FORCE_MAX);
    assert(fx == force_x_spec(pi@, pj@));
    assert(fy == force_y_spec(pi@, pj@));
    let d0: i64 = div_trunc(fx * SCALE, mi);
    let d1: i64 = div_trunc(fy * SCALE, mi);
    let d2: i64 = div_trunc(fx * SCALE, mj);
    let d3: i64 = div_trunc(fy * SCALE, mj);
    proof {
        lemma_div_tz_within((fx as int) * (SCALE as int), mi as int, PAIR_ACCEL_MAX as int);
        lemma_div_tz_within((fy as int) * (SCALE as int), mi as int, PAIR_ACCEL_MAX as int);
        lemma_div_tz_within((fx as int) * (SCALE as int), mj as int, PAIR_ACCEL_MAX as int);
        lemma_div_tz_within((fy as int) * (SCALE as int), mj as int, PAIR_ACCEL_MAX as int);
        lemma_div_is_ordered_by_denominator(PAIR_ACCEL_MAX as int, 1, mi as int);
        lemma_div_is_ordered_by_denominator(PAIR_ACCEL_MAX as int, 1, mj as int);
    }
    (d0, d1, d2, d3)
}

// ---------------------------------------------------------------------------
// The three phase kernels over the whole collection.
// ---------------------------------------------------------------------------

/// Clear every particle's accumulated acceleration.
fn reset_accels(ps: &mut Vec<Particle>)
    ensures
        views(final(ps)@) == reset_spec(views(old(ps)@)),
        final(ps)@.len() == old(ps)@.len(),
        forall|k: int|
            0 <= k < old(ps)@.len() ==> same_static(#[trigger] final(ps)@[k]@, old(ps)@[k]@),
        forall|k: int|
            0 <= k < old(ps)@.len() ==> (#[trigger] final(ps)@[k]@).ax == 0 && final(ps)@[k]@.ay
                == 0,
{
    let n: usize = ps.len();
    let mut i: usize = 0;
    while i < n
        invariant
            i <= n,
            ps@.len() == n,
            n == old(ps)@.len(),
            forall|k: int| 0 <= k < i ==> #[trigger] ps@[k]@ == reset_one(old(ps)@[k]@),
            forall|k: int| i <= k < n ==> #[trigger] ps@[k] == old(ps)@[k],
        decreases n - i,
    {
        let p = ps[i];
        ps.set(i, Particle { ax: 0, ay: 0, ..p });
        i = i + 1;
    }
    assert(views(ps@) =~= reset_spec(views(old(ps)@)));
}

/// Accumulate the pairwise attractions, each unordered pair exactly once.
fn accumulate(ps: &mut Vec<Particle>)
    requires
        old(ps)@.len() <= MAX_COUNT,
        forall|k: int|
            0 <= k < old(ps)@.len() ==> mass_ok(#[trigger] old(ps)@[k]@) && pos_ok(old(ps)@[k]@),
        forall|k: int|
            0 <= k < old(ps)@.len() ==> (#[trigger] old(ps)@[k]@).ax == 0 && old(ps)@[k]@.ay == 0,
    ensures
        views(final(ps)@) == accum_spec(views(old(ps)@)),
        final(ps)@.len() == old(ps)@.len(),
        forall|k: int|
            0 <= k < old(ps)@.len() ==> same_static(#[trigger] final(ps)@[k]@, old(ps)@[k]@),
        forall|k: int|
            0 <= k < old(ps)@.len() ==> int_abs((#[trigger] final(ps)@[k]@).ax) <= ACCEL_MAX
                && int_abs(final(ps)@[k]@.ay) <= ACCEL_MAX,
{
    let n: usize = ps.len();
    let ghost s0 = views(old(ps)@);
    let ghost mut cnt: int = 0;
    let mut i: usize = 0;
    assert(accum_spec(s0) == accum_from_spec(views(ps@), 0int, 1int));
    while i < n
        invariant
            i <= n,
            n <= MAX_COUNT,
            ps@.len() == n,
            n == s0.len(),
            s0 == views(old(ps)@),
            accum_spec(s0) == accum_from_spec(views(ps@), i as int, i as int + 1),
            forall|k: int| 0 <= k < n ==> same_static(#[trigger] ps@[k]@, s0[k]),
            forall|k: int| 0 <= k < n ==> mass_ok(#[trigger] ps@[k]@) && pos_ok(ps@[k]@),
            0 <= cnt <= (i as int) * (n as int),
            forall|k: int|
                0 <= k < n ==> int_abs((#[trigger] ps@[k]@).ax) <= cnt * PAIR_ACCEL_MAX && int_abs(
                    ps@[k]@.ay) <= cnt * PAIR_ACCEL_MAX,
        decreases n - i,
    {
        let mut j: usize = i + 1;
        while j < n
            invariant
                i < n,
                i + 1 <= j <= n,
                n <= MAX_COUNT,
                ps@.len() == n,
                n == s0.len(),
                s0 == views(old(ps)@),
                accum_spec(s0) == accum_from_spec(views(ps@), i as int, j as int),
                forall|k: int| 0 <= k < n ==> same_static(#[trigger] ps@[k]@, s0[k]),
                forall|k: int| 0 <= k < n ==> mass_ok(#[trigger] ps@[k]@) && pos_ok(ps@[k]@),
                0 <= cnt <= (i as int) * (n as int) + (j as int) - (i as int) - 1,
                forall|k: int|
                    0 <= k < n ==> int_abs((#[trigger] ps@[k]@).ax) <= cnt * PAIR_ACCEL_MAX
                        && int_abs(ps@[k]@.ay) <= cnt * PAIR_ACCEL_MAX,
            decreases n - j,
        {
            let ghost pre = views(ps@);
            let pi = ps[i];
            let pj = ps[j];
            let d4 = pair_accel(&pi, &pj);
            proof {
                assert(cnt <= 250_000) by (nonlinear_arith)
                    requires
                        0 <= cnt <= (i as int) * (n as int) + (j as int) - (i as int) - 1,
                        0 <= i < n <= 500,
                        i + 1 <= j <= n,
                ;
                assert(cnt * PAIR_ACCEL_MAX <= 250_000 * (PAIR_ACCEL_MAX as int))
                    by (nonlinear_arith)
                    requires
                        0 <= cnt <= 250_000,
                        PAIR_ACCEL_MAX == 4_000_000_000i64,
                ;
            }
            ps.set(i, Particle { ax: pi.ax + d4.0, ay: pi.ay + d4.1, ..pi });
            ps.set(j, Particle { ax: pj.ax - d4.2, ay: pj.ay - d4.3, ..pj });
            proof {
                cnt = cnt + 1;
                assert((cnt - 1) * PAIR_ACCEL_MAX + PAIR_ACCEL_MAX == cnt * PAIR_ACCEL_MAX)
                    by (nonlinear_arith)
                ;
                assert(views(ps@) =~= apply_pair_spec(pre, i as int, j as int));
                assert(accum_from_spec(pre, i as int, j as int) == accum_from_spec(
                    views(ps@),
                    i as int,
                    j as int + 1,
                ));
            }
            j = j + 1;
        }
        proof {
            assert(accum_from_spec(views(ps@), i as int, n as int) == accum_from_spec(
                views(ps@),
                i as int + 1,
                i as int + 2,
            ));
            assert((i as int + 1) * (n as int) == (i as int) * (n as int) + (n as int))
                by (nonlinear_arith)
            ;
        }
        i = i + 1;
    }
    proof {
        assert(accum_from_spec(views(ps@), n as int, n as int + 1) == views(ps@));
        assert(cnt * PAIR_ACCEL_MAX <= ACCEL_MAX) by (nonlinear_arith)
            requires
                0 <= cnt <= (n as int) * (n as int),
                n <= 500,
                PAIR_ACCEL_MAX == 4_000_000_000i64,
                ACCEL_MAX == 1_100_000_000_000_000i64,
        ;
    }
}

/// Integrate and reflect every particle.
fn move_all(ps: &mut Vec<Particle>, width: i64, height: i64)
    requires
        1 <= width <= MAX_DIM,
        1 <= height <= MAX_DIM,
        forall|k: int| 0 <= k < old(ps)@.len() ==> particle_ok(#[trigger] old(ps)@[k]@),
        forall|k: int|
            0 <= k < old(ps)@.len() ==> int_abs((#[trigger] old(ps)@[k]@).vx) <= VEL_CAP
                && int_abs(old(ps)@[k]@.vy) <= VEL_CAP,
    ensures
        final(ps)@.len() == old(ps)@.len(),
        views(final(ps)@) == views(old(ps)@).map_values(
            |p: PState| move_spec(width as int, height as int, p),
        ),
        forall|k: int|
            0 <= k < old(ps)@.len() ==> int_abs((#[trigger] final(ps)@[k]@).vx) <= int_abs(
                old(ps)@[k]@.vx) + VEL_GAIN && int_abs(final(ps)@[k]@.vy) <= int_abs(
                old(ps)@[k]@.vy) + VEL_GAIN,
        forall|k: int| 0 <= k < old(ps)@.len() ==> particle_ok(#[trigger] final(ps)@[k]@),
{
    let n: usize = ps.len();
    let mut i: usize = 0;
    while i < n
        invariant
            i <= n,
            ps@.len() == n,
            n == old(ps)@.len(),
            1 <= width <= MAX_DIM,
            1 <= height <= MAX_DIM,
            forall|k: int| i <= k < n ==> #[trigger] ps@[k] == old(ps)@[k],
            forall|k: int| 0 <= k < n ==> particle_ok(#[trigger] old(ps)@[k]@),
            forall|k: int|
                0 <= k < n ==> int_abs((#[trigger] old(ps)@[k]@).vx) <= VEL_CAP && int_abs(
                    old(ps)@[k]@.vy) <= VEL_CAP,
            forall|k: int|
                0 <= k < i ==> #[trigger] ps@[k]@ == move_spec(
                    width as int,
                    height as int,
                    old(ps)@[k]@,
                ),
            forall|k: int|
                0 <= k < i ==> int_abs((#[trigger] ps@[k]@).vx) <= int_abs(old(ps)@[k]@.vx)
                    + VEL_GAIN && int_abs(ps@[k]@.vy) <= int_abs(old(ps)@[k]@.vy) + VEL_GAIN,
            forall|k: int| 0 <= k < i ==> particle_ok(#[trigger] ps@[k]@),
        decreases n - i,
    {
        let mut p = ps[i];
        p.integrate();
        p.reflect(width, height);
        ps.set(i, p);
        i = i + 1;
    }
    assert(views(ps@) =~= views(old(ps)@).map_values(
        |p: PState| move_spec(width as int, height as int, p),
    ));
}

// ---------------------------------------------------------------------------
// Configuration.
// ---------------------------------------------------------------------------

/// Why a configuration or construction was rejected.
#[derive(Clone, Copy, Debug, PartialEq, Eq, Structural)]
pub enum ConfigError {
    /// The population must hold at least one particle.
    NoParticles,
    /// The arena must have a positive width and height.
    EmptyArena,
    /// Random placement needs room for the 50-unit spawn inset.
    ArenaTooSmall,
    /// Masses must be strictly positive and the range ordered.
    BadMassRange,
    /// A machine limit was passed.
    TooLarge,
    /// The particle collection does not match the configured count.
    WrongCount,
    /// A supplied particle breaks a construction bound.
    BadParticle,
}

/// The simulation parameters; the physical constants G = 0.1, dt = 0.1,
/// the 5-unit softening floor and the 0.8 bounce damping are fixed.
#[derive(Clone, Copy, Debug, PartialEq, Eq, Structural)]
pub struct Config {
    pub count: usize,
    pub width: i64,
    pub height: i64,
    pub mass_min: i64,
    pub mass_max: i64,
    pub step_budget: u64,
}

/// What holds of every randomly spawned particle: position inside the
/// inset spawn region, speed and mass inside the configured ranges, no
/// accumulated acceleration, and the derived radius.
pub open spec fn spawn_ok(cfg: Config, p: PState) -> bool {
    &&& SPAWN_INSET <= p.x <= cfg.width - SPAWN_INSET
    &&& SPAWN_INSET <= p.y <= cfg.height - SPAWN_INSET
    &&& -SPAWN_SPEED <= p.vx <= SPAWN_SPEED
    &&& -SPAWN_SPEED <= p.vy <= SPAWN_SPEED
    &&& cfg.mass_min <= p.mass <= cfg.mass_max
    &&& p.ax == 0 && p.ay == 0
    &&& p.radius == radius_spec(p.mass)
}

/// Which error an invalid parameter set draws.
pub open spec fn config_error_spec(c: Config) -> ConfigError {
    if c.count == 0 {
        ConfigError::NoParticles
    } else if c.width <= 0 || c.height <= 0 {
        ConfigError::EmptyArena
    } else if c.mass_min <= 0 || c.mass_max < c.mass_min {
        ConfigError::BadMassRange
    } else {
        ConfigError::TooLarge
    }
}

impl Config {
    pub open spec fn valid(self) -> bool {
        &&& 1 <= self.count <= MAX_COUNT
        &&& 1 <= self.width <= MAX_DIM
        &&& 1 <= self.height <= MAX_DIM
        &&& 1 <= self.mass_min <= self.mass_max <= MAX_MASS
        &&& self.step_budget <= MAX_BUDGET
    }

    /// Reject zero populations, empty arenas, degenerate mass ranges and
    /// sizes past the machine limits, in that order.
    fn check(&self) -> (r: Option<ConfigError>)
        ensures
            r is None <==> self.valid(),
            r is Some ==> r->0 == config_error_spec(*self),
    {
        if self.count == 0 {
            Some(ConfigError::NoParticles)
        } else if self.width <= 0 || self.height <= 0 {
            Some(ConfigError::EmptyArena)
        } else if self.mass_min <= 0 || self.mass_max < self.mass_min {
            Some(ConfigError::BadMassRange)
        } else if self.count > MAX_COUNT || self.width > MAX_DIM || self.height > MAX_DIM
            || self.mass_max > MAX_MASS || self.step_budget > MAX_BUDGET {
            Some(ConfigError::TooLarge)
        } else {
            None
        }
    }

    /// Validate a parameter set; `Ok` exactly when every bound holds.
    pub fn new(
        count: usize,
        width: i64,
        height: i64,
        mass_min: i64,
        mass_max: i64,
        step_budget: u64,
    ) -> (r: Result<Config, ConfigError>)
        ensures
            r is Ok <==> (Config { count, width, height, mass_min, mass_max, step_budget }).valid(),
            r is Ok ==> r->Ok_0 == (Config { count, width, height, mass_min, mass_max, step_budget }),
            r is Err ==> r->Err_0 == config_error_spec(
                Config { count, width, height, mass_min, mass_max, step_budget },
            ),
    {
        let c = Config { count, width, height, mass_min, mass_max, step_budget };
        match c.check() {
            None => Ok(c),
            Some(e) => Err(e),
        }
    }
}

impl Default for Config {
    /// The documented defaults: 50 particles, an 800 x 600 arena, masses
    /// in [10, 50] and a budget of 1000 steps.
    fn default() -> (c: Config)
        ensures
            c.count == DEFAULT_COUNT,
            c.width == DEFAULT_WIDTH,
            c.height == DEFAULT_HEIGHT,
            c.mass_min == DEFAULT_MASS_MIN,
            c.mass_max == DEFAULT_MASS_MAX,
            c.step_budget == DEFAULT_BUDGET,
            c.valid(),
    {
        Config {
            count: DEFAULT_COUNT,
            width: DEFAULT_WIDTH,
            height: DEFAULT_HEIGHT,
            mass_min: DEFAULT_MASS_MIN,
            mass_max: DEFAULT_MASS_MAX,
            step_budget: DEFAULT_BUDGET,
        }
    }
}

// ---------------------------------------------------------------------------
// The simulation.
// ---------------------------------------------------------------------------

/// Wall-clock micros elapsed from `start` to `now`, zero if the clock
/// stepped backwards.
pub open spec fn elapsed64(start: u64, now: u64) -> u64 {
    if now >= start {
        (now - start) as u64
    } else {
        0u64
    }
}

/// Average nanoseconds per step, saturated at u64::MAX.
pub open spec fn avg_nanos_spec(exec_micros: int, steps: int) -> int
    recommends
        steps >= 1,
{
    let v = (exec_micros * 1000) / steps;
    if v <= u64::MAX {
        v
    } else {
        u64::MAX as int
    }
}

/// The particle population, the step counter and the run lifecycle.
#[derive(Debug)]
pub struct Simulation {
    pub particles: Vec<Particle>,
    pub step_count: u64,
    pub start_micros: u64,
    pub finished: bool,
    pub execution_micros: Option<u64>,
    pub cfg: Config,
}

impl Simulation {
    /// Every state the simulation can reach satisfies this.
    pub open spec fn wf(self) -> bool {
        &&& self.cfg.valid()
        &&& self.particles@.len() == self.cfg.count
        &&& forall|k: int|
            0 <= k < self.particles@.len() ==> particle_ok(#[trigger] self.particles@[k]@)
        &&& forall|k: int|
            0 <= k < self.particles@.len() ==> vel_ok(
                #[trigger] self.particles@[k]@,
                self.step_count as int,
            )
        &&& self.step_count <= self.cfg.step_budget + 1
        &&& (self.finished <==> self.step_count > self.cfg.step_budget)
        &&& (self.finished <==> self.execution_micros is Some)
    }

    /// Check one supplied particle against the construction bounds.
    fn particle_init_valid(p: &Particle) -> (b: bool)
        ensures
            b == particle_init_ok(p@),
    {
        if p.mass < 1 || p.mass > MAX_MASS {
            return false;
        }
        proof {
            lemma_div_is_ordered(p.mass as int, MAX_MASS as int, RADIUS_DIV as int);
        }
        let base: i64 = ((p.mass as u64) / RADIUS_DIV) as i64;
        let rr: i64 = if base >= MIN_RADIUS {
            base
        } else {
            MIN_RADIUS
        };
        p.radius == rr && -MAX_DIM <= p.x && p.x <= MAX_DIM && -MAX_DIM <= p.y && p.y <= MAX_DIM
            && -MAX_INIT_SPEED <= p.vx && p.vx <= MAX_INIT_SPEED && -MAX_INIT_SPEED <= p.vy
            && p.vy <= MAX_INIT_SPEED && p.ax == 0 && p.ay == 0
    }

    /// Build a simulation from a caller-supplied population. `Ok` exactly
    /// when the configuration is valid, the population matches its count
    /// and every particle lies within the construction bounds; the counter
    /// starts at zero and the start timestamp is recorded here.
    pub fn from_particles(cfg: Config, particles: Vec<Particle>, start_micros: u64) -> (r: Result<
        Simulation,
        ConfigError,
    >)
        ensures
            r is Ok <==> (cfg.valid() && particles@.len() == cfg.count && (forall|k: int|
                0 <= k < particles@.len() ==> particle_init_ok(#[trigger] particles@[k]@))),
            !cfg.valid() ==> r == Err::<Simulation, ConfigError>(config_error_spec(cfg)),
            cfg.valid() && particles@.len() != cfg.count ==> r == Err::<Simulation, ConfigError>(
                ConfigError::WrongCount,
            ),
            cfg.valid() && particles@.len() == cfg.count && !(forall|k: int|
                0 <= k < particles@.len() ==> particle_init_ok(#[trigger] particles@[k]@))
                ==> r == Err::<Simulation, ConfigError>(ConfigError::BadParticle),
            r is Ok ==> ({
                &&& r->Ok_0.wf()
                &&& r->Ok_0.cfg == cfg
                &&& r->Ok_0.particles@ == particles@
                &&& r->Ok_0.step_count == 0
                &&& !r->Ok_0.finished
                &&& r->Ok_0.execution_micros is None
                &&& r->Ok_0.start_micros == start_micros
            }),
    {
        if let Some(e) = cfg.check() {
            return Err(e);
        }
        if particles.len() != cfg.count {
            return Err(ConfigError::WrongCount);
        }
        let n: usize = particles.len();
        let mut k: usize = 0;
        while k < n
            invariant
                k <= n,
                n == particles@.len(),
                cfg.valid(),
                n == cfg.count,
                forall|m: int| 0 <= m < k ==> particle_init_ok(#[trigger] particles@[m]@),
            decreases n - k,
        {
            let p = particles[k];
            if !Self::particle_init_valid(&p) {
                return Err(ConfigError::BadParticle);
            }
            k = k + 1;
        }
        let s = Simulation {
            particles,
            step_count: 0,
            start_micros,
            finished: false,
            execution_micros: None,
            cfg,
        };
        proof {
            lemma_init_gives_wf(s.particles@);
        }
        Ok(s)
    }

    /// Build a simulation whose particles draw position, velocity and mass
    /// uniformly at random from the configured ranges, positions inset 50
    /// units from every edge.
    pub fn new_random(cfg: Config, start_micros: u64) -> (r: Result<Simulation, ConfigError>)
        ensures
            r is Ok <==> (cfg.valid() && cfg.width >= 2 * SPAWN_INSET && cfg.height >= 2
                * SPAWN_INSET),
            !cfg.valid() ==> r == Err::<Simulation, ConfigError>(config_error_spec(cfg)),
            cfg.valid() && !(cfg.width >= 2 * SPAWN_INSET && cfg.height >= 2 * SPAWN_INSET)
                ==> r == Err::<Simulation, ConfigError>(ConfigError::ArenaTooSmall),
            r is Ok ==> ({
                &&& r->Ok_0.wf()
                &&& r->Ok_0.cfg == cfg
                &&& r->Ok_0.particles@.len() == cfg.count
                &&& r->Ok_0.step_count == 0
                &&& !r->Ok_0.finished
                &&& r->Ok_0.execution_micros is None
                &&& r->Ok_0.start_micros == start_micros
                &&& forall|k: int|
                    0 <= k < r->Ok_0.particles@.len() ==> spawn_ok(
                        cfg,
                        #[trigger] r->Ok_0.particles@[k]@,
                    )
            }),
    {
        if let Some(e) = cfg.check() {
            return Err(e);
        }
        if cfg.width < 2 * SPAWN_INSET || cfg.height < 2 * SPAWN_INSET {
            return Err(ConfigError::ArenaTooSmall);
        }
        let mut particles: Vec<Particle> = Vec::new();
        let mut k: usize = 0;
        while k < cfg.count
            invariant
                k <= cfg.count,
                particles@.len() == k,
                cfg.valid(),
                cfg.width >= 2 * SPAWN_INSET,
                cfg.height >= 2 * SPAWN_INSET,
                forall|m: int| 0 <= m < k ==> spawn_ok(cfg, #[trigger] particles@[m]@),
                forall|m: int| 0 <= m < k ==> particle_init_ok(#[trigger] particles@[m]@),
            decreases cfg.count - k,
        {
            let x = random_in_range(SPAWN_INSET, cfg.width - SPAWN_INSET);
            let y = random_in_range(SPAWN_INSET, cfg.height - SPAWN_INSET);
            let vx = random_in_range(-SPAWN_SPEED, SPAWN_SPEED);
            let vy = random_in_range(-SPAWN_SPEED, SPAWN_SPEED);
            let mass = random_in_range(cfg.mass_min, cfg.mass_max);
            let p = Particle::new(x, y, vx, vy, mass);
            particles.push(p);
            k = k + 1;
        }
        let s = Simulation {
            particles,
            step_count: 0,
            start_micros,
            finished: false,
            execution_micros: None,
            cfg,
        };
        proof {
            lemma_init_gives_wf(s.particles@);
        }
        Ok(s)
    }

    /// One discrete time step: clear accelerations, accumulate the pairwise
    /// forces, integrate, reflect at the boundaries, advance the counter,
    /// and on passing the budget record the elapsed time, once. A finished
    /// simulation is left untouched.
    pub fn step(&mut self, now_micros: u64)
        requires
            old(self).wf(),
        ensures
            final(self).wf(),
            final(self).cfg == old(self).cfg,
            final(self).start_micros == old(self).start_micros,
            old(self).finished ==> *final(self) == *old(self),
            !old(self).finished ==> views(final(self).particles@) == step_particles_spec(
                old(self).cfg.width as int,
                old(self).cfg.height as int,
                views(old(self).particles@),
            ),
            !old(self).finished ==> final(self).step_count == old(self).step_count + 1,
            !old(self).finished ==> (final(self).finished <==> old(self).step_count + 1 > old(
                self,
            ).cfg.step_budget),
            !old(self).finished ==> (final(self).finished ==> final(self).execution_micros == Some(
                elapsed64(old(self).start_micros, now_micros),
            )),
            !old(self).finished ==> (!final(self).finished ==> final(self).execution_micros
                is None),
    {
        if self.finished {
            return ;
        }
        let w = self.cfg.width;
        let h = self.cfg.height;
        let ghost v0 = views(self.particles@);
        let ghost c0 = old(self).step_count as int;
        reset_accels(&mut self.particles);
        accumulate(&mut self.particles);
        proof {
            assert forall|k: int| 0 <= k < self.particles@.len() implies particle_ok(
                #[trigger] self.particles@[k]@,
            ) && int_abs(self.particles@[k]@.vx) <= VEL_CAP && int_abs(self.particles@[k]@.vy)
                <= VEL_CAP by {
                assert(vel_ok(v0[k], c0));
                assert(c0 * VEL_GAIN <= (MAX_BUDGET as int) * VEL_GAIN) by (nonlinear_arith)
                    requires
                        0 <= c0 <= MAX_BUDGET as int,
                        VEL_GAIN == 110_000_000_000_000i64,
                ;
            }
        }
        move_all(&mut self.particles, w, h);
        proof {
            assert forall|k: int| 0 <= k < self.particles@.len() implies vel_ok(
                #[trigger] self.particles@[k]@,
                c0 + 1,
            ) by {
                assert(vel_ok(v0[k], c0));
                assert((c0 + 1) * VEL_GAIN == c0 * VEL_GAIN + VEL_GAIN) by (nonlinear_arith);
            }
            assert(views(self.particles@) =~= step_particles_spec(w as int, h as int, v0));
        }
        self.step_count = self.step_count + 1;
        if self.step_count > self.cfg.step_budget {
            self.finished = true;
            let e: u64 = if now_micros >= self.start_micros {
                now_micros - self.start_micros
            } else {
                0
            };
            self.execution_micros = Some(e);
        }
    }

    /// The derived completion statistic: average nanoseconds per step,
    /// available exactly once the run has finished.
    pub fn average_step_nanos(&self) -> (r: Option<u64>)
        requires
            self.wf(),
        ensures
            self.finished ==> (r is Some && r->0 == avg_nanos_spec(
                self.execution_micros->0 as int,
                self.step_count as int,
            )),
            !self.finished ==> r is None,
    {
        match self.execution_micros {
            None => None,
            Some(e) => {
                let num: u128 = (e as u128) * 1000;
                let q: u128 = num / (self.step_count as u128);
                proof {
                    lemma_div_pos_is_pos(num as int, self.step_count as int);
                    lemma_div_is_ordered_by_denominator(num as int, 1, self.step_count as int);
                }
                if q > (u64::MAX as u128) {
                    Some(u64::MAX)
                } else {
                    Some(q as u64)
                }
            },
        }
    }
}

/// What a presenter needs of one particle: position, radius and the
/// mass-derived color, read-only.
pub struct RenderParticle {
    pub x: i64,
    pub y: i64,
    pub radius: i64,
    pub color: (u8, u8, u8),
}

impl Simulation {
    /// A read-only snapshot of the render data: one entry per particle, in
    /// the population order, each carrying the particle's position, radius
    /// and color. Presentation never needs to touch the simulation itself.
    pub fn snapshot(&self) -> (s: Vec<RenderParticle>)
        requires
            self.wf(),
        ensures
            s@.len() == self.particles@.len(),
            forall|k: int|
                0 <= k < s@.len() ==> ({
                    &&& (#[trigger] s@[k]).x == self.particles@[k]@.x
                    &&& s@[k].y == self.particles@[k]@.y
                    &&& s@[k].radius == self.particles@[k]@.radius
                    &&& (s@[k].color.0 as int, s@[k].color.1 as int, s@[k].color.2 as int)
                        == color_spec(self.particles@[k]@.mass)
                }),
    {
        let n: usize = self.particles.len();
        let mut s: Vec<RenderParticle> = Vec::new();
        let mut k: usize = 0;
        while k < n
            invariant
                k <= n,
                n == self.particles@.len(),
                s@.len() == k,
                forall|m: int| 0 <= m < n ==> particle_ok(#[trigger] self.particles@[m]@),
                forall|m: int|
                    0 <= m < k ==> ({
                        &&& (#[trigger] s@[m]).x == self.particles@[m]@.x
                        &&& s@[m].y == self.particles@[m]@.y
                        &&& s@[m].radius == self.particles@[m]@.radius
                        &&& (s@[m].color.0 as int, s@[m].color.1 as int, s@[m].color.2 as int)
                            == color_spec(self.particles@[m]@.mass)
                    }),
            decreases n - k,
        {
            let p = self.particles[k];
            assert(particle_ok(self.particles@[k as int]@));
            let color = color_of_mass(p.mass);
            s.push(RenderParticle { x: p.x, y: p.y, radius: p.radius, color });
            k = k + 1;
        }
        s
    }
}

/// A population of freshly constructed particles satisfies the running
/// invariants at step zero.
proof fn lemma_init_gives_wf(s: Seq<Particle>)
    requires
        forall|k: int| 0 <= k < s.len() ==> particle_init_ok(#[trigger] s[k]@),
    ensures
        forall|k: int| 0 <= k < s.len() ==> particle_ok(#[trigger] s[k]@),
        forall|k: int| 0 <= k < s.len() ==> vel_ok(#[trigger] s[k]@, 0),
{
    assert forall|k: int| 0 <= k < s.len() implies particle_ok(#[trigger] s[k]@) && vel_ok(
        s[k]@,
        0,
    ) by {
        let p = s[k]@;
        lemma_div_is_ordered(p.mass, MAX_MASS as int, RADIUS_DIV as int);
        lemma_div_pos_is_pos(p.mass, RADIUS_DIV as int);
    }
}

} // verus!
