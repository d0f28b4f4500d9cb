use vstd::prelude::*;
use vstd::arithmetic::div_mod::{lemma_div_is_ordered, lemma_div_of0, lemma_div_pos_is_pos};
use crate::num::{div_tz, lemma_div_tz_neg, sqrt_floor};
use crate::params::{DAMP_DEN, DAMP_NUM, DIST_FLOOR, DT_DIV, MAX_MASS, PAIR_FORCE_MAX};
use crate::particle::{integrate_spec, reflect_spec, PState};
use crate::sim::{
    accel_delta_spec, accum_from_spec, accum_spec, apply_pair_spec, eff_dist_spec, force_spec,
    force_x_spec, force_y_spec, move_spec, reset_one, reset_spec, step_particles_spec,
};

verus! {

// ---------------------------------------------------------------------------
// Momentum balance of the force pass.
// ---------------------------------------------------------------------------

pub open spec fn sum_ax(s: Seq<PState>) -> int
    decreases s.len(),
{
    if s.len() == 0 {
        0
    } else {
        s[0].ax + sum_ax(s.drop_first())
    }
}

pub open spec fn sum_ay(s: Seq<PState>) -> int
    decreases s.len(),
{
    if s.len() == 0 {
        0
    } else {
        s[0].ay + sum_ay(s.drop_first())
    }
}

/// Every particle carries the same mass.
pub open spec fn uniform_mass(s: Seq<PState>, m: int) -> bool {
    forall|k: int| 0 <= k < s.len() ==> (#[trigger] s[k]).mass == m
}

proof fn lemma_sum_update(s: Seq<PState>, i: int, p: PState)
    requires
        0 <= i < s.len(),
    ensures
        sum_ax(s.update(i, p)) == sum_ax(s) - s[i].ax + p.ax,
        sum_ay(s.update(i, p)) == sum_ay(s) - s[i].ay + p.ay,
    decreases s.len(),
{
    if i == 0 {
        assert(s.update(0, p).drop_first() =~= s.drop_first());
    } else {
        assert(s.update(i, p).drop_first() =~= s.drop_first().update(i - 1, p));
        lemma_sum_update(s.drop_first(), i - 1, p);
    }
}

proof fn lemma_apply_pair_sum(s: Seq<PState>, i: int, j: int, m: int)
    requires
        0 <= i < j < s.len(),
        uniform_mass(s, m),
    ensures
        apply_pair_spec(s, i, j).len() == s.len(),
        sum_ax(apply_pair_spec(s, i, j)) == sum_ax(s),
        sum_ay(apply_pair_spec(s, i, j)) == sum_ay(s),
        uniform_mass(apply_pair_spec(s, i, j), m),
{
    let pi = s[i];
    let pj = s[j];
    let fx = force_x_spec(pi, pj);
    let fy = force_y_spec(pi, pj);
    let pi2 = PState {
        ax: pi.ax + accel_delta_spec(fx, pi.mass),
        ay: pi.ay + accel_delta_spec(fy, pi.mass),
        ..pi
    };
    let pj2 = PState {
        ax: pj.ax - accel_delta_spec(fx, pj.mass),
        ay: pj.ay - accel_delta_spec(fy, pj.mass),
        ..pj
    };
    lemma_sum_update(s, i, pi2);
    lemma_sum_update(s.update(i, pi2), j, pj2);
}

proof fn lemma_accum_from_sum(s: Seq<PState>, i: int, j: int, m: int)
    requires
        uniform_mass(s, m),
    ensures
        accum_from_spec(s, i, j).len() == s.len(),
        sum_ax(accum_from_spec(s, i, j)) == sum_ax(s),
        sum_ay(accum_from_spec(s, i, j)) == sum_ay(s),
        uniform_mass(accum_from_spec(s, i, j), m),
    decreases s.len() - i, crate::num::int_max(s.len() + 1 - j, 0),
{
    if i < 0 || j <= i || i + 1 >= s.len() {
    } else if j >= s.len() {
        lemma_accum_from_sum(s, i + 1, i + 2, m);
    } else {
        lemma_apply_pair_sum(s, i, j, m);
        lemma_accum_from_sum(apply_pair_spec(s, i, j), i, j + 1, m);
    }
}

proof fn lemma_reset_sum(s: Seq<PState>)
    ensures
        reset_spec(s).len() == s.len(),
        sum_ax(reset_spec(s)) == 0,
        sum_ay(reset_spec(s)) == 0,
    decreases s.len(),
{
    if s.len() == 0 {
    } else {
        assert(reset_spec(s).drop_first() =~= reset_spec(s.drop_first()));
        lemma_reset_sum(s.drop_first());
    }
}

/// Newton's third law in balance: for any population of equal masses, the
/// accelerations that one step's force pass accumulates (acceleration
/// reset followed by every unordered pair once) sum to zero on each axis,
/// exactly. With unequal masses the accelerations do not balance - only
/// the forces do - so equal masses is the hypothesis.
pub proof fn lemma_accel_sum_zero(s: Seq<PState>, m: int)
    requires
        uniform_mass(s, m),
    ensures
        sum_ax(accum_spec(reset_spec(s))) == 0,
        sum_ay(accum_spec(reset_spec(s))) == 0,
{
    lemma_reset_sum(s);
    assert forall|k: int| 0 <= k < reset_spec(s).len() implies (#[trigger] reset_spec(
        s,
    )[k]).mass == m by {
        assert(s[k].mass == m);
    }
    lemma_accum_from_sum(reset_spec(s), 0, 1, m);
}

// ---------------------------------------------------------------------------
// Mirror symmetry about the arena center.
// ---------------------------------------------------------------------------

/// q is p mirrored through the arena center: reflected position and
/// opposite velocity and acceleration, same mass and radius.
pub open spec fn mirrored(w: int, h: int, p: PState, q: PState) -> bool {
    &&& q.x == w - p.x
    &&& q.y == h - p.y
    &&& q.vx == -p.vx
    &&& q.vy == -p.vy
    &&& q.ax == -p.ax
    &&& q.ay == -p.ay
    &&& q.mass == p.mass
    &&& q.radius == p.radius
}

proof fn lemma_integrate_mirror(w: int, h: int, p: PState, q: PState)
    requires
        mirrored(w, h, p, q),
    ensures
        mirrored(w, h, integrate_spec(p), integrate_spec(q)),
{
    lemma_div_tz_neg(p.ax, DT_DIV as int);
    lemma_div_tz_neg(p.ay, DT_DIV as int);
    lemma_div_tz_neg(p.vx + div_tz(p.ax, DT_DIV as int), DT_DIV as int);
    lemma_div_tz_neg(p.vy + div_tz(p.ay, DT_DIV as int), DT_DIV as int);
}

proof fn lemma_reflect_mirror(w: int, h: int, p: PState, q: PState)
    requires
        mirrored(w, h, p, q),
        2 * p.radius <= w,
        2 * p.radius <= h,
    ensures
        mirrored(w, h, reflect_spec(w, h, p), reflect_spec(w, h, q)),
{
    lemma_div_tz_neg(p.vx * DAMP_NUM, DAMP_DEN as int);
    lemma_div_tz_neg(p.vy * DAMP_NUM, DAMP_DEN as int);
}

/// Two equal masses placed mirror-symmetrically about the arena center
/// with opposite velocities are still mirror-symmetric after a step; by
/// induction on steps they stay so for any number of steps. The exact
/// fixed-point arithmetic makes this an equality, not a tolerance. The
/// radius must fit the arena (2 * radius <= side): in a degenerate arena
/// narrower than the particle the hi-wins clamp parks both bodies at the
/// same edge and the mirror is lost, so that case is excluded.
pub proof fn lemma_symmetry_preserved(w: int, h: int, s: Seq<PState>)
    requires
        s.len() == 2,
        mirrored(w, h, s[0], s[1]),
        2 * s[0].radius <= w,
        2 * s[0].radius <= h,
    ensures
        step_particles_spec(w, h, s).len() == 2,
        mirrored(w, h, step_particles_spec(w, h, s)[0], step_particles_spec(w, h, s)[1]),
{
    let r = reset_spec(s);
    assert(r.len() == 2);
    assert(r[0] == reset_one(s[0]) && r[1] == reset_one(s[1]));
    let ap = apply_pair_spec(r, 0, 1);
    assert(accum_from_spec(r, 0, 1) == accum_from_spec(ap, 0, 2));
    assert(accum_from_spec(ap, 0, 2) == accum_from_spec(ap, 1, 2));
    assert(accum_from_spec(ap, 1, 2) == ap);
    assert(ap.len() == 2);
    assert(mirrored(w, h, ap[0], ap[1]));
    lemma_integrate_mirror(w, h, ap[0], ap[1]);
    lemma_reflect_mirror(w, h, integrate_spec(ap[0]), integrate_spec(ap[1]));
    assert(step_particles_spec(w, h, s)[0] == move_spec(w, h, ap[0]));
    assert(step_particles_spec(w, h, s)[1] == move_spec(w, h, ap[1]));
}

// ---------------------------------------------------------------------------
// A single particle.
// ---------------------------------------------------------------------------

/// With one particle there are no pairs: the force pass leaves the
/// acceleration at zero, so a step never changes the velocity except
/// through boundary reflection, and the step always ends with the
/// particle clamped inside the arena. The radius must fit the arena
/// (2 * radius <= side), or [radius, side - radius] is empty and the
/// in-arena conclusion has nothing to mean.
pub proof fn lemma_single_particle(w: int, h: int, s: Seq<PState>)
    requires
        s.len() == 1,
        2 * s[0].radius <= w,
        2 * s[0].radius <= h,
    ensures
        step_particles_spec(w, h, s).len() == 1,
        ({
            let p = s[0];
            let p2 = step_particles_spec(w, h, s)[0];
            let ix = p.x + div_tz(p.vx, DT_DIV as int);
            let iy = p.y + div_tz(p.vy, DT_DIV as int);
            &&& (p.radius < ix < w - p.radius ==> p2.vx == p.vx)
            &&& (p.radius < iy < h - p.radius ==> p2.vy == p.vy)
            &&& p.radius <= p2.x <= w - p.radius
            &&& p.radius <= p2.y <= h - p.radius
        }),
{
    let r = reset_spec(s);
    assert(r.len() == 1);
    assert(accum_from_spec(r, 0, 1) == r);
    assert(r[0] == reset_one(s[0]));
    lemma_div_of0(DT_DIV as int);
    assert(step_particles_spec(w, h, s)[0] == move_spec(w, h, r[0]));
}

// ---------------------------------------------------------------------------
// Boundary reflection.
// ---------------------------------------------------------------------------

/// A particle at or past the low x edge and moving at 0.002 units/s or
/// faster ends the boundary pass with a flipped, negative x velocity and
/// its position clamped into [radius, w - radius]. (Slower speeds truncate
/// to zero under the 0.8 damping instead of flipping sign.)
pub proof fn lemma_boundary_reflection(w: int, h: int, p: PState)
    requires
        p.x <= p.radius,
        p.vx >= 2,
        2 * p.radius <= w,
    ensures
        reflect_spec(w, h, p).vx < 0,
        p.radius <= reflect_spec(w, h, p).x <= w - p.radius,
{
    lemma_div_is_ordered(16, p.vx * DAMP_NUM, DAMP_DEN as int);
}

// ---------------------------------------------------------------------------
// The softening floor.
// ---------------------------------------------------------------------------

/// Two particles at identical coordinates interact through the 5-unit
/// softening floor: the force magnitude is finite and bounded, and with a
/// zero displacement its axis components, and the accelerations they
/// would add, are exactly zero.
pub proof fn lemma_distance_floor(pi: PState, pj: PState)
    requires
        pi.x == pj.x,
        pi.y == pj.y,
        1 <= pi.mass <= MAX_MASS,
        1 <= pj.mass <= MAX_MASS,
    ensures
        eff_dist_spec(pi, pj) == DIST_FLOOR,
        0 <= force_spec(pi, pj) <= PAIR_FORCE_MAX,
        force_x_spec(pi, pj) == 0,
        force_y_spec(pi, pj) == 0,
        accel_delta_spec(force_x_spec(pi, pj), pi.mass) == 0,
        accel_delta_spec(force_y_spec(pi, pj), pj.mass) == 0,
{
    assert(sqrt_floor(0) == 0);
    let num = 100 * pi.mass * pj.mass;
    assert(0 <= 100 * pi.mass * pj.mass <= 100_000_000_000_000) by (nonlinear_arith)
        requires
            1 <= pi.mass <= 1_000_000,
            1 <= pj.mass <= 1_000_000,
    ;
    lemma_div_pos_is_pos(num, (DIST_FLOOR * DIST_FLOOR) as int);
    lemma_div_is_ordered(num, 100_000_000_000_000int, (DIST_FLOOR * DIST_FLOOR) as int);
    let f = force_spec(pi, pj);
    assert(f * 0 == 0) by (nonlinear_arith);
    lemma_div_of0(DIST_FLOOR as int);
    assert(force_x_spec(pi, pj) == div_tz(0, DIST_FLOOR as int));
    lemma_div_of0(pi.mass);
    lemma_div_of0(pj.mass);
    assert(accel_delta_spec(0, pi.mass) == div_tz(0, pi.mass));
}

} // verus!
