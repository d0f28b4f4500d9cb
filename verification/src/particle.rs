use vstd::prelude::*;
use vstd::arithmetic::div_mod::{lemma_div_is_ordered, lemma_div_by_multiple};
use crate::num::{
    clamp_spec, div_trunc, div_tz, int_abs, int_max, lemma_div_tz_within,
};
use crate::params::{
    ACCEL_MAX, DAMP_DEN, DAMP_NUM, DT_DIV, MAX_DIM, MAX_MASS, MAX_RADIUS, MIN_RADIUS,
    POS_LIMIT, RADIUS_DIV, VEL_CAP, VEL_GAIN, VEL_LIMIT,
};

verus! {

/// The mathematical state of one particle, in thousandths of a unit.
pub ghost struct PState {
    pub x: int,
    pub y: int,
    pub vx: int,
    pub vy: int,
    pub ax: int,
    pub ay: int,
    pub mass: int,
    pub radius: int,
}

/// One point mass: position, velocity, accumulated acceleration, mass and
/// the radius derived from the mass at construction.
#[derive(Clone, Copy, Debug)]
pub struct Particle {
    pub x: i64,
    pub y: i64,
    pub vx: i64,
    pub vy: i64,
    pub ax: i64,
    pub ay: i64,
    pub mass: i64,
    pub radius: i64,
}

impl View for Particle {
    type V = PState;

    open spec fn view(&self) -> PState {
        PState {
            x: self.x as int,
            y: self.y as int,
            vx: self.vx as int,
            vy: self.vy as int,
            ax: self.ax as int,
            ay: self.ay as int,
            mass: self.mass as int,
            radius: self.radius as int,
        }
    }
}

/// radius = max(mass / 5, 2) in unit terms, fixed at construction.
pub open spec fn radius_spec(mass: int) -> int {
    int_max(div_tz(mass, RADIUS_DIV as int), MIN_RADIUS as int)
}

/// The radius never falls when the mass rises.
pub proof fn lemma_radius_monotone(m1: int, m2: int)
    requires
        0 <= m1 <= m2,
    ensures
        radius_spec(m1) <= radius_spec(m2),
{
    lemma_div_is_ordered(m1, m2, RADIUS_DIV as int);
}

/// One integration step at dt = 0.1: velocity picks up a tenth of the
/// acceleration, then position picks up a tenth of the new velocity,
/// independently per axis.
pub open spec fn integrate_spec(p: PState) -> PState {
    let vx2 = p.vx + div_tz(p.ax, DT_DIV as int);
    let vy2 = p.vy + div_tz(p.ay, DT_DIV as int);
    PState {
        x: p.x + div_tz(vx2, DT_DIV as int),
        y: p.y + div_tz(vy2, DT_DIV as int),
        vx: vx2,
        vy: vy2,
        ax: p.ax,
        ay: p.ay,
        mass: p.mass,
        radius: p.radius,
    }
}

/// Boundary handling per axis: if the pre-clamp position touches either
/// edge (closer than one radius), the velocity flips and keeps 8/10 of its
/// magnitude; afterwards the position is clamped into [radius, side - radius].
/// At the precision floor the damping truncates toward zero: a contact at a
/// speed below 2 milli-units (0.002 units/s) leaves the velocity at zero
/// rather than a tiny flip.
pub open spec fn reflect_spec(w: int, h: int, p: PState) -> PState {
    let vx2 = if p.x <= p.radius || p.x >= w - p.radius {
        -div_tz(p.vx * DAMP_NUM, DAMP_DEN as int)
    } else {
        p.vx
    };
    let vy2 = if p.y <= p.radius || p.y >= h - p.radius {
        -div_tz(p.vy * DAMP_NUM, DAMP_DEN as int)
    } else {
        p.vy
    };
    PState {
        x: clamp_spec(p.x, p.radius, w - p.radius),
        y: clamp_spec(p.y, p.radius, h - p.radius),
        vx: vx2,
        vy: vy2,
        ax: p.ax,
        ay: p.ay,
        mass: p.mass,
        radius: p.radius,
    }
}

/// The damped bounce never raises a speed: |−(v * 8) / 10| <= |v|.
pub proof fn lemma_damp_shrinks(v: int)
    ensures
        int_abs(-div_tz(v * DAMP_NUM, DAMP_DEN as int)) <= int_abs(v),
{
    let m = int_abs(v);
    lemma_div_tz_within(v * DAMP_NUM, DAMP_DEN as int, m * DAMP_NUM);
    lemma_div_is_ordered(m * DAMP_NUM, m * 10, 10);
    lemma_div_by_multiple(m, 10);
}

impl Particle {
    /// Build a particle at rest in acceleration, with its radius derived
    /// from the mass.
    pub fn new(x: i64, y: i64, vx: i64, vy: i64, mass: i64) -> (p: Particle)
        requires
            1 <= mass <= MAX_MASS,
        ensures
            p@.x == x as int,
            p@.y == y as int,
            p@.vx == vx as int,
            p@.vy == vy as int,
            p@.ax == 0,
            p@.ay == 0,
            p@.mass == mass as int,
            p@.radius == radius_spec(mass as int),
            MIN_RADIUS <= p@.radius <= MAX_RADIUS,
    {
        let base: u64 = (mass as u64) / RADIUS_DIV;
        proof {
            lemma_div_is_ordered(mass as int, MAX_MASS as int, RADIUS_DIV as int);
        }
        let radius: i64 = if (base as i64) >= MIN_RADIUS {
            base as i64
        } else {
            MIN_RADIUS
        };
        Particle { x, y, vx, vy, ax: 0, ay: 0, mass, radius }
    }

    /// Advance velocity by a * dt, then position by v * dt (dt = 0.1).
    pub fn integrate(&mut self)
        requires
            int_abs(old(self)@.ax) <= ACCEL_MAX,
            int_abs(old(self)@.ay) <= ACCEL_MAX,
            int_abs(old(self)@.vx) <= VEL_CAP,
            int_abs(old(self)@.vy) <= VEL_CAP,
            int_abs(old(self)@.x) <= MAX_DIM,
            int_abs(old(self)@.y) <= MAX_DIM,
        ensures
            final(self)@ == integrate_spec(old(self)@),
            int_abs(final(self)@.vx) <= int_abs(old(self)@.vx) + VEL_GAIN,
            int_abs(final(self)@.vy) <= int_abs(old(self)@.vy) + VEL_GAIN,
            int_abs(final(self)@.x) <= POS_LIMIT,
            int_abs(final(self)@.y) <= POS_LIMIT,
    {
        proof {
            lemma_div_tz_within(self@.ax, DT_DIV as int, ACCEL_MAX as int);
            lemma_div_tz_within(self@.ay, DT_DIV as int, ACCEL_MAX as int);
        }
        self.vx = self.vx + div_trunc(self.ax, DT_DIV);
        self.vy = self.vy + div_trunc(self.ay, DT_DIV);
        proof {
            lemma_div_tz_within(self@.vx, DT_DIV as int, VEL_CAP + VEL_GAIN);
            lemma_div_tz_within(self@.vy, DT_DIV as int, VEL_CAP + VEL_GAIN);
        }
        self.x = self.x + div_trunc(self.vx, DT_DIV);
        self.y = self.y + div_trunc(self.vy, DT_DIV);
    }

    /// Flip and damp the velocity on edge contact, then clamp the position
    /// into the arena. The flip is decided from the pre-clamp position.
    pub fn reflect(&mut self, width: i64, height: i64)
        requires
            1 <= width <= MAX_DIM,
            1 <= height <= MAX_DIM,
            MIN_RADIUS <= old(self)@.radius <= MAX_RADIUS,
            int_abs(old(self)@.vx) <= VEL_LIMIT,
            int_abs(old(self)@.vy) <= VEL_LIMIT,
            int_abs(old(self)@.x) <= POS_LIMIT,
            int_abs(old(self)@.y) <= POS_LIMIT,
        ensures
            final(self)@ == reflect_spec(width as int, height as int, old(self)@),
            int_abs(final(self)@.vx) <= int_abs(old(self)@.vx),
            int_abs(final(self)@.vy) <= int_abs(old(self)@.vy),
            -MAX_RADIUS <= final(self)@.x <= MAX_DIM,
            -MAX_RADIUS <= final(self)@.y <= MAX_DIM,
    {
        let r = self.radius;
        if self.x <= r || self.x >= width - r {
            proof {
                lemma_damp_shrinks(old(self)@.vx);
            }
            self.vx = -div_trunc(self.vx * DAMP_NUM, DAMP_DEN);
        }
        if self.y <= r || self.y >= height - r {
            proof {
                lemma_damp_shrinks(old(self)@.vy);
            }
            self.vy = -div_trunc(self.vy * DAMP_NUM, DAMP_DEN);
        }
        let xr = if self.x >= r { self.x } else { r };
        self.x = if xr <= width - r { xr } else { width - r };
        let yr = if self.y >= r { self.y } else { r };
        self.y = if yr <= height - r { yr } else { height - r };
    }
}

} // verus!
