use vstd::prelude::*;
use vstd::arithmetic::div_mod::{
    lemma_div_is_ordered, lemma_div_is_ordered_by_denominator, lemma_div_pos_is_pos,
    lemma_div_by_multiple,
};

verus! {

/// Division rounding toward zero: the rounding every rate in the
/// simulation's fixed-point arithmetic uses.
pub open spec fn div_tz(a: int, b: int) -> int
    recommends
        b > 0,
{
    if a >= 0 {
        a / b
    } else {
        -((-a) / b)
    }
}

pub open spec fn int_min(a: int, b: int) -> int {
    if a <= b {
        a
    } else {
        b
    }
}

pub open spec fn int_max(a: int, b: int) -> int {
    if a >= b {
        a
    } else {
        b
    }
}

pub open spec fn int_abs(a: int) -> int {
    if a >= 0 {
        a
    } else {
        -a
    }
}

/// Clamp as the boundary pass applies it: raise to `lo` first, then cap
/// at `hi` (so `hi` wins if the interval is empty).
pub open spec fn clamp_spec(x: int, lo: int, hi: int) -> int {
    int_min(int_max(x, lo), hi)
}

/// Rounding toward zero is odd-symmetric.
pub proof fn lemma_div_tz_neg(a: int, b: int)
    requires
        b > 0,
    ensures
        div_tz(-a, b) == -div_tz(a, b),
{
    if a == 0 {
        vstd::arithmetic::div_mod::lemma_div_of0(b);
    }
}

/// Rounding toward zero never grows a magnitude bound: |a| <= m gives
/// |div_tz(a, b)| <= m / b.
pub proof fn lemma_div_tz_within(a: int, b: int, m: int)
    requires
        b >= 1,
        0 <= m,
        -m <= a <= m,
    ensures
        -(m / b) <= div_tz(a, b) <= m / b,
{
    if a >= 0 {
        lemma_div_is_ordered(a, m, b);
        lemma_div_pos_is_pos(a, b);
    } else {
        lemma_div_is_ordered(-a, m, b);
        lemma_div_pos_is_pos(-a, b);
    }
}

/// |a| <= f * b gives |div_tz(a, b)| <= f.
pub proof fn lemma_div_tz_product_bound(a: int, b: int, f: int)
    requires
        b >= 1,
        0 <= f,
        -(f * b) <= a <= f * b,
    ensures
        -f <= div_tz(a, b) <= f,
{
    vstd::arithmetic::mul::lemma_mul_nonnegative(f, b);
    lemma_div_tz_within(a, b, f * b);
    lemma_div_by_multiple(f, b);
}

/// Divide `a` by `b`, rounding toward zero.
pub fn div_trunc(a: i64, b: u64) -> (r: i64)
    requires
        b >= 1,
        a > i64::MIN,
    ensures
        r == div_tz(a as int, b as int),
{
    if a >= 0 {
        let q: u64 = (a as u64) / b;
        proof {
            lemma_div_is_ordered_by_denominator(a as int, 1, b as int);
        }
        q as i64
    } else {
        let m: u64 = (-a) as u64;
        let q: u64 = m / b;
        proof {
            lemma_div_is_ordered_by_denominator(m as int, 1, b as int);
        }
        -(q as i64)
    }
}

/// Floor of the square root, defined step by step from below.
pub open spec fn sqrt_floor(n: int) -> int
    decreases n,
{
    if n <= 0 {
        0
    } else {
        let r = sqrt_floor(n - 1);
        if (r + 1) * (r + 1) <= n {
            r + 1
        } else {
            r
        }
    }
}

pub proof fn lemma_sqrt_floor_bounds(n: int)
    requires
        n >= 0,
    ensures
        sqrt_floor(n) >= 0,
        sqrt_floor(n) * sqrt_floor(n) <= n,
        n < (sqrt_floor(n) + 1) * (sqrt_floor(n) + 1),
    decreases n,
{
    if n == 0 {
    } else {
        lemma_sqrt_floor_bounds(n - 1);
        let r = sqrt_floor(n - 1);
        if (r + 1) * (r + 1) <= n {
            assert(n <= (r + 1) * (r + 1)) by {
                assert(n - 1 < (r + 1) * (r + 1));
            }
            assert((r + 1) * (r + 1) < (r + 2) * (r + 2)) by (nonlinear_arith)
                requires
                    r >= 0,
            ;
        }
    }
}

/// Any r with r^2 <= n < (r+1)^2 is the floor square root.
pub proof fn lemma_sqrt_floor_is(n: int, r: int)
    requires
        n >= 0,
        r >= 0,
        r * r <= n,
        n < (r + 1) * (r + 1),
    ensures
        sqrt_floor(n) == r,
{
    let s = sqrt_floor(n);
    lemma_sqrt_floor_bounds(n);
    if s < r {
        assert((s + 1) * (s + 1) <= r * r) by (nonlinear_arith)
            requires
                0 <= s + 1 <= r,
        ;
    }
    if r < s {
        assert((r + 1) * (r + 1) <= s * s) by (nonlinear_arith)
            requires
                0 <= r + 1 <= s,
        ;
    }
}

/// Floor square root by bisection.
pub fn isqrt(n: u64) -> (r: u64)
    requires
        n < 0x4000_0000_0000_0000,
    ensures
        r == sqrt_floor(n as int),
        r * r <= n,
        n < (r + 1) * (r + 1),
{
    let mut lo: u64 = 0;
    let mut hi: u64 = 0x8000_0000;
    assert((hi as int) * (hi as int) == 0x4000_0000_0000_0000) by (nonlinear_arith)
        requires
            hi == 0x8000_0000u64,
    ;
    while lo + 1 < hi
        invariant
            lo < hi <= 0x8000_0000,
            (lo as int) * (lo as int) <= n as int,
            (n as int) < (hi as int) * (hi as int),
        decreases hi - lo,
    {
        let mid: u64 = lo + (hi - lo) / 2;
        assert(lo < mid < hi);
        assert(mid * mid <= 0x4000_0000_0000_0000) by (nonlinear_arith)
            requires
                0 <= mid <= 0x8000_0000u64,
        ;
        if mid * mid <= n {
            lo = mid;
        } else {
            hi = mid;
        }
    }
    proof {
        lemma_sqrt_floor_is(n as int, lo as int);
    }
    lo
}

} // verus!
