use vstd::prelude::*;
use crate::num::{div_trunc, div_tz};
use crate::params::SCALE;

verus! {

// colorByte = min(mass * 5, 255) in unit terms; with mass in thousandths
// that is min(mass / 200, 255). Channels are colorByte, colorByte / 2 and
// 255 - colorByte / 3, to be divided by 255 by a presenter.

/// The byte that drives all three channels, a pure function of the mass.
pub open spec fn color_byte_spec(mass: int) -> int {
    let v = div_tz(mass * 5, SCALE as int);
    if v <= 255 {
        v
    } else {
        255
    }
}

/// The three color channels derived from a mass.
pub open spec fn color_spec(mass: int) -> (int, int, int) {
    let v = color_byte_spec(mass);
    (v, v / 2, 255 - v / 3)
}

/// Map a mass to its three color channel bytes. Same mass, same channels:
/// the result is fixed by `color_spec` alone.
pub fn color_of_mass(mass: i64) -> (c: (u8, u8, u8))
    requires
        0 <= mass,
    ensures
        (c.0 as int, c.1 as int, c.2 as int) == color_spec(mass as int),
{
    let scaled: i64 = if mass <= 51_000_000 {
        div_trunc(mass * 5, 1000)
    } else {
        255
    };
    let v: u8 = if scaled <= 255 {
        scaled as u8
    } else {
        255
    };
    proof {
        if mass > 51_000_000 {
            vstd::arithmetic::div_mod::lemma_div_is_ordered(
                51_000_000int * 5,
                mass as int * 5,
                SCALE as int,
            );
        }
    }
    (v, v / 2, 255 - v / 3)
}

} // verus!
