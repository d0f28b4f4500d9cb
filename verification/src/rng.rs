use vstd::prelude::*;
use crate::params::MAX_DIM;

verus! {

/// Relies on macroquad::rand::gen_range (the quad_rand generator): it
/// returns low + (high - low) * r with r drawn in [0, 1) in f64 and the
/// value truncated back to the integer type. Within the admitted bounds
/// every quantity converts to f64 exactly (they are far below 2^53), so
/// the result never leaves [low, high]; at larger magnitudes the lossy
/// conversions could step outside the range, so such inputs are excluded.
/// Nothing more is promised of a random draw.
#[verifier::external_body]
pub(crate) fn random_in_range(low: i64, high: i64) -> (r: i64)
    requires
        -MAX_DIM <= low <= high <= MAX_DIM,
    ensures
        low <= r <= high,
{
    macroquad::rand::gen_range(low, high)
}

} // verus!
