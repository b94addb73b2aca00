use vstd::prelude::*;

verus! {

/// Mantissa digits of the narrower (single-precision) format, including the
/// implicit leading bit.
pub const NARROW_MANTISSA_DIGITS: u32 = 24;

/// Mantissa digits of the wider (double-precision) format, including the
/// implicit leading bit.
pub const WIDE_MANTISSA_DIGITS: u32 = 53;

/// Scaling exponent: a raw bit distance in the wider format, multiplied by
/// two to the power of minus this constant, is a ULP count in the narrower
/// format.
pub const ULP_SHIFT: u32 = WIDE_MANTISSA_DIGITS - NARROW_MANTISSA_DIGITS;

/// Distance between two bit patterns of the wider format: the absolute
/// difference of the two unsigned values.
pub open spec fn ulp_dist(a: u64, b: u64) -> u64 {
    if a >= b {
        (a - b) as u64
    } else {
        (b - a) as u64
    }
}

/// Raw bit distance between a candidate result and a reference result, both
/// given as bit patterns of the wider format.
pub fn ulp_distance(a: u64, b: u64) -> (r: u64)
    ensures
        r == ulp_dist(a, b),
{
    if a >= b {
        a - b
    } else {
        b - a
    }
}

/// The distance is symmetric, and the distance from a value to itself is
/// zero.
pub proof fn lemma_ulp_dist_symmetric(a: u64, b: u64)
    ensures
        ulp_dist(a, b) == ulp_dist(b, a),
        ulp_dist(a, a) == 0,
{
}

} // verus!
