// Exhaustive worst-case ULP error measurement for single-precision
// approximations of sin(pi * x) over [smallest positive normal, 0.5].
//
// The library holds the exact parts of the measurement: the gap-free
// enumeration of the domain's bit patterns, the ULP distance between two
// bit patterns of the wider format, and the stable reduction to the
// worst-case (input, error) pair. Floating-point evaluation of the
// candidate polynomials and of the reference oracle happens outside the
// library, which receives only the resulting bit patterns.

pub mod harness;
pub mod ulp;
