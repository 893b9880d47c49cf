//! The ways in which building a rational can fail.

use vstd::prelude::*;

verus! {

/// Why no rational was produced.
#[derive(Clone, Copy, Debug, PartialEq, Eq, Structural)]
pub enum RatError {
    /// The fraction asked for has the denominator zero: a zero denominator was
    /// given, the reciprocal of zero was taken, or the divisor was zero. Also
    /// the answer to the greatest common factor of zero and zero.
    ZeroDenominator,
    /// The text is not a numerator, a `/` and a denominator, each an integer
    /// with a magnitude in `i32`.
    InvalidFormat,
}

} // verus!
