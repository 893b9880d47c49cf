//! Exact rational numbers over `i32`.
//!
//! A [`Rat`] is a fraction in lowest terms with a positive denominator, so that
//! every rational number has one representation and `==` on the two parts is
//! equality of values. It is built from a numerator and a denominator, from a
//! whole number or from text, and comes with `+`, `-`, `*`, `/`, the order by
//! value, a reciprocal and a textual form.
//!
//! The contracts speak of a rational through its view, a [`Fraction`] of
//! unbounded integers:
//!
//! - [`number_theory`] defines divisibility and the greatest common divisor;
//! - [`range`] names the bounds that `i32` sets;
//! - [`fraction`] defines the normal form of a fraction, the arithmetic on
//!   normal forms, and proves the laws that hold of them;
//! - [`rat`] holds the type, Euclid's method and the constructors;
//! - [`arith`] and [`order`] hold the operators;
//! - [`decimal`] and [`text`] define what text denotes which rational, and
//!   read and write it.
//!
//! Failure is a value: a zero denominator and a malformed text come back as a
//! [`RatError`]. Overflow is not: the constructors and the four operators
//! work in `i32`, and each states in its `requires` which magnitudes have to
//! fit.

pub mod arith;
pub mod decimal;
pub mod error;
pub mod fraction;
pub mod number_theory;
pub mod order;
pub mod range;
pub mod rat;
pub mod text;

pub use error::RatError;
pub use fraction::Fraction;
pub use rat::{gcf, Rat};
