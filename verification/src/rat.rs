//! Rational numbers as fractions of two `i32`.

use crate::error::RatError;
use crate::fraction::{lemma_normalize_fixed, lemma_normalize_wf, normalize, Fraction};
use crate::number_theory::{
    gcd, is_greatest_common_factor, lemma_coprime_one, lemma_gcd_is_greatest_common_factor,
    lemma_gcd_mod_left, lemma_gcd_mod_right, lemma_gcd_zero,
};
use crate::range::{has_magnitude, in_i32};
use vstd::math::abs;
use vstd::prelude::*;

verus! {

/// A rational number, held as a numerator and a denominator.
///
/// Every value that the constructors and the arithmetic hand out is
/// well-formed ([`Rat::wf`]): in lowest terms, the denominator positive.
///
/// The arithmetic does not widen the `i32`: an operation asks of its caller,
/// by its `requires`, that the magnitudes it forms fit.
#[derive(Copy, Clone, Debug, PartialEq, Eq, Structural)]
pub struct Rat {
    n: i32,
    d: i32,
}

impl View for Rat {
    type V = Fraction;

    closed spec fn view(&self) -> Fraction {
        Fraction { num: self.n as int, den: self.d as int }
    }
}

/// The magnitude of `x`.
fn magnitude(x: i32) -> (m: i32)
    requires
        x > i32::MIN,
    ensures
        m == abs(x as int),
{
    if x < 0 {
        -x
    } else {
        x
    }
}

/// The product of two `i32`, which always fits in an `i64`.
pub(crate) fn wide_product(x: i32, y: i32) -> (p: i64)
    ensures
        p == x * y,
{
    assert(-0x4000_0000_0000_0000 <= x * y <= 0x4000_0000_0000_0000) by (nonlinear_arith)
        requires
            -0x8000_0000 <= x <= 0x7fff_ffff,
            -0x8000_0000 <= y <= 0x7fff_ffff,
    ;
    (x as i64) * (y as i64)
}

/// Euclid's method on two numbers that are not both zero: their greatest
/// common factor, and whether exactly one of them is negative.
///
/// The magnitudes are reduced by one another's remainder, the larger by the
/// smaller, until one of them is zero; the other is the result.
fn euclid(inp1: i32, inp2: i32) -> (r: (i32, bool))
    requires
        inp1 > i32::MIN,
        inp2 > i32::MIN,
        inp1 != 0 || inp2 != 0,
    ensures
        r.0 == gcd(abs(inp1 as int), abs(inp2 as int)),
        is_greatest_common_factor(r.0 as int, inp1 as int, inp2 as int),
        r.1 == ((inp1 < 0) != (inp2 < 0)),
{
    let mut neg: bool = false;
    let mut n1: i32 = inp1;
    let mut n2: i32 = inp2;
    if n1 < 0 {
        neg = !neg;
        n1 = -n1;
    }
    if n2 < 0 {
        neg = !neg;
        n2 = -n2;
    }
    while n1 != 0 && n2 != 0
        invariant
            0 <= n1,
            0 <= n2,
            n1 != 0 || n2 != 0,
            gcd(n1 as nat, n2 as nat) == gcd(abs(inp1 as int), abs(inp2 as int)),
        decreases n1 + n2,
    {
        if n1 < n2 {
            proof {
                lemma_gcd_mod_right(n1 as nat, n2 as nat);
            }
            n2 = n2 % n1;
        } else {
            proof {
                lemma_gcd_mod_left(n1 as nat, n2 as nat);
            }
            n1 = n1 % n2;
        }
    }
    proof {
        lemma_gcd_zero(n1 as nat);
        lemma_gcd_zero(n2 as nat);
        lemma_gcd_is_greatest_common_factor(inp1 as int, inp2 as int);
    }
    if n1 == 0 {
        (n2, neg)
    } else {
        (n1, neg)
    }
}

/// The greatest common factor of two numbers, together with the sign of their
/// quotient: `true` when exactly one of them is negative.
///
/// Fails exactly when both numbers are zero, where every number is a common
/// factor. A single zero gives the magnitude of the other number.
pub fn gcf(inp1: i32, inp2: i32) -> (r: Result<(i32, bool), RatError>)
    requires
        inp1 > i32::MIN,
        inp2 > i32::MIN,
    ensures
        (match r {
            Ok((greatest, neg)) => {
                &&& inp1 != 0 || inp2 != 0
                &&& is_greatest_common_factor(greatest as int, inp1 as int, inp2 as int)
                &&& greatest == gcd(abs(inp1 as int), abs(inp2 as int))
                &&& neg == ((inp1 < 0) != (inp2 < 0))
            },
            Err(e) => inp1 == 0 && inp2 == 0 && e == RatError::ZeroDenominator,
        }),
{
    if inp1 == 0 && inp2 == 0 {
        Err(RatError::ZeroDenominator)
    } else {
        Ok(euclid(inp1, inp2))
    }
}

impl Rat {
    /// In lowest terms, with a positive denominator.
    pub open spec fn wf(&self) -> bool {
        self@.wf()
    }

    /// The rational that holds the fraction `f`, where both parts of `f` are in
    /// the range of `i32`.
    pub closed spec fn of(f: Fraction) -> Rat {
        Rat { n: f.num as i32, d: f.den as i32 }
    }

    /// Both parts of a rational are in the range of `i32`, and a rational is
    /// known by its fraction.
    pub proof fn lemma_view(self)
        ensures
            in_i32(self@.num),
            in_i32(self@.den),
            Rat::of(self@) == self,
    {
    }

    /// The fraction `num / den` in lowest terms, the sign on the numerator, for
    /// a denominator that is not zero.
    pub(crate) fn lowest_terms(num: i32, den: i32) -> (q: Rat)
        requires
            num > i32::MIN,
            den > i32::MIN,
            den != 0,
        ensures
            q@ == normalize(num as int, den as int),
            q.wf(),
            q@.num * den == num * q@.den,
    {
        let (greatest, neg) = euclid(num, den);
        proof {
            lemma_normalize_wf(num as int, den as int);
        }
        let n: i32 = magnitude(num) / greatest;
        let d: i32 = magnitude(den) / greatest;
        if neg {
            Rat { n: -n, d }
        } else {
            Rat { n, d }
        }
    }

    /// The fraction `num / den` in lowest terms, the sign on the numerator.
    ///
    /// Fails exactly when `den` is zero.
    pub fn new(num: i32, den: i32) -> (r: Result<Rat, RatError>)
        requires
            num > i32::MIN,
            den > i32::MIN,
        ensures
            (match r {
                Ok(q) => {
                    &&& den != 0
                    &&& q@ == normalize(num as int, den as int)
                    &&& q.wf()
                    &&& q@.num * den == num * q@.den
                },
                Err(e) => den == 0 && e == RatError::ZeroDenominator,
            }),
    {
        if den == 0 {
            Err(RatError::ZeroDenominator)
        } else {
            Ok(Rat::lowest_terms(num, den))
        }
    }

    /// The whole number `num`, as `num / 1`, stored as it is. Nothing is left
    /// to reduce: the result is the normal form of `num / 1`.
    pub fn newint(num: i32) -> (r: Rat)
        ensures
            r@ == (Fraction { num: num as int, den: 1 }),
            r@ == normalize(num as int, 1),
            r.wf(),
    {
        proof {
            lemma_coprime_one(num as int);
            lemma_normalize_fixed(Fraction { num: num as int, den: 1 });
        }
        Rat { n: num, d: 1 }
    }

    /// Brings the fraction to lowest terms in place, the sign on the numerator:
    /// `self` becomes what `new` makes of its numerator and denominator. A
    /// well-formed rational stays as it is.
    pub fn reduce(&mut self)
        requires
            old(self)@.den != 0,
            has_magnitude(old(self)@.num),
            has_magnitude(old(self)@.den),
        ensures
            final(self)@ == normalize(old(self)@.num, old(self)@.den),
            final(self).wf(),
            old(self).wf() ==> *final(self) == *old(self),
    {
        proof {
            if self.wf() {
                lemma_normalize_fixed(self@);
            }
        }
        *self = Rat::lowest_terms(self.n, self.d);
    }

    /// The reciprocal, in lowest terms.
    ///
    /// Fails exactly when the numerator is zero.
    pub fn recip(&self) -> (r: Result<Rat, RatError>)
        requires
            has_magnitude(self@.num),
            has_magnitude(self@.den),
        ensures
            (match r {
                Ok(q) => {
                    &&& self@.num != 0
                    &&& q@ == self@.reciprocal()
                    &&& q.wf()
                    &&& q@.num * self@.num == self@.den * q@.den
                },
                Err(e) => self@.num == 0 && e == RatError::ZeroDenominator,
            }),
    {
        Rat::new(self.d, self.n)
    }

    /// The numerator, as contracts see it.
    pub open spec fn spec_numer(&self) -> i32 {
        self@.num as i32
    }

    /// The denominator, as contracts see it.
    pub open spec fn spec_denom(&self) -> i32 {
        self@.den as i32
    }

    /// The numerator.
    #[verifier::when_used_as_spec(spec_numer)]
    pub fn numer(&self) -> (n: i32)
        ensures
            n == self@.num,
    {
        self.n
    }

    /// The denominator.
    #[verifier::when_used_as_spec(spec_denom)]
    pub fn denom(&self) -> (d: i32)
        ensures
            d == self@.den,
    {
        self.d
    }
}

} // verus!
