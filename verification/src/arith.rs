//! The four arithmetic operators on rationals.
//!
//! Each operator forms its cross products in `i32` and brings the result to
//! lowest terms. Nothing is widened: what an operator asks of the magnitudes
//! is its `*_req`, which Verus demands at every use of the operator.

use crate::error::RatError;
use crate::fraction::{lemma_product_reciprocal, lemma_sum_zero, normalize};
use crate::range::{has_magnitude, in_i32};
use crate::rat::Rat;
use vstd::prelude::*;
use vstd::std_specs::ops::{AddSpec, MulSpec};

verus! {

impl core::ops::Add for Rat {
    type Output = Rat;

    /// The sum, in lowest terms.
    fn add(self, other: Rat) -> (r: Rat)
        ensures
            r@ == self@.sum(other@),
            r.wf(),
            r@.num * (self@.den * other@.den) == (self@.num * other@.den + other@.num
                * self@.den) * r@.den,
    {
        proof {
            lemma_positive_product(self@.den, other@.den);
        }
        let num: i32 = self.numer() * other.denom() + other.numer() * self.denom();
        let den: i32 = self.denom() * other.denom();
        let r = Rat::lowest_terms(num, den);
        proof {
            r.lemma_view();
        }
        r
    }
}

impl vstd::std_specs::ops::AddSpecImpl for Rat {
    open spec fn obeys_add_spec() -> bool {
        true
    }

    /// Both operands are well-formed; the cross products and the product of
    /// the denominators are in range; their sum is, and has a magnitude.
    open spec fn add_req(self, other: Rat) -> bool {
        &&& self.wf()
        &&& other.wf()
        &&& in_i32(self@.num * other@.den)
        &&& in_i32(other@.num * self@.den)
        &&& has_magnitude(self@.num * other@.den + other@.num * self@.den)
        &&& in_i32(self@.den * other@.den)
    }

    open spec fn add_spec(self, other: Rat) -> Rat {
        Rat::of(self@.sum(other@))
    }
}

impl core::ops::Sub for Rat {
    type Output = Rat;

    /// The difference, in lowest terms.
    fn sub(self, other: Rat) -> (r: Rat)
        ensures
            r@ == self@.difference(other@),
            r.wf(),
            r@.num * (self@.den * other@.den) == (self@.num * other@.den - other@.num
                * self@.den) * r@.den,
    {
        proof {
            lemma_positive_product(self@.den, other@.den);
        }
        let num: i32 = self.numer() * other.denom() - other.numer() * self.denom();
        let den: i32 = self.denom() * other.denom();
        let r = Rat::lowest_terms(num, den);
        proof {
            r.lemma_view();
        }
        r
    }
}

impl vstd::std_specs::ops::SubSpecImpl for Rat {
    open spec fn obeys_sub_spec() -> bool {
        true
    }

    /// Both operands are well-formed; the cross products and the product of
    /// the denominators are in range; their difference is, and has a
    /// magnitude.
    open spec fn sub_req(self, other: Rat) -> bool {
        &&& self.wf()
        &&& other.wf()
        &&& in_i32(self@.num * other@.den)
        &&& in_i32(other@.num * self@.den)
        &&& has_magnitude(self@.num * other@.den - other@.num * self@.den)
        &&& in_i32(self@.den * other@.den)
    }

    open spec fn sub_spec(self, other: Rat) -> Rat {
        Rat::of(self@.difference(other@))
    }
}

impl core::ops::Mul for Rat {
    type Output = Rat;

    /// The product, in lowest terms.
    fn mul(self, other: Rat) -> (r: Rat)
        ensures
            r@ == self@.product(other@),
            r.wf(),
            r@.num * (self@.den * other@.den) == (self@.num * other@.num) * r@.den,
    {
        proof {
            lemma_positive_product(self@.den, other@.den);
        }
        let num: i32 = self.numer() * other.numer();
        let den: i32 = self.denom() * other.denom();
        let r = Rat::lowest_terms(num, den);
        proof {
            r.lemma_view();
        }
        r
    }
}

impl vstd::std_specs::ops::MulSpecImpl for Rat {
    open spec fn obeys_mul_spec() -> bool {
        true
    }

    /// Both operands are well-formed; the product of the denominators is in
    /// range; the product of the numerators is, and has a magnitude.
    open spec fn mul_req(self, other: Rat) -> bool {
        &&& self.wf()
        &&& other.wf()
        &&& has_magnitude(self@.num * other@.num)
        &&& in_i32(self@.den * other@.den)
    }

    open spec fn mul_spec(self, other: Rat) -> Rat {
        Rat::of(self@.product(other@))
    }
}

impl core::ops::Div for Rat {
    type Output = Result<Rat, RatError>;

    /// The quotient, in lowest terms. Fails exactly when the divisor is zero.
    fn div(self, other: Rat) -> (r: Result<Rat, RatError>)
        ensures
            (match r {
                Ok(q) => {
                    &&& other@.num != 0
                    &&& q@ == self@.quotient(other@)
                    &&& q.wf()
                    &&& q@.num * (self@.den * other@.num) == (self@.num * other@.den) * q@.den
                },
                Err(e) => other@.num == 0 && e == RatError::ZeroDenominator,
            }),
    {
        proof {
            lemma_nonzero_product(self@.den, other@.num);
        }
        let num: i32 = self.numer() * other.denom();
        let den: i32 = self.denom() * other.numer();
        let r = Rat::new(num, den);
        proof {
            if let Ok(q) = r {
                q.lemma_view();
            }
        }
        r
    }
}

impl vstd::std_specs::ops::DivSpecImpl for Rat {
    open spec fn obeys_div_spec() -> bool {
        true
    }

    /// Both operands are well-formed; both cross products are in range and
    /// have a magnitude.
    open spec fn div_req(self, other: Rat) -> bool {
        &&& self.wf()
        &&& other.wf()
        &&& has_magnitude(self@.num * other@.den)
        &&& has_magnitude(self@.den * other@.num)
    }

    open spec fn div_spec(self, other: Rat) -> Result<Rat, RatError> {
        if other@.num == 0 {
            Err(RatError::ZeroDenominator)
        } else {
            Ok(Rat::of(self@.quotient(other@)))
        }
    }
}

/// Adding zero changes nothing: for every well-formed `a`, and for `zero` as
/// `Rat::new(0, 1)` gives it, `a + zero` is `a`.
pub proof fn lemma_add_zero(a: Rat, zero: Rat)
    requires
        a.wf(),
        zero@ == normalize(0, 1),
    ensures
        a.add_spec(zero) == a,
{
    lemma_sum_zero(a@);
    a.lemma_view();
}

/// A rational times its reciprocal is one: for every well-formed `a` other
/// than zero, for `r` as `a.recip()` gives it and `one` as `Rat::new(1, 1)`
/// gives it, `a * r` is `one`.
pub proof fn lemma_mul_recip(a: Rat, r: Rat, one: Rat)
    requires
        a.wf(),
        a@.num != 0,
        r@ == a@.reciprocal(),
        one@ == normalize(1, 1),
    ensures
        a.mul_spec(r) == one,
{
    lemma_product_reciprocal(a@);
    one.lemma_view();
}

/// The product of two positive numbers is positive.
proof fn lemma_positive_product(x: int, y: int)
    requires
        x > 0,
        y > 0,
    ensures
        x * y > 0,
{
    assert(x * y > 0) by (nonlinear_arith)
        requires
            x > 0,
            y > 0,
    ;
}

/// A product with a nonzero factor is zero exactly when the other factor is.
proof fn lemma_nonzero_product(x: int, y: int)
    requires
        x != 0,
    ensures
        x * y == 0 <==> y == 0,
{
    assert(x * y == 0 <==> y == 0) by (nonlinear_arith)
        requires
            x != 0,
    ;
}

} // verus!
