//! The mathematical model of a rational number: a fraction of unbounded
//! integers, its normal form, and the arithmetic on normal forms.

use crate::number_theory::{
    coprime, divides, gcd, lemma_coprime_divides_product, lemma_coprime_gcd, lemma_coprime_one,
    lemma_coprime_symmetric, lemma_divides_bound, lemma_divides_multiple, lemma_divides_quotient,
    lemma_gcd_divides, lemma_gcd_scale,
};
use vstd::math::abs;
use vstd::prelude::*;

verus! {

/// A numerator over a denominator, both unbounded.
pub struct Fraction {
    pub num: int,
    pub den: int,
}

/// The sign that the normal form of `num / den` carries on its numerator: `-1`
/// when exactly one of the two is negative, else `1`.
pub open spec fn sign_factor(num: int, den: int) -> int {
    if (num < 0) != (den < 0) {
        -1
    } else {
        1
    }
}

/// The normal form of `num / den`: both magnitudes divided by their greatest
/// common divisor, the sign moved to the numerator.
///
/// For `den != 0` this is the one fraction in lowest terms with a positive
/// denominator that has the value `num / den`
/// ([`lemma_normalize_wf`], [`lemma_wf_unique`]).
pub open spec fn normalize(num: int, den: int) -> Fraction {
    let g = gcd(abs(num), abs(den)) as int;
    Fraction { num: sign_factor(num, den) * (abs(num) as int / g), den: abs(den) as int / g }
}

impl Fraction {
    /// In lowest terms, with a positive denominator. A zero numerator forces the
    /// denominator 1.
    pub open spec fn wf(self) -> bool {
        self.den > 0 && coprime(self.num, self.den)
    }

    /// Both fractions denote the same rational number.
    pub open spec fn same_value(self, other: Fraction) -> bool {
        self.num * other.den == other.num * self.den
    }

    /// The value of `self` is less than the value of `other`, where both
    /// denominators are positive.
    pub open spec fn less_than(self, other: Fraction) -> bool {
        self.num * other.den < other.num * self.den
    }

    /// The normal form of the swapped fraction.
    pub open spec fn reciprocal(self) -> Fraction {
        normalize(self.den, self.num)
    }

    /// The normal form of the cross-multiplied sum.
    pub open spec fn sum(self, other: Fraction) -> Fraction {
        normalize(self.num * other.den + other.num * self.den, self.den * other.den)
    }

    /// The normal form of the cross-multiplied difference.
    pub open spec fn difference(self, other: Fraction) -> Fraction {
        normalize(self.num * other.den - other.num * self.den, self.den * other.den)
    }

    /// The normal form of the product.
    pub open spec fn product(self, other: Fraction) -> Fraction {
        normalize(self.num * other.num, self.den * other.den)
    }

    /// The normal form of the product with the swapped divisor.
    pub open spec fn quotient(self, other: Fraction) -> Fraction {
        normalize(self.num * other.den, self.den * other.num)
    }
}

/// Normalizing a fraction with a nonzero denominator gives a well-formed
/// fraction of the same value.
pub proof fn lemma_normalize_wf(num: int, den: int)
    requires
        den != 0,
    ensures
        normalize(num, den).wf(),
        normalize(num, den).same_value(Fraction { num, den }),
        normalize(num, den).num * den == num * normalize(num, den).den,
{
    let a = abs(num);
    let b = abs(den);
    let g = gcd(a, b);
    let s = sign_factor(num, den);
    lemma_gcd_divides(a, b);
    lemma_divides_quotient(g as int, a as int);
    lemma_divides_quotient(g as int, b as int);
    let n = (a as int / g as int) as nat;
    let d = (b as int / g as int) as nat;
    assert(a as int / g as int >= 0 && b as int / g as int > 0) by (nonlinear_arith)
        requires
            a as int == g as int * (a as int / g as int),
            b as int == g as int * (b as int / g as int),
            g > 0,
            a >= 0,
            b > 0,
    ;
    assert(a == g * n && b == g * d);
    lemma_gcd_scale(g, n, d);
    assert(gcd(n, d) == 1) by (nonlinear_arith)
        requires
            g == g * gcd(n, d),
            g > 0,
    ;
    assert(abs(s * n) == n && abs(d as int) == d) by (nonlinear_arith)
        requires
            s == 1 || s == -1,
    ;
    lemma_coprime_gcd(s * n, d as int);
    assert((s * n) * den == num * d) by (nonlinear_arith)
        requires
            a == g * n,
            b == g * d,
            a == abs(num),
            b == abs(den),
            s == sign_factor(num, den),
            den != 0,
    ;
}

/// Two well-formed fractions of the same value are the same fraction.
pub proof fn lemma_wf_unique(p: Fraction, q: Fraction)
    requires
        p.wf(),
        q.wf(),
        p.same_value(q),
    ensures
        p == q,
{
    lemma_den_divides(p, q);
    lemma_den_divides(q, p);
    lemma_divides_bound(p.den, q.den);
    lemma_divides_bound(q.den, p.den);
    assert(p.num == q.num) by (nonlinear_arith)
        requires
            p.num * q.den == q.num * p.den,
            p.den == q.den,
            p.den > 0,
    ;
}

/// The denominator of a well-formed fraction is a factor of the denominator of
/// every fraction of the same value.
proof fn lemma_den_divides(p: Fraction, q: Fraction)
    requires
        p.wf(),
        p.same_value(q),
    ensures
        divides(p.den, q.den),
{
    lemma_divides_multiple(p.den, q.num);
    lemma_coprime_symmetric(p.num, p.den);
    lemma_coprime_divides_product(p.den, p.num, q.den);
}

/// A well-formed fraction with the numerator zero has the denominator 1.
pub proof fn lemma_wf_zero(p: Fraction)
    requires
        p.wf(),
        p.num == 0,
    ensures
        p.den == 1,
{
    lemma_divides_multiple(p.den, 0);
    lemma_divides_multiple(p.den, 1);
    assert(divides(p.den, p.num) && divides(p.den, p.den));
}

/// Fractions of the same value have the same normal form.
pub proof fn lemma_normalize_same_value(n1: int, d1: int, n2: int, d2: int)
    requires
        d1 != 0,
        d2 != 0,
        n1 * d2 == n2 * d1,
    ensures
        normalize(n1, d1) == normalize(n2, d2),
{
    let p = normalize(n1, d1);
    let q = normalize(n2, d2);
    lemma_normalize_wf(n1, d1);
    lemma_normalize_wf(n2, d2);
    assert(p.num * q.den == q.num * p.den) by (nonlinear_arith)
        requires
            p.num * d1 == n1 * p.den,
            q.num * d2 == n2 * q.den,
            n1 * d2 == n2 * d1,
            d1 != 0,
            d2 != 0,
    ;
    lemma_wf_unique(p, q);
}

/// Normalizing a well-formed fraction changes nothing.
pub proof fn lemma_normalize_fixed(p: Fraction)
    requires
        p.wf(),
    ensures
        normalize(p.num, p.den) == p,
{
    lemma_normalize_wf(p.num, p.den);
    lemma_wf_unique(normalize(p.num, p.den), p);
}

/// Over a positive denominator the normal form keeps the sign of the
/// numerator.
pub proof fn lemma_normalize_sign(num: int, den: int)
    requires
        den > 0,
    ensures
        normalize(num, den).num < 0 <==> num < 0,
        normalize(num, den).num == 0 <==> num == 0,
{
    let p = normalize(num, den);
    lemma_normalize_wf(num, den);
    assert((p.num < 0 <==> num < 0) && (p.num == 0 <==> num == 0)) by (nonlinear_arith)
        requires
            p.num * den == num * p.den,
            den > 0,
            p.den > 0,
    ;
}

/// Zero is `0/1`, and one is `1/1`.
pub proof fn lemma_normalize_zero_one()
    ensures
        normalize(0, 1) == (Fraction { num: 0, den: 1 }),
        normalize(1, 1) == (Fraction { num: 1, den: 1 }),
{
    lemma_coprime_one(0);
    lemma_coprime_one(1);
    lemma_normalize_fixed(Fraction { num: 0, den: 1 });
    lemma_normalize_fixed(Fraction { num: 1, den: 1 });
}

/// Adding zero changes nothing: for every well-formed `a`, `a + 0/1` is `a`.
pub proof fn lemma_sum_zero(a: Fraction)
    requires
        a.wf(),
    ensures
        a.sum(normalize(0, 1)) == a,
{
    let zero = normalize(0, 1);
    lemma_normalize_zero_one();
    assert(a.num * zero.den + zero.num * a.den == a.num && a.den * zero.den == a.den)
        by (nonlinear_arith)
        requires
            zero.num == 0,
            zero.den == 1,
    ;
    lemma_normalize_fixed(a);
}

/// A rational times its reciprocal is one: for every well-formed `a` other
/// than zero, `a * (1/a)` is `1/1`.
pub proof fn lemma_product_reciprocal(a: Fraction)
    requires
        a.wf(),
        a.num != 0,
    ensures
        a.reciprocal().wf(),
        a.product(a.reciprocal()) == normalize(1, 1),
{
    let r = a.reciprocal();
    lemma_normalize_wf(a.den, a.num);
    assert(a.num * r.num == a.den * r.den && a.den * r.den != 0) by (nonlinear_arith)
        requires
            r.num * a.num == a.den * r.den,
            a.den > 0,
            r.den > 0,
    ;
    lemma_normalize_same_value(a.num * r.num, a.den * r.den, 1, 1);
}

/// The order of two well-formed fractions is the sign of the numerator of
/// their difference: negative where the first is less, zero where they are
/// the same fraction, positive where the first is greater.
pub proof fn lemma_order_by_difference(a: Fraction, b: Fraction)
    requires
        a.wf(),
        b.wf(),
    ensures
        a.less_than(b) <==> a.difference(b).num < 0,
        a == b <==> a.difference(b).num == 0,
        b.less_than(a) <==> a.difference(b).num > 0,
{
    let den = a.den * b.den;
    assert(den > 0) by (nonlinear_arith)
        requires
            den == a.den * b.den,
            a.den > 0,
            b.den > 0,
    ;
    lemma_normalize_sign(a.num * b.den - b.num * a.den, den);
    if a.same_value(b) {
        lemma_wf_unique(a, b);
    }
}

} // verus!
