//! Divisibility and the greatest common divisor over the mathematical integers.

use vstd::arithmetic::div_mod::{
    lemma_fundamental_div_mod, lemma_mod_multiples_basic, lemma_mod_twice, lemma_small_mod,
    lemma_truncate_middle,
};
use vstd::math::abs;
use vstd::prelude::*;

verus! {

/// `k` is a positive factor of `x`.
pub open spec fn divides(k: int, x: int) -> bool {
    k > 0 && x % k == 0
}

/// `a` and `b` share no factor greater than 1.
pub open spec fn coprime(a: int, b: int) -> bool {
    forall|k: int| k > 1 ==> !(#[trigger] divides(k, a) && divides(k, b))
}

/// `g` is the greatest common factor of `a` and `b`: a factor of both, of
/// which every factor of both is a factor.
pub open spec fn is_greatest_common_factor(g: int, a: int, b: int) -> bool {
    &&& divides(g, a)
    &&& divides(g, b)
    &&& forall|k: int| divides(k, a) && divides(k, b) ==> #[trigger] divides(k, g)
}

/// The greatest common divisor of `a` and `b`, with `gcd(0, 0) == 0`.
///
/// Defined by Euclid's recurrence;
/// [`lemma_gcd_is_greatest_common_factor`] shows that it is the greatest
/// common factor.
pub open spec fn gcd(a: nat, b: nat) -> nat
    decreases b,
{
    if b == 0 {
        a
    } else {
        gcd(b, a % b)
    }
}

/// Every multiple of a positive `k` has `k` as a factor.
pub proof fn lemma_divides_multiple(k: int, q: int)
    requires
        k > 0,
    ensures
        divides(k, k * q),
        divides(k, q * k),
{
    lemma_mod_multiples_basic(q, k);
    assert(k * q == q * k) by (nonlinear_arith);
}

/// A number is its factor times the quotient.
pub proof fn lemma_divides_quotient(k: int, x: int)
    requires
        divides(k, x),
    ensures
        x == k * (x / k),
        x == (x / k) * k,
{
    lemma_fundamental_div_mod(x, k);
    assert(k * (x / k) == (x / k) * k) by (nonlinear_arith);
}

/// A factor of `x` and `y` is a factor of `x * c + y`.
pub proof fn lemma_divides_combination(k: int, x: int, c: int, y: int)
    requires
        divides(k, x),
        divides(k, y),
    ensures
        divides(k, x * c + y),
{
    let qx = x / k;
    let qy = y / k;
    lemma_divides_quotient(k, x);
    lemma_divides_quotient(k, y);
    assert(x * c + y == k * (qx * c + qy)) by (nonlinear_arith)
        requires
            x == k * qx,
            y == k * qy,
    ;
    lemma_divides_multiple(k, qx * c + qy);
}

/// A factor of a positive number is no larger than it.
pub proof fn lemma_divides_bound(k: int, x: int)
    requires
        divides(k, x),
        x > 0,
    ensures
        k <= x,
{
    lemma_divides_quotient(k, x);
    let q = x / k;
    assert(q >= 1) by (nonlinear_arith)
        requires
            x == k * q,
            x > 0,
            k > 0,
    ;
    assert(k <= k * q) by (nonlinear_arith)
        requires
            q >= 1,
            k > 0,
    ;
}

/// A number and its negation have the same factors.
pub proof fn lemma_divides_abs(k: int, x: int)
    ensures
        divides(k, x) <==> divides(k, abs(x) as int),
{
    if k > 0 && x < 0 {
        if divides(k, x) {
            lemma_divides_quotient(k, x);
            let q = x / k;
            assert(-x == k * (-q)) by (nonlinear_arith)
                requires
                    x == k * q,
            ;
            lemma_divides_multiple(k, -q);
        }
        if divides(k, -x) {
            lemma_divides_quotient(k, -x);
            let q = (-x) / k;
            assert(x == k * (-q)) by (nonlinear_arith)
                requires
                    -x == k * q,
            ;
            lemma_divides_multiple(k, -q);
        }
    }
}

/// The order of the arguments does not matter.
pub proof fn lemma_gcd_symmetric(a: nat, b: nat)
    ensures
        gcd(a, b) == gcd(b, a),
{
    reveal_with_fuel(gcd, 3);
    if a < b {
        lemma_small_mod(a, b);
    } else if b < a {
        lemma_small_mod(b, a);
    }
}

/// Replacing the first argument by its remainder modulo the second keeps the
/// greatest common divisor.
pub proof fn lemma_gcd_mod_left(a: nat, b: nat)
    requires
        b > 0,
    ensures
        gcd(a % b, b) == gcd(a, b),
{
    reveal_with_fuel(gcd, 2);
    lemma_mod_twice(a as int, b as int);
}

/// Replacing the second argument by its remainder modulo the first keeps the
/// greatest common divisor.
pub proof fn lemma_gcd_mod_right(a: nat, b: nat)
    requires
        a > 0,
    ensures
        gcd(a, b % a) == gcd(a, b),
{
    lemma_gcd_symmetric(a, b % a);
    lemma_gcd_mod_left(b, a);
    lemma_gcd_symmetric(b, a);
}

/// The greatest common divisor of a number and zero is the number.
pub proof fn lemma_gcd_zero(a: nat)
    ensures
        gcd(a, 0) == a,
        gcd(0, a) == a,
{
    lemma_gcd_symmetric(a, 0);
}

/// Unless both arguments are zero, the greatest common divisor is a positive
/// factor of both.
pub proof fn lemma_gcd_divides(a: nat, b: nat)
    requires
        a > 0 || b > 0,
    ensures
        gcd(a, b) > 0,
        divides(gcd(a, b) as int, a as int),
        divides(gcd(a, b) as int, b as int),
    decreases b,
{
    if b == 0 {
        lemma_divides_multiple(a as int, 1);
        lemma_divides_multiple(a as int, 0);
    } else {
        let r = a % b;
        lemma_gcd_divides(b, r);
        let g = gcd(b, r) as int;
        lemma_fundamental_div_mod(a as int, b as int);
        lemma_divides_combination(g, b as int, a as int / b as int, r as int);
    }
}

/// Every common factor of the arguments is a factor of their greatest common
/// divisor.
pub proof fn lemma_gcd_greatest(a: nat, b: nat, k: int)
    requires
        divides(k, a as int),
        divides(k, b as int),
    ensures
        divides(k, gcd(a, b) as int),
    decreases b,
{
    if b != 0 {
        let r = a % b;
        lemma_fundamental_div_mod(a as int, b as int);
        lemma_divides_combination(k, b as int, -(a as int / b as int), a as int);
        assert(b as int * -(a as int / b as int) + a as int == r as int) by (nonlinear_arith)
            requires
                a as int == b as int * (a as int / b as int) + r as int,
        ;
        lemma_gcd_greatest(b, r, k);
    }
}

/// Scaling both arguments by a positive factor scales the greatest common
/// divisor.
pub proof fn lemma_gcd_scale(k: nat, a: nat, b: nat)
    requires
        k > 0,
    ensures
        gcd(k * a, k * b) == k * gcd(a, b),
    decreases b,
{
    if b == 0 {
        assert(k * b == 0) by (nonlinear_arith)
            requires
                b == 0,
        ;
    } else {
        assert(k * b > 0) by (nonlinear_arith)
            requires
                k > 0,
                b > 0,
        ;
        lemma_truncate_middle(a as int, k as int, b as int);
        assert((k * a) % (k * b) == k * (a % b));
        lemma_gcd_scale(k, b, a % b);
    }
}

/// Every number is coprime to 1.
pub proof fn lemma_coprime_one(a: int)
    ensures
        coprime(a, 1),
{
    assert forall|k: int| k > 1 implies !(#[trigger] divides(k, a) && divides(k, 1)) by {
        lemma_small_mod(1, k as nat);
    }
}

/// The order of the arguments does not matter.
pub proof fn lemma_coprime_symmetric(a: int, b: int)
    ensures
        coprime(a, b) <==> coprime(b, a),
{
    if coprime(a, b) {
        assert forall|k: int| k > 1 implies !(#[trigger] divides(k, b) && divides(k, a)) by {
            assert(!(divides(k, a) && divides(k, b)));
        }
    }
    if coprime(b, a) {
        assert forall|k: int| k > 1 implies !(#[trigger] divides(k, a) && divides(k, b)) by {
            assert(!(divides(k, b) && divides(k, a)));
        }
    }
}

/// Two numbers are coprime exactly when their greatest common divisor is 1.
pub proof fn lemma_coprime_gcd(a: int, b: int)
    ensures
        coprime(a, b) <==> gcd(abs(a), abs(b)) == 1,
{
    let g = gcd(abs(a), abs(b));
    if a == 0 && b == 0 {
        assert(divides(2, a) && divides(2, b));
    } else {
        lemma_gcd_divides(abs(a), abs(b));
        lemma_divides_abs(g as int, a);
        lemma_divides_abs(g as int, b);
        if g == 1 {
            assert forall|k: int| k > 1 implies !(#[trigger] divides(k, a) && divides(k, b)) by {
                if divides(k, a) && divides(k, b) {
                    lemma_divides_abs(k, a);
                    lemma_divides_abs(k, b);
                    lemma_gcd_greatest(abs(a), abs(b), k);
                    lemma_divides_bound(k, g as int);
                }
            }
        } else {
            assert(divides(g as int, a) && divides(g as int, b));
        }
    }
}

/// Euclid's lemma: a factor of a product that is coprime to one of the
/// multiplicands is a factor of the other.
pub proof fn lemma_coprime_divides_product(k: int, a: int, c: int)
    requires
        coprime(k, a),
        divides(k, a * c),
    ensures
        divides(k, c),
{
    lemma_coprime_gcd(k, a);
    lemma_divides_abs(k, a * c);
    lemma_divides_abs(k, c);
    let m = abs(c);
    let n = abs(a);
    assert(abs(a * c) == n * m) by (nonlinear_arith)
        requires
            m == abs(c),
            n == abs(a),
    ;
    if m == 0 {
        lemma_divides_multiple(k, 0);
    } else {
        // gcd(m * k, m * |a|) == m, and k is a factor of both arguments.
        lemma_gcd_scale(m, k as nat, n);
        assert(m * gcd(k as nat, n) == m) by (nonlinear_arith)
            requires
                gcd(k as nat, n) == 1,
        ;
        lemma_divides_multiple(k, m as int);
        assert(m * n == n * m) by (nonlinear_arith);
        lemma_gcd_greatest(m * (k as nat), m * n, k);
    }
}

/// Unless both numbers are zero, the greatest common divisor of their
/// magnitudes is their greatest common factor, and no other number is.
pub proof fn lemma_gcd_is_greatest_common_factor(a: int, b: int)
    requires
        a != 0 || b != 0,
    ensures
        is_greatest_common_factor(gcd(abs(a), abs(b)) as int, a, b),
        forall|g: int| is_greatest_common_factor(g, a, b) ==> g == gcd(abs(a), abs(b)),
{
    let d = gcd(abs(a), abs(b)) as int;
    lemma_gcd_divides(abs(a), abs(b));
    lemma_divides_abs(d, a);
    lemma_divides_abs(d, b);
    assert forall|k: int| divides(k, a) && divides(k, b) implies #[trigger] divides(k, d) by {
        lemma_divides_abs(k, a);
        lemma_divides_abs(k, b);
        lemma_gcd_greatest(abs(a), abs(b), k);
    }
    assert forall|g: int| is_greatest_common_factor(g, a, b) implies g == d by {
        assert(divides(d, g));
        assert(divides(g, d));
        lemma_divides_bound(d, g);
        lemma_divides_bound(g, d);
    }
}

} // verus!
