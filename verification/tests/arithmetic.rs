use rational::{Rat, RatError};

fn rat(num: i32, den: i32) -> Rat {
    Rat::new(num, den).unwrap()
}

fn parts(r: Rat) -> (i32, i32) {
    (r.numer(), r.denom())
}

#[test]
fn one_third_plus_one_sixth_is_one_half() {
    assert_eq!(rat(1, 3) + rat(1, 6), rat(1, 2));
    assert_eq!(parts(rat(1, 3) + rat(1, 6)), (1, 2));
}

#[test]
fn add_cross_multiplies_and_reduces() {
    assert_eq!(parts(rat(1, 2) + rat(1, 3)), (5, 6));
    assert_eq!(parts(rat(1, 4) + rat(1, 4)), (1, 2));
    assert_eq!(parts(rat(-1, 2) + rat(1, 2)), (0, 1));
    assert_eq!(parts(rat(-1, 2) + rat(-1, 3)), (-5, 6));
}

#[test]
fn adding_zero_changes_nothing() {
    let zero = rat(0, 1);
    for num in -12i32..=12 {
        for den in 1i32..=12 {
            let a = rat(num, den);
            assert_eq!(a + zero, a);
            assert_eq!(zero + a, a);
        }
    }
}

#[test]
fn sub_cross_multiplies_and_reduces() {
    assert_eq!(parts(rat(1, 2) - rat(1, 3)), (1, 6));
    assert_eq!(parts(rat(1, 3) - rat(1, 2)), (-1, 6));
    assert_eq!(parts(rat(3, 4) - rat(3, 4)), (0, 1));
    assert_eq!(parts(rat(1, 2) - rat(-1, 2)), (1, 1));
}

#[test]
fn mul_multiplies_and_reduces() {
    assert_eq!(parts(rat(2, 3) * rat(3, 4)), (1, 2));
    assert_eq!(parts(rat(-2, 3) * rat(3, 4)), (-1, 2));
    assert_eq!(parts(rat(-2, 3) * rat(-3, 4)), (1, 2));
    assert_eq!(parts(rat(5, 7) * rat(0, 1)), (0, 1));
}

#[test]
fn a_rational_times_its_reciprocal_is_one() {
    let one = rat(1, 1);
    for num in -12i32..=12 {
        if num == 0 {
            continue;
        }
        for den in 1i32..=12 {
            let a = rat(num, den);
            assert_eq!(a * a.recip().unwrap(), one);
        }
    }
}

#[test]
fn div_multiplies_by_the_swapped_divisor() {
    assert_eq!((rat(1, 2) / rat(3, 4)).map(parts), Ok((2, 3)));
    assert_eq!((rat(1, 2) / rat(-3, 4)).map(parts), Ok((-2, 3)));
    assert_eq!((rat(-1, 2) / rat(-3, 4)).map(parts), Ok((2, 3)));
    assert_eq!((rat(0, 1) / rat(3, 4)).map(parts), Ok((0, 1)));
    assert_eq!((rat(6, 1) / rat(2, 1)).map(parts), Ok((3, 1)));
}

#[test]
fn div_by_a_zero_valued_rational_fails() {
    assert_eq!(rat(1, 2) / rat(0, 5), Err(RatError::ZeroDenominator));
    assert_eq!(rat(0, 1) / rat(0, 1), Err(RatError::ZeroDenominator));
}

#[test]
fn operators_leave_their_operands_alone() {
    let a = rat(1, 3);
    let b = rat(1, 6);
    let _ = a + b;
    let _ = a - b;
    let _ = a * b;
    let _ = a / b;
    assert_eq!(parts(a), (1, 3));
    assert_eq!(parts(b), (1, 6));
}

#[test]
fn results_are_in_lowest_terms_with_a_positive_denominator() {
    for an in -6i32..=6 {
        for ad in 1i32..=6 {
            for bn in -6i32..=6 {
                for bd in 1i32..=6 {
                    let a = rat(an, ad);
                    let b = rat(bn, bd);
                    let mut results = vec![a + b, a - b, a * b];
                    if let Ok(q) = a / b {
                        results.push(q);
                    }
                    for mut r in results {
                        let before = r;
                        assert!(r.denom() > 0);
                        r.reduce();
                        assert_eq!(r, before);
                    }
                }
            }
        }
    }
}
