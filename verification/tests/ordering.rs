use rational::Rat;
use std::cmp::Ordering;

fn rat(num: i32, den: i32) -> Rat {
    Rat::new(num, den).unwrap()
}

#[test]
fn one_half_is_less_than_two_thirds() {
    assert!(rat(1, 2) < rat(2, 3));
    assert!(rat(2, 3) > rat(1, 2));
    assert_eq!(rat(1, 2).partial_cmp(&rat(2, 3)), Some(Ordering::Less));
    assert_eq!(rat(2, 3).partial_cmp(&rat(1, 2)), Some(Ordering::Greater));
}

#[test]
fn a_negative_rational_is_less_than_zero() {
    assert!(rat(-1, 2) < rat(0, 1));
    assert!(rat(0, 1) > rat(-1, 2));
    assert!(rat(-1, 2) < rat(-1, 3));
}

#[test]
fn equal_after_normalization() {
    assert_eq!(rat(3, 6), rat(1, 2));
    assert!(rat(3, 6) == rat(1, 2));
    assert_eq!(rat(3, 6).partial_cmp(&rat(1, 2)), Some(Ordering::Equal));
    assert!(rat(3, 6) <= rat(1, 2));
    assert!(rat(3, 6) >= rat(1, 2));
    assert!(!(rat(3, 6) < rat(1, 2)));
}

#[test]
fn different_values_are_not_equal() {
    assert_ne!(rat(1, 2), rat(1, 3));
    assert_ne!(rat(1, 2), rat(-1, 2));
}

#[test]
fn the_order_is_exact_at_the_largest_magnitudes() {
    let big = Rat::newint(i32::MAX);
    let small = Rat::newint(i32::MIN);
    assert!(small < big);
    assert!(rat(i32::MAX - 1, i32::MAX) < rat(1, 1));
    assert!(rat(1, i32::MAX) < rat(1, i32::MAX - 1));
    assert!(rat(-1, i32::MAX) > rat(-1, i32::MAX - 1));
}

#[test]
fn the_order_is_the_sign_of_the_difference() {
    for an in -5i32..=5 {
        for ad in 1i32..=5 {
            for bn in -5i32..=5 {
                for bd in 1i32..=5 {
                    let a = rat(an, ad);
                    let b = rat(bn, bd);
                    let expected = (a - b).numer().cmp(&0);
                    assert_eq!(a.partial_cmp(&b), Some(expected));
                    assert_eq!(expected == Ordering::Equal, a == b);
                }
            }
        }
    }
}
