use rational::{Rat, RatError};
use std::str::FromStr;

fn rat(num: i32, den: i32) -> Rat {
    Rat::new(num, den).unwrap()
}

#[test]
fn to_string_writes_numerator_slash_denominator() {
    assert_eq!(rat(6, 4).to_string(), "3/2");
    assert_eq!(rat(3, -4).to_string(), "-3/4");
    assert_eq!(rat(120, 7).to_string(), "120/7");
    assert_eq!(rat(1, 1000).to_string(), "1/1000");
}

#[test]
fn to_string_keeps_the_denominator_one() {
    assert_eq!(Rat::newint(5).to_string(), "5/1");
    assert_eq!(rat(10, 5).to_string(), "2/1");
    assert_eq!(rat(0, 7).to_string(), "0/1");
}

#[test]
fn to_string_at_the_ends_of_the_range() {
    assert_eq!(Rat::newint(i32::MAX).to_string(), "2147483647/1");
    assert_eq!(Rat::newint(i32::MIN).to_string(), "-2147483648/1");
    assert_eq!(rat(1, i32::MAX).to_string(), "1/2147483647");
}

#[test]
fn from_str_reads_and_reduces() {
    assert_eq!(Rat::from_str("1/2"), Ok(rat(1, 2)));
    assert_eq!(Rat::from_str("6/4"), Ok(rat(3, 2)));
    assert_eq!("6/4".parse::<Rat>().map(|r| (r.numer(), r.denom())), Ok((3, 2)));
    assert_eq!("10/1".parse::<Rat>(), Ok(Rat::newint(10)));
    assert_eq!("0/9".parse::<Rat>(), Ok(rat(0, 1)));
}

#[test]
fn from_str_takes_signs_on_both_sides() {
    assert_eq!("-3/4".parse::<Rat>(), Ok(rat(-3, 4)));
    assert_eq!("3/-4".parse::<Rat>(), Ok(rat(-3, 4)));
    assert_eq!("-3/-4".parse::<Rat>(), Ok(rat(3, 4)));
    assert_eq!("+3/+4".parse::<Rat>(), Ok(rat(3, 4)));
}

#[test]
fn from_str_takes_leading_zeros() {
    assert_eq!("007/014".parse::<Rat>(), Ok(rat(1, 2)));
    assert_eq!("-00/5".parse::<Rat>(), Ok(rat(0, 1)));
    assert_eq!(
        "00000000000000000001/00000000000000000003".parse::<Rat>(),
        Ok(rat(1, 3))
    );
}

#[test]
fn from_str_fails_without_a_separator() {
    assert_eq!("1".parse::<Rat>(), Err(RatError::InvalidFormat));
    assert_eq!("123".parse::<Rat>(), Err(RatError::InvalidFormat));
    assert_eq!("1:2".parse::<Rat>(), Err(RatError::InvalidFormat));
}

#[test]
fn from_str_fails_on_a_text_that_is_too_short() {
    assert_eq!("".parse::<Rat>(), Err(RatError::InvalidFormat));
    assert_eq!("/".parse::<Rat>(), Err(RatError::InvalidFormat));
    assert_eq!("1/".parse::<Rat>(), Err(RatError::InvalidFormat));
    assert_eq!("/2".parse::<Rat>(), Err(RatError::InvalidFormat));
}

#[test]
fn from_str_fails_on_text_that_is_no_number() {
    assert_eq!("a/b".parse::<Rat>(), Err(RatError::InvalidFormat));
    assert_eq!("1/b".parse::<Rat>(), Err(RatError::InvalidFormat));
    assert_eq!("a/2".parse::<Rat>(), Err(RatError::InvalidFormat));
    assert_eq!("1 / 2".parse::<Rat>(), Err(RatError::InvalidFormat));
    assert_eq!(" 1/2".parse::<Rat>(), Err(RatError::InvalidFormat));
    assert_eq!("1.5/2".parse::<Rat>(), Err(RatError::InvalidFormat));
    assert_eq!("--1/2".parse::<Rat>(), Err(RatError::InvalidFormat));
    assert_eq!("-/2".parse::<Rat>(), Err(RatError::InvalidFormat));
    assert_eq!("12/+".parse::<Rat>(), Err(RatError::InvalidFormat));
    assert_eq!("12//".parse::<Rat>(), Err(RatError::InvalidFormat));
    assert_eq!("\u{661}/\u{662}".parse::<Rat>(), Err(RatError::InvalidFormat));
    assert_eq!("\u{e9}/".parse::<Rat>(), Err(RatError::InvalidFormat));
}

#[test]
fn from_str_splits_at_the_last_separator() {
    assert_eq!("1/2/3".parse::<Rat>(), Err(RatError::InvalidFormat));
    assert_eq!("/1/2".parse::<Rat>(), Err(RatError::InvalidFormat));
}

#[test]
fn from_str_fails_on_a_number_out_of_range() {
    assert_eq!("2147483648/1".parse::<Rat>(), Err(RatError::InvalidFormat));
    assert_eq!("1/2147483648".parse::<Rat>(), Err(RatError::InvalidFormat));
    assert_eq!("-2147483649/1".parse::<Rat>(), Err(RatError::InvalidFormat));
    assert_eq!(
        "99999999999999999999999/1".parse::<Rat>(),
        Err(RatError::InvalidFormat)
    );
    assert_eq!(
        "99999999999999999999999x/1".parse::<Rat>(),
        Err(RatError::InvalidFormat)
    );
}

#[test]
fn from_str_fails_on_the_number_without_a_magnitude() {
    assert_eq!("-2147483648/1".parse::<Rat>(), Err(RatError::InvalidFormat));
    assert_eq!("1/-2147483648".parse::<Rat>(), Err(RatError::InvalidFormat));
}

#[test]
fn from_str_takes_the_largest_magnitudes() {
    assert_eq!("2147483647/1".parse::<Rat>(), Ok(Rat::newint(i32::MAX)));
    assert_eq!("-2147483647/1".parse::<Rat>(), Ok(Rat::newint(-i32::MAX)));
    assert_eq!(
        "2147483647/-2147483647".parse::<Rat>(),
        Ok(Rat::newint(-1))
    );
}

#[test]
fn from_str_fails_on_a_zero_denominator() {
    assert_eq!("1/0".parse::<Rat>(), Err(RatError::ZeroDenominator));
    assert_eq!("0/0".parse::<Rat>(), Err(RatError::ZeroDenominator));
    assert_eq!("5/-0".parse::<Rat>(), Err(RatError::ZeroDenominator));
    assert_eq!("5/000".parse::<Rat>(), Err(RatError::ZeroDenominator));
}

#[test]
fn reading_what_was_written_gives_the_value_back() {
    for num in -40i32..=40 {
        for den in 1i32..=40 {
            let a = rat(num, den);
            assert_eq!(a.to_string().parse::<Rat>(), Ok(a));
        }
    }
    let big = rat(i32::MAX, i32::MAX - 1);
    assert_eq!(big.to_string().parse::<Rat>(), Ok(big));
    let small = rat(-i32::MAX, 2);
    assert_eq!(small.to_string().parse::<Rat>(), Ok(small));
}

#[test]
fn the_text_agrees_with_the_decimal_text_of_the_parts() {
    for num in [-1000000007i32, -99, -10, -9, -1, 0, 1, 9, 10, 11, 99, 100, 101, 65535] {
        for den in [1i32, 7, 10, 99, 100, 1000003] {
            let a = rat(num, den);
            assert_eq!(a.to_string(), format!("{}/{}", a.numer(), a.denom()));
        }
    }
}

#[test]
fn each_side_reads_as_a_plain_integer_does() {
    let sides = [
        "0", "-0", "+0", "00", "7", "+7", "-7", "42", "-42", "0042", "2147483647", "-2147483647",
        "+2147483647", "2147483648", "-2147483649", "21474836470", "", "-", "+", "+-1", "-+1",
        "1-", "1+", "1 ", " 1", "1_000", "0x10", "1e3", "٣", "１", "1.0", "-1.0",
    ];
    for side in sides {
        let whole: Result<Rat, RatError> = format!("{}/1", side).parse::<Rat>();
        let under: Result<Rat, RatError> = format!("1/{}", side).parse::<Rat>();
        match side.parse::<i32>() {
            Ok(value) if value != i32::MIN => {
                assert_eq!(whole, Ok(Rat::newint(value)));
                assert_eq!(under, Rat::new(1, value));
            }
            _ => {
                assert_eq!(whole, Err(RatError::InvalidFormat));
                assert_eq!(under, Err(RatError::InvalidFormat));
            }
        }
    }
}

#[test]
fn debug_shows_both_parts() {
    assert_eq!(format!("{:?}", rat(6, 4)), "Rat { n: 3, d: 2 }");
    assert_eq!(format!("{:?}", RatError::ZeroDenominator), "ZeroDenominator");
    assert_eq!(format!("{:?}", RatError::InvalidFormat), "InvalidFormat");
}
