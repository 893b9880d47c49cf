//! Decimal numerals: the text of an integer, and the integer of a text.

use crate::range::has_magnitude;
use vstd::prelude::*;
use vstd::string::StringExecFns;

verus! {

/// `c` is one of `0` to `9`.
pub open spec fn is_digit(c: char) -> bool {
    '0' <= c <= '9'
}

/// The number that the digit `c` denotes.
pub open spec fn digit_value(c: char) -> int {
    c as int - '0' as int
}

/// The digit that denotes `d`, for `d` below ten.
pub open spec fn digit_char(d: int) -> char {
    (d + '0' as int) as char
}

/// Every element is a digit.
pub open spec fn all_digits(s: Seq<char>) -> bool {
    forall|i: int| 0 <= i < s.len() ==> is_digit(#[trigger] s[i])
}

/// The number that a sequence of digits denotes, read in base ten. Leading
/// zeros change nothing, and no digits denote zero.
pub open spec fn digits_value(s: Seq<char>) -> nat
    decreases s.len(),
{
    if s.len() == 0 {
        0
    } else {
        (digits_value(s.drop_last()) * 10 + digit_value(s.last())) as nat
    }
}

/// The decimal numeral of `n`: its digits, the most significant first,
/// without leading zeros.
pub open spec fn numeral(n: nat) -> Seq<char>
    decreases n,
{
    if n < 10 {
        seq![digit_char(n as int)]
    } else {
        numeral(n / 10).push(digit_char(n as int % 10))
    }
}

/// The decimal numeral of `x`, with a `-` in front where `x` is negative.
pub open spec fn signed_numeral(x: int) -> Seq<char> {
    if x < 0 {
        seq!['-'] + numeral((-x) as nat)
    } else {
        numeral(x as nat)
    }
}

/// The integer that a text denotes: one or more digits, with at most one sign
/// in front of them, `+` or `-`. Any other text denotes none.
pub open spec fn integer_of(s: Seq<char>) -> Option<int> {
    if s.len() > 0 && (s[0] == '-' || s[0] == '+') {
        let digits = s.skip(1);
        if digits.len() > 0 && all_digits(digits) {
            Some(
                if s[0] == '-' {
                    -(digits_value(digits) as int)
                } else {
                    digits_value(digits) as int
                },
            )
        } else {
            None
        }
    } else if s.len() > 0 && all_digits(s) {
        Some(digits_value(s) as int)
    } else {
        None
    }
}

/// The integer that a text denotes, where it has a magnitude in `i32`.
pub open spec fn bounded_integer_of(s: Seq<char>) -> Option<int> {
    match integer_of(s) {
        Some(x) => if has_magnitude(x) {
            Some(x)
        } else {
            None
        },
        None => None,
    }
}

/// Appending a digit to a sequence of digits multiplies its value by ten and
/// adds the digit.
pub proof fn lemma_digits_value_push(s: Seq<char>, c: char)
    requires
        is_digit(c),
    ensures
        digits_value(s.push(c)) == digits_value(s) * 10 + digit_value(c),
{
    assert(s.push(c).drop_last() =~= s);
}

/// A sequence of digits denotes at least what each of its prefixes denotes.
pub proof fn lemma_digits_value_prefix(s: Seq<char>, k: int)
    requires
        all_digits(s),
        0 <= k <= s.len(),
    ensures
        digits_value(s.take(k)) <= digits_value(s),
    decreases s.len() - k,
{
    if k < s.len() {
        assert(s.take(k + 1) =~= s.take(k).push(s[k]));
        lemma_digits_value_push(s.take(k), s[k]);
        lemma_digits_value_prefix(s, k + 1);
    } else {
        assert(s.take(k) =~= s);
    }
}

/// A numeral is one or more digits, and denotes the number it was made from.
pub proof fn lemma_numeral(n: nat)
    ensures
        numeral(n).len() > 0,
        all_digits(numeral(n)),
        digits_value(numeral(n)) == n,
    decreases n,
{
    if n < 10 {
        let s = numeral(n);
        assert(s.drop_last() =~= Seq::<char>::empty());
        assert(digits_value(s.drop_last()) == 0);
    } else {
        lemma_numeral(n / 10);
        lemma_digits_value_push(numeral(n / 10), digit_char(n as int % 10));
    }
}

/// The numeral of an integer denotes that integer, and holds no `/`.
pub proof fn lemma_signed_numeral(x: int)
    ensures
        integer_of(signed_numeral(x)) == Some(x),
        signed_numeral(x).len() > 0,
        forall|i: int| 0 <= i < signed_numeral(x).len() ==> signed_numeral(x)[i] != '/',
{
    let s = signed_numeral(x);
    if x < 0 {
        let digits = numeral((-x) as nat);
        lemma_numeral((-x) as nat);
        assert(s.skip(1) =~= digits);
        assert forall|i: int| 0 <= i < s.len() implies s[i] != '/' by {
            if i > 0 {
                assert(is_digit(digits[i - 1]));
            }
        }
    } else {
        lemma_numeral(x as nat);
        assert(is_digit(s[0]));
        assert forall|i: int| 0 <= i < s.len() implies s[i] != '/' by {
            assert(is_digit(s[i]));
        }
    }
}

/// The text of one digit.
fn digit_text(d: u32) -> (text: &'static str)
    requires
        d < 10,
    ensures
        text@ == seq![digit_char(d as int)],
{
    proof {
        reveal_strlit("0");
        reveal_strlit("1");
        reveal_strlit("2");
        reveal_strlit("3");
        reveal_strlit("4");
        reveal_strlit("5");
        reveal_strlit("6");
        reveal_strlit("7");
        reveal_strlit("8");
        reveal_strlit("9");
    }
    let text = match d {
        0 => "0",
        1 => "1",
        2 => "2",
        3 => "3",
        4 => "4",
        5 => "5",
        6 => "6",
        7 => "7",
        8 => "8",
        _ => "9",
    };
    assert(text@ =~= seq![digit_char(d as int)]);
    text
}

/// Appends the numeral of `n` to `out`.
fn push_numeral(out: &mut String, n: u32)
    ensures
        final(out)@ == old(out)@ + numeral(n as nat),
    decreases n,
{
    if n >= 10 {
        push_numeral(out, n / 10);
    }
    out.append(digit_text(n % 10));
    assert(out@ =~= old(out)@ + numeral(n as nat));
}

/// Appends the numeral of `x` to `out`, with a `-` in front where `x` is
/// negative.
pub(crate) fn push_signed_numeral(out: &mut String, x: i32)
    ensures
        final(out)@ == old(out)@ + signed_numeral(x as int),
{
    if x < 0 {
        proof {
            reveal_strlit("-");
        }
        out.append("-");
        push_numeral(out, (-(x as i64)) as u32);
        assert(out@ =~= old(out)@ + signed_numeral(x as int));
    } else {
        push_numeral(out, x as u32);
    }
}

/// Reads the integer that `v[from..to]` denotes, where it has a magnitude in
/// `i32`.
#[verifier::loop_isolation(false)]
pub(crate) fn read_integer(v: &Vec<char>, from: usize, to: usize) -> (r: Option<i32>)
    requires
        from <= to <= v.len(),
    ensures
        (match r {
            Some(x) => bounded_integer_of(v@.subrange(from as int, to as int)) == Some(x as int),
            None => bounded_integer_of(v@.subrange(from as int, to as int)) is None,
        }),
{
    let ghost s = v@.subrange(from as int, to as int);
    if from == to {
        return None;
    }
    let negative = v[from] == '-';
    let start: usize = if v[from] == '-' || v[from] == '+' {
        from + 1
    } else {
        from
    };
    let ghost digits = v@.subrange(start as int, to as int);
    assert(s[0] == v@[from as int]);
    assert(start > from ==> s.skip(1) =~= digits);
    assert(start == from ==> s =~= digits);
    if start == to {
        return None;
    }
    let mut acc: i64 = 0;
    let mut i: usize = start;
    assert(digits.take(0) =~= Seq::<char>::empty());
    while i < to
        invariant
            start <= i <= to,
            all_digits(digits.take(i - start)),
            acc == digits_value(digits.take(i - start)),
            0 <= acc <= i32::MAX,
        decreases to - i,
    {
        let c = v[i];
        assert(digits[i - start] == c);
        if !('0' <= c && c <= '9') {
            return None;
        }
        proof {
            assert(digits.take(i + 1 - start) =~= digits.take(i - start).push(c));
            lemma_digits_value_push(digits.take(i - start), c);
        }
        acc = acc * 10 + (c as i64 - '0' as i64);
        if acc > i32::MAX as i64 {
            proof {
                if all_digits(digits) {
                    lemma_digits_value_prefix(digits, i + 1 - start);
                }
            }
            return None;
        }
        i += 1;
    }
    assert(digits.take(to - start) =~= digits);
    if negative {
        Some((-acc) as i32)
    } else {
        Some(acc as i32)
    }
}

} // verus!
