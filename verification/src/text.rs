//! Rationals as text: a numerator, a `/` and a denominator.

use crate::decimal::{
    bounded_integer_of, lemma_signed_numeral, push_signed_numeral, read_integer, signed_numeral,
};
use crate::error::RatError;
use crate::fraction::{lemma_normalize_fixed, normalize, Fraction};
use crate::rat::Rat;
use vstd::prelude::*;
use vstd::string::StringExecFns;

verus! {

/// The text of a fraction: the numeral of the numerator, a `/`, the numeral of
/// the denominator. A whole number keeps its `/1`.
pub open spec fn format_spec(f: Fraction) -> Seq<char> {
    signed_numeral(f.num) + seq!['/'] + signed_numeral(f.den)
}

/// The index of the last `c` in `s`.
pub open spec fn last_index_of(s: Seq<char>, c: char) -> Option<int>
    decreases s.len(),
{
    if s.len() == 0 {
        None
    } else if s.last() == c {
        Some(s.len() - 1)
    } else {
        last_index_of(s.drop_last(), c)
    }
}

/// What a text denotes: the fraction in lowest terms of the integers on the
/// two sides of its last `/`.
///
/// A text of fewer than three characters, a text without a `/` and a text with
/// a side that denotes no integer of a magnitude that fits are of invalid
/// format. A denominator that is zero is an error of its own.
pub open spec fn parse_spec(s: Seq<char>) -> Result<Fraction, RatError> {
    if s.len() < 3 {
        Err(RatError::InvalidFormat)
    } else {
        match last_index_of(s, '/') {
            None => Err(RatError::InvalidFormat),
            Some(at) => match (
                bounded_integer_of(s.subrange(0, at)),
                bounded_integer_of(s.subrange(at + 1, s.len() as int)),
            ) {
                (Some(num), Some(den)) => if den == 0 {
                    Err(RatError::ZeroDenominator)
                } else {
                    Ok(normalize(num, den))
                },
                _ => Err(RatError::InvalidFormat),
            },
        }
    }
}

/// The last index of `c` is the index of a `c` after which no `c` comes.
pub proof fn lemma_last_index_of(s: Seq<char>, c: char, at: int)
    requires
        0 <= at < s.len(),
        s[at] == c,
        forall|i: int| at < i < s.len() ==> s[i] != c,
    ensures
        last_index_of(s, c) == Some(at),
    decreases s.len(),
{
    if s.last() != c {
        lemma_last_index_of(s.drop_last(), c, at);
    }
}

/// Reading the text of a well-formed rational gives the rational back, where
/// the numerator has a negation in `i32`.
pub proof fn lemma_parse_format(a: Rat)
    requires
        a.wf(),
        a@.num > i32::MIN,
    ensures
        parse_spec(format_spec(a@)) == Ok::<Fraction, RatError>(a@),
{
    let left = signed_numeral(a@.num);
    let right = signed_numeral(a@.den);
    let s = format_spec(a@);
    let at = left.len() as int;
    a.lemma_view();
    lemma_signed_numeral(a@.num);
    lemma_signed_numeral(a@.den);
    lemma_last_index_of(s, '/', at);
    assert(s.subrange(0, at) =~= left);
    assert(s.subrange(at + 1, s.len() as int) =~= right);
    lemma_normalize_fixed(a@);
}

/// The characters of a text.
fn characters(text: &str) -> (v: Vec<char>)
    ensures
        v@ == text@,
{
    let mut v: Vec<char> = Vec::new();
    for c in it: text.chars()
        invariant
            v@ == it.seq().take(it.index() as int),
    {
        v.push(c);
    }
    v
}

/// Finds the last `c` in `v`.
fn last_index(v: &Vec<char>, c: char) -> (r: Option<usize>)
    ensures
        (match r {
            Some(at) => last_index_of(v@, c) == Some(at as int) && at < v.len(),
            None => last_index_of(v@, c) is None,
        }),
{
    let mut i: usize = v.len();
    assert(v@.take(i as int) =~= v@);
    while i > 0
        invariant
            i <= v.len(),
            last_index_of(v@, c) == last_index_of(v@.take(i as int), c),
        decreases i,
    {
        if v[i - 1] == c {
            return Some(i - 1);
        }
        assert(v@.take(i as int).drop_last() =~= v@.take(i - 1));
        i -= 1;
    }
    None
}

impl Rat {
    /// The text of the rational: the numerator, a `/`, the denominator, as
    /// they are stored.
    pub fn to_string(&self) -> (text: String)
        ensures
            text@ == format_spec(self@),
    {
        let mut text = String::new();
        push_signed_numeral(&mut text, self.numer());
        proof {
            reveal_strlit("/");
        }
        text.append("/");
        push_signed_numeral(&mut text, self.denom());
        assert(text@ =~= format_spec(self@));
        text
    }
}

impl core::str::FromStr for Rat {
    type Err = RatError;

    /// Reads a rational from a text of the form `numerator/denominator` and
    /// brings it to lowest terms.
    fn from_str(text: &str) -> (r: Result<Rat, RatError>)
        ensures
            (match r {
                Ok(q) => parse_spec(text@) == Ok::<Fraction, RatError>(q@) && q.wf(),
                Err(e) => parse_spec(text@) == Err::<Fraction, RatError>(e),
            }),
    {
        let v = characters(text);
        if v.len() < 3 {
            return Err(RatError::InvalidFormat);
        }
        match last_index(&v, '/') {
            None => Err(RatError::InvalidFormat),
            Some(at) => {
                let num = read_integer(&v, 0, at);
                let den = read_integer(&v, at + 1, v.len());
                match (num, den) {
                    (Some(num), Some(den)) => Rat::new(num, den),
                    _ => Err(RatError::InvalidFormat),
                }
            },
        }
    }
}

} // verus!
