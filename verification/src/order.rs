//! The order of rationals by value.

use crate::fraction::{lemma_order_by_difference, lemma_wf_unique};
use crate::rat::{wide_product, Rat};
use core::cmp::Ordering;
use vstd::prelude::*;
use vstd::std_specs::cmp::PartialOrdSpec;

verus! {

impl PartialOrd for Rat {
    /// Compares the values by their cross products, formed in `i64`, where
    /// they always fit: the comparison is exact for every pair, and never
    /// `None`. For well-formed operands it is the sign of the numerator of
    /// their difference ([`lemma_order_is_sign_of_difference`]).
    fn partial_cmp(&self, other: &Rat) -> (r: Option<Ordering>) {
        let left: i64 = wide_product(self.numer(), other.denom());
        let right: i64 = wide_product(other.numer(), self.denom());
        if left < right {
            Some(Ordering::Less)
        } else if left > right {
            Some(Ordering::Greater)
        } else {
            Some(Ordering::Equal)
        }
    }
}

impl vstd::std_specs::cmp::PartialOrdSpecImpl for Rat {
    open spec fn obeys_partial_cmp_spec() -> bool {
        true
    }

    /// The order of the values, for well-formed operands: `Less` where the
    /// value of `self` is the smaller, `Greater` where it is the larger.
    open spec fn partial_cmp_spec(&self, other: &Rat) -> Option<Ordering> {
        if self@.less_than(other@) {
            Some(Ordering::Less)
        } else if other@.less_than(self@) {
            Some(Ordering::Greater)
        } else {
            Some(Ordering::Equal)
        }
    }
}

/// Two well-formed rationals compare as equal exactly when they are the same
/// rational, numerator and denominator: the order and `==` agree.
pub proof fn lemma_equal_is_same(a: Rat, b: Rat)
    requires
        a.wf(),
        b.wf(),
    ensures
        a.partial_cmp_spec(&b) == Some(Ordering::Equal) <==> a == b,
{
    a.lemma_view();
    b.lemma_view();
    if a@.same_value(b@) {
        lemma_wf_unique(a@, b@);
    }
}

/// The order of two well-formed rationals is the sign of the numerator of
/// their difference: `Less` where it is negative, `Equal` where it is zero,
/// `Greater` where it is positive.
pub proof fn lemma_order_is_sign_of_difference(a: Rat, b: Rat)
    requires
        a.wf(),
        b.wf(),
    ensures
        a.partial_cmp_spec(&b) == Some(
            if a@.difference(b@).num < 0 {
                Ordering::Less
            } else if a@.difference(b@).num == 0 {
                Ordering::Equal
            } else {
                Ordering::Greater
            },
        ),
{
    lemma_order_by_difference(a@, b@);
}

} // verus!
