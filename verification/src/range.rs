//! The range of `i32`.

use vstd::prelude::*;

verus! {

/// `x` is in the range of `i32`.
pub open spec fn in_i32(x: int) -> bool {
    i32::MIN <= x <= i32::MAX
}

/// `x` and `-x` are both in the range of `i32`: `x` is any number of the range
/// but the least.
pub open spec fn has_magnitude(x: int) -> bool {
    i32::MIN < x <= i32::MAX
}

} // verus!
