//! Small helpers on single values.

use vstd::prelude::*;
use crate::interval::Interval;
use crate::scalar::Scalar;

verus! {

/// What clamping `x` into `range` gives: the lower bound where `x` is below
/// it, the upper bound where `x` is above it, and `x` itself otherwise, a NaN
/// included.
pub open spec fn clamped(range: Interval, x: Scalar) -> Scalar {
    if x.less(range.start) {
        range.start
    } else if range.end.less(x) {
        range.end
    } else {
        x
    }
}

/// Restricts `x` to `range`. The bounds must be ordered, which also rules out
/// a NaN bound.
pub fn clamp(range: &Interval, x: Scalar) -> (r: Scalar)
    requires
        range.start.at_most(range.end),
    ensures
        r == clamped(*range, x),
        !x.nan() ==> range.holds(r),
        x.nan() ==> r == x,
{
    if x.lt(range.start) {
        range.start
    } else if x.gt(range.end) {
        range.end
    } else {
        x
    }
}

} // verus!
