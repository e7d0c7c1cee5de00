//! Closed intervals of ray parameters.

use vstd::prelude::*;
use crate::scalar::Scalar;

verus! {

/// The closed interval `start..=end`. With a NaN bound, or with `start > end`,
/// it holds nothing.
#[derive(Clone, Copy, Debug, PartialEq, Eq, Structural)]
pub struct Interval {
    pub start: Scalar,
    pub end: Scalar,
}

impl Interval {
    /// `start <= x && x <= end`. A NaN is in no interval.
    pub open spec fn holds(self, x: Scalar) -> bool {
        self.start.at_most(x) && x.at_most(self.end)
    }

    /// The interval with the same lower bound that ends at `end`.
    pub open spec fn ending_at(self, end: Scalar) -> Interval {
        Interval { start: self.start, end }
    }

    pub fn new(start: Scalar, end: Scalar) -> (r: Interval)
        ensures
            r == (Interval { start, end }),
    {
        Interval { start, end }
    }

    /// Whether `x` lies in the interval, both bounds included.
    pub fn contains(&self, x: Scalar) -> (r: bool)
        ensures
            r == self.holds(x),
    {
        self.start.le(x) && x.le(self.end)
    }

    /// The interval narrowed from above: same lower bound, new upper bound.
    pub fn narrowed(&self, end: Scalar) -> (r: Interval)
        ensures
            r == self.ending_at(end),
    {
        Interval { start: self.start, end }
    }
}

} // verus!
