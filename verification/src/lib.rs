//! Benchmark functions for optimization algorithms, centred on a
//! multi-fidelity evaluation framework: evaluating a function yields a
//! sequence of increasingly expensive, increasingly accurate estimates,
//! each tagged with a resource cost.
//!
//! All numeric quantities are fixed-point integers: a real value `v` is
//! represented by the integer `v * 10_000_000` (see [`fixed::UNIT`]).
//! Fidelity levels are represented in thousandths (see `mfb`).
use vstd::prelude::*;

pub mod fixed;
pub mod mfb;
pub mod mfso;
pub mod property;

verus! {

/// A closed numeric range with `min <= max`; the building block of input
/// domains. Bounds are fixed-point values scaled by [`fixed::UNIT`].
#[derive(Debug, Clone, Copy)]
pub struct Interval {
    min: i64,
    max: i64,
}

impl Interval {
    /// The lower bound, as a mathematical integer.
    pub closed spec fn spec_min(self) -> int {
        self.min as int
    }

    /// The upper bound, as a mathematical integer.
    pub closed spec fn spec_max(self) -> int {
        self.max as int
    }

    /// A valid interval has its lower bound at or below its upper bound.
    pub open spec fn well_formed(self) -> bool {
        self.spec_min() <= self.spec_max()
    }

    /// Validated construction: yields an interval exactly when `min <= max`.
    pub fn new(min: i64, max: i64) -> (r: Option<Interval>)
        ensures
            min <= max <==> r is Some,
            r is Some ==> {
                &&& r->Some_0.spec_min() == min
                &&& r->Some_0.spec_max() == max
                &&& r->Some_0.well_formed()
            },
    {
        if min <= max {
            Some(Interval { min, max })
        } else {
            None
        }
    }

    /// Unchecked construction for bounds already known to be ordered;
    /// the check moves into the precondition, so no invalid interval can
    /// be built through this path either.
    pub fn new_unchecked(min: i64, max: i64) -> (r: Interval)
        requires
            min <= max,
        ensures
            r.spec_min() == min,
            r.spec_max() == max,
            r.well_formed(),
    {
        Interval { min, max }
    }

    pub fn min(&self) -> (r: i64)
        ensures
            r == self.spec_min(),
    {
        self.min
    }

    pub fn max(&self) -> (r: i64)
        ensures
            r == self.spec_max(),
    {
        self.max
    }
}

} // verus!
