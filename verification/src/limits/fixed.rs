//! A constant concurrency limit.

use vstd::prelude::*;

use super::{LimitAlgorithm, Sample};

verus! {

/// A simple, fixed concurrency limit.
#[derive(Debug, Clone, Copy, PartialEq, Eq, Structural)]
pub struct Fixed(pub usize);

impl Fixed {
    /// The limit must be at least one.
    pub fn new(limit: usize) -> (f: Fixed)
        requires
            limit >= 1,
        ensures
            f.0 == limit,
    {
        Fixed(limit)
    }
}

impl LimitAlgorithm for Fixed {
    open spec fn wf(&self) -> bool {
        self.0 >= 1
    }

    open spec fn min_limit_spec(&self) -> usize {
        self.0
    }

    open spec fn max_limit_spec(&self) -> usize {
        self.0
    }

    open spec fn limit_spec(&self) -> usize {
        self.0
    }

    open spec fn transition(self, s: Sample, next: Self) -> bool {
        next == self
    }

    proof fn wf_bounds(&self) {
    }

    proof fn transition_wf(self, s: Sample, next: Self) {
    }

    fn limit(&self) -> (r: usize) {
        self.0
    }

    fn update(&mut self, _s: Sample) -> (r: usize) {
        self.0
    }
}

} // verus!
