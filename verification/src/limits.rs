//! Algorithms for controlling concurrency limits.

use vstd::prelude::*;

use crate::limiter::Outcome;

mod aimd;
mod fixed;
mod gradient;
mod intlog;
mod vegas;
mod windowed;

pub use aimd::{
    aimd_ignores_low_utilisation_success, aimd_ignores_sub_floor_sample,
    aimd_overload_at_min_limit_stays, multiplicative_decrease_spec, Aimd,
};
pub use fixed::Fixed;
pub use gradient::{gradient_ignores_sub_floor_sample, Gradient};
pub use intlog::{ilog10_spec, log10_milli_spec};
pub use vegas::Vegas;
pub use windowed::Windowed;

verus! {

/// Samples with latency below this floor (one microsecond) carry no usable
/// delay signal and are ignored by the delay-based controllers.
pub const MIN_SAMPLE_LATENCY_NS: u64 = 1000;

/// Default smallest limit a controller will report.
pub const DEFAULT_MIN_LIMIT: usize = 1;

/// Default largest limit a controller will report.
pub const DEFAULT_MAX_LIMIT: usize = 1000;

/// The result of a job (or jobs), including the [Outcome] (loss) and the
/// latency (delay), in whole nanoseconds.
#[derive(Debug, Clone, Copy, PartialEq, Eq, Structural)]
pub struct Sample {
    /// Time from token issue to release, in nanoseconds.
    pub latency_ns: u64,
    /// Jobs in flight when the sample was taken.
    pub in_flight: usize,
    pub outcome: Outcome,
}

impl Sample {
    pub fn new(latency_ns: u64, in_flight: usize, outcome: Outcome) -> (s: Sample)
        ensures
            s == (Sample { latency_ns, in_flight, outcome }),
    {
        Sample { latency_ns, in_flight, outcome }
    }
}

/// An algorithm for controlling a concurrency limit.
///
/// `transition` is the state machine's step relation: one call of `update`
/// takes the controller from its old state to a state related by
/// `transition`. For the scalar controllers the relation is an equation, so
/// the new state is pinned down exactly.
pub trait LimitAlgorithm: Sized {
    /// Internal consistency of the controller state.
    spec fn wf(&self) -> bool;

    /// The smallest limit this controller will report.
    spec fn min_limit_spec(&self) -> usize;

    /// The largest limit this controller will report.
    spec fn max_limit_spec(&self) -> usize;

    /// The current integer limit.
    spec fn limit_spec(&self) -> usize;

    /// One update step: consuming sample `s` takes the controller from
    /// `self` to `next`.
    spec fn transition(self, s: Sample, next: Self) -> bool;

    /// A well-formed controller keeps its limit within the configured range,
    /// and the range starts at one or above.
    proof fn wf_bounds(&self)
        requires
            self.wf(),
        ensures
            1 <= self.min_limit_spec() <= self.limit_spec() <= self.max_limit_spec(),
    ;

    /// A step preserves well-formedness and the configured range.
    proof fn transition_wf(self, s: Sample, next: Self)
        requires
            self.wf(),
            self.transition(s, next),
        ensures
            next.wf(),
            next.min_limit_spec() == self.min_limit_spec(),
            next.max_limit_spec() == self.max_limit_spec(),
    ;

    /// The current limit.
    fn limit(&self) -> (r: usize)
        requires
            self.wf(),
        ensures
            r == self.limit_spec(),
    ;

    /// Update the concurrency limit in response to a new job completion.
    fn update(&mut self, s: Sample) -> (r: usize)
        requires
            old(self).wf(),
        ensures
            old(self).transition(s, *final(self)),
            final(self).wf(),
            final(self).min_limit_spec() == old(self).min_limit_spec(),
            final(self).max_limit_spec() == old(self).max_limit_spec(),
            r == final(self).limit_spec(),
            final(self).min_limit_spec() <= r <= final(self).max_limit_spec(),
    ;
}

/// The controller can go from `c` to `f` by consuming the whole sample
/// sequence, in order.
pub open spec fn runs_to<L: LimitAlgorithm>(c: L, samples: Seq<Sample>, f: L) -> bool
    decreases samples.len(),
{
    if samples.len() == 0 {
        f == c
    } else {
        exists|mid: L| #[trigger] c.transition(samples[0], mid) && runs_to(
            mid,
            samples.skip(1),
            f,
        )
    }
}

/// For any controller and any sample sequence, the limit stays within the
/// configured `[min_limit, max_limit]` range, and the range itself never
/// changes.
pub proof fn limit_always_within_range<L: LimitAlgorithm>(c: L, samples: Seq<Sample>, f: L)
    requires
        c.wf(),
        runs_to(c, samples, f),
    ensures
        f.wf(),
        f.min_limit_spec() == c.min_limit_spec(),
        f.max_limit_spec() == c.max_limit_spec(),
        c.min_limit_spec() <= f.limit_spec() <= c.max_limit_spec(),
    decreases samples.len(),
{
    if samples.len() == 0 {
        c.wf_bounds();
    } else {
        let mid = choose|mid: L| #[trigger] c.transition(samples[0], mid) && runs_to(
            mid,
            samples.skip(1),
            f,
        );
        c.transition_wf(samples[0], mid);
        limit_always_within_range(mid, samples.skip(1), f);
        f.wf_bounds();
    }
}

} // verus!
