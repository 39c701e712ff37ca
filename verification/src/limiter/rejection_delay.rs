//! A wrapper which adds rejection delay.

use vstd::prelude::*;

use super::token::Token;
use super::{DefaultLimiter, GateOp, LimiterState, Outcome};
use crate::limits::LimitAlgorithm;

verus! {

/// A wrapper which asks for a delay before every rejection.
///
/// When a job is rejected because there is no available capacity, the
/// embedder should wait for [`RejectionDelay::delay`] before returning the
/// rejection to the caller. This can help reduce the rate of retries,
/// especially when they are too eager and lack appropriate backoff.
///
/// The wrapper only carries the configuration and forwards admission and
/// release to the wrapped gate; the sleep itself is outside work, performed
/// by the embedder whenever an acquire returns `None`.
#[derive(Debug)]
pub struct RejectionDelay<L> {
    delay_ns: u64,
    inner: DefaultLimiter<L>,
}

impl<L: LimitAlgorithm> RejectionDelay<L> {
    /// The wrapped gate.
    pub closed spec fn inner_spec(&self) -> DefaultLimiter<L> {
        self.inner
    }

    /// The configured delay, in nanoseconds.
    pub closed spec fn delay_spec(&self) -> u64 {
        self.delay_ns
    }

    pub open spec fn wf(&self) -> bool {
        self.inner_spec().wf()
    }

    pub fn new(delay_ns: u64, limiter: DefaultLimiter<L>) -> (d: RejectionDelay<L>)
        ensures
            d.delay_spec() == delay_ns,
            d.inner_spec() == limiter,
    {
        RejectionDelay { delay_ns, inner: limiter }
    }

    /// The delay to observe after a rejection, in nanoseconds.
    pub fn delay(&self) -> (r: u64)
        ensures
            r == self.delay_spec(),
    {
        self.delay_ns
    }

    /// As [`DefaultLimiter::try_acquire`]. On `None` the embedder should
    /// wait for [`RejectionDelay::delay`] before reporting the rejection.
    pub fn try_acquire(&mut self) -> (t: Option<Token>)
        requires
            old(self).wf(),
        ensures
            final(self).wf(),
            final(self).delay_spec() == old(self).delay_spec(),
            old(self).inner_spec().gate_step(GateOp::TryAcquire, final(self).inner_spec()),
            (t is Some) <==> (old(self).inner_spec().available_spec() > 0 && old(
                self,
            ).inner_spec().in_flight_spec() < usize::MAX),
    {
        self.inner.try_acquire()
    }

    /// As [`DefaultLimiter::release`].
    pub fn release(&mut self, token: Token, outcome: Option<Outcome>) -> (r: usize)
        requires
            old(self).wf(),
            old(self).inner_spec().in_flight_spec() >= 1,
        ensures
            final(self).wf(),
            final(self).delay_spec() == old(self).delay_spec(),
            old(self).inner_spec().gate_step(
                GateOp::Release(token.latency_spec(), outcome),
                final(self).inner_spec(),
            ),
            r == final(self).inner_spec().limit_spec(),
    {
        self.inner.release(token, outcome)
    }

    /// The current concurrency limit.
    pub fn limit(&self) -> (r: usize)
        ensures
            r == self.inner_spec().limit_spec(),
    {
        self.inner.limit()
    }

    /// The current state of the wrapped limiter.
    pub fn state(&self) -> (r: LimiterState)
        ensures
            r.limit == self.inner_spec().limit_spec(),
            r.available == self.inner_spec().available_spec(),
            r.in_flight == self.inner_spec().in_flight_spec(),
    {
        self.inner.state()
    }
}

} // verus!
