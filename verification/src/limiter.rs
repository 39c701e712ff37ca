//! The permit gate: token admission, release, and limit reconciliation.

use vstd::prelude::*;

use crate::limits::{Fixed, LimitAlgorithm, Sample};

mod partitioning;
mod rejection_delay;
mod token;

pub use partitioning::{
    create_static_partitions, fractional_limit, spare_of, sum_weights, total_in_flight,
    total_spare, total_weight, Partition, PartitionedLimiter, WaiterQueue,
};
pub use rejection_delay::RejectionDelay;
pub use token::Token;

verus! {

/// Whether a job succeeded or failed as a result of congestion/overload.
///
/// Errors not considered to be caused by overload should be ignored.
#[derive(Debug, Clone, Copy, PartialEq, Eq, Structural)]
pub enum Outcome {
    /// The job succeeded, or failed in a way unrelated to overload.
    Success,
    /// The job failed because of overload, e.g. it timed out or an explicit
    /// backpressure signal was observed.
    Overload,
}

impl Outcome {
    /// `Overload` wins over `Success`; otherwise the left operand is kept.
    pub open spec fn overloaded_or_spec(self, other: Outcome) -> Outcome {
        if self is Overload || other is Overload {
            Outcome::Overload
        } else {
            Outcome::Success
        }
    }

    /// Merge two outcomes pessimistically.
    pub fn overloaded_or(self, other: Outcome) -> (r: Outcome)
        ensures
            r == self.overloaded_or_spec(other),
    {
        match (self, other) {
            (Outcome::Success, Outcome::Overload) => Outcome::Overload,
            _ => self,
        }
    }
}

/// A snapshot of the state of a limiter.
///
/// Not guaranteed to be consistent under high concurrency.
#[derive(Debug, Clone, Copy, PartialEq, Eq, Structural)]
pub struct LimiterState {
    pub limit: usize,
    pub available: usize,
    pub in_flight: usize,
}

impl LimiterState {
    /// The current concurrency limit.
    pub fn limit(&self) -> (r: usize)
        ensures
            r == self.limit,
    {
        self.limit
    }

    /// The amount of concurrency available to use.
    pub fn available(&self) -> (r: usize)
        ensures
            r == self.available,
    {
        self.available
    }

    /// The number of jobs in flight.
    pub fn in_flight(&self) -> (r: usize)
        ensures
            r == self.in_flight,
    {
        self.in_flight
    }
}

/// The permit pool after the limit moved from `old_limit` to `new_limit`:
/// growth adds permits at once; a shrink first absorbs available permits and
/// leaves the remaining deficit pending, to be consumed as live tokens
/// return. Returns the new `(available, pending_discard)` pair.
pub open spec fn reconcile_pool(
    available: int,
    pending: int,
    old_limit: int,
    new_limit: int,
) -> (int, int) {
    if new_limit >= old_limit {
        (available + (new_limit - old_limit), pending)
    } else if available >= old_limit - new_limit {
        (available - (old_limit - new_limit), pending)
    } else {
        (0, pending + (old_limit - new_limit) - available)
    }
}

/// A returning token's permit pays the pending discard down first; only then
/// does it become available again. Returns the new
/// `(available, pending_discard)` pair.
pub open spec fn return_permit(available: int, pending: int) -> (int, int) {
    if pending > 0 {
        (available, pending - 1)
    } else {
        (available + 1, pending)
    }
}

/// One operation on a limiter, as seen by the limiter's state machine: an
/// admission attempt, or a release carrying the token's latency and an
/// optional outcome.
pub enum GateOp {
    TryAcquire,
    Release(u64, Option<Outcome>),
}

/// Limits the number of concurrent jobs.
///
/// Concurrency is limited through the use of [Token]s. Acquire a token to
/// run a job, and release the token once the job is finished.
///
/// The limit is adjusted after each informative release, based on the
/// sample's latency (delay) and outcome (loss). When the limit shrinks below
/// the number of permits outstanding, the contraction is absorbed by live
/// tokens: the deficit is recorded as a pending discard, and returning
/// permits are consumed against it before becoming available again.
#[derive(Debug)]
pub struct DefaultLimiter<L> {
    limit_algo: L,
    limit: usize,
    available: usize,
    in_flight: usize,
    pending_discard: usize,
    rejection_delay_ns: Option<u64>,
}

impl<L: LimitAlgorithm> DefaultLimiter<L> {
    /// The controller driving the limit.
    pub closed spec fn algo(&self) -> L {
        self.limit_algo
    }

    /// The limiter's stored integer limit.
    pub closed spec fn limit_spec(&self) -> usize {
        self.limit
    }

    /// Permits available for admission.
    pub closed spec fn available_spec(&self) -> usize {
        self.available
    }

    /// Tokens issued and not yet released.
    pub closed spec fn in_flight_spec(&self) -> usize {
        self.in_flight
    }

    /// Permits still owed to past limit shrinks.
    pub closed spec fn pending_discard_spec(&self) -> usize {
        self.pending_discard
    }

    /// The configured post-rejection delay, if any (in nanoseconds); the
    /// embedder performs the sleep.
    pub closed spec fn rejection_delay_spec(&self) -> Option<u64> {
        self.rejection_delay_ns
    }

    /// The limiter's books balance: every permit is available, held by a live
    /// token, or owed to a shrink; and the shrink debt never exceeds the
    /// tokens that can still pay it.
    pub open spec fn wf(&self) -> bool {
        &&& self.algo().wf()
        &&& self.limit_spec() == self.algo().limit_spec()
        &&& self.available_spec() + self.in_flight_spec() == self.limit_spec()
            + self.pending_discard_spec()
        &&& self.pending_discard_spec() <= self.in_flight_spec()
    }

    /// One gate step: what each operation does to the counters, stated with
    /// the same pool arithmetic the methods ensure.
    pub open spec fn gate_step(self, op: GateOp, next: Self) -> bool {
        &&& next.rejection_delay_spec() == self.rejection_delay_spec()
        &&& match op {
            GateOp::TryAcquire => if self.available_spec() > 0 && self.in_flight_spec()
                < usize::MAX {
                &&& next.algo() == self.algo()
                &&& next.limit_spec() == self.limit_spec()
                &&& next.available_spec() == self.available_spec() - 1
                &&& next.in_flight_spec() == self.in_flight_spec() + 1
                &&& next.pending_discard_spec() == self.pending_discard_spec()
            } else {
                next == self
            },
            GateOp::Release(latency_ns, outcome) => {
                &&& self.in_flight_spec() >= 1
                &&& next.in_flight_spec() == self.in_flight_spec() - 1
                &&& match outcome {
                    None => {
                        &&& next.algo() == self.algo()
                        &&& next.limit_spec() == self.limit_spec()
                        &&& (next.available_spec() as int, next.pending_discard_spec() as int)
                            == return_permit(
                            self.available_spec() as int,
                            self.pending_discard_spec() as int,
                        )
                    },
                    Some(o) => {
                        let s = Sample {
                            latency_ns,
                            in_flight: self.in_flight_spec(),
                            outcome: o,
                        };
                        &&& self.algo().transition(s, next.algo())
                        &&& next.limit_spec() == next.algo().limit_spec()
                        &&& (next.available_spec() as int, next.pending_discard_spec() as int)
                            == return_permit(
                            reconcile_pool(
                                self.available_spec() as int,
                                self.pending_discard_spec() as int,
                                self.limit_spec() as int,
                                next.limit_spec() as int,
                            ).0,
                            reconcile_pool(
                                self.available_spec() as int,
                                self.pending_discard_spec() as int,
                                self.limit_spec() as int,
                                next.limit_spec() as int,
                            ).1,
                        )
                    },
                }
            },
        }
    }

    /// Create a limiter with a given limit control algorithm. The pool
    /// starts with one permit per unit of the controller's initial limit.
    pub fn new(limit_algo: L) -> (g: DefaultLimiter<L>)
        requires
            limit_algo.wf(),
        ensures
            g.wf(),
            g.algo() == limit_algo,
            g.limit_spec() == limit_algo.limit_spec(),
            g.available_spec() == g.limit_spec(),
            g.in_flight_spec() == 0,
            g.pending_discard_spec() == 0,
            g.rejection_delay_spec() is None,
    {
        let initial: usize = limit_algo.limit();
        DefaultLimiter {
            limit_algo,
            limit: initial,
            available: initial,
            in_flight: 0,
            pending_discard: 0,
            rejection_delay_ns: None,
        }
    }

    /// When rejecting a request, the embedder should wait this long before
    /// returning the rejection. This can help reduce the rate of retries.
    pub fn with_rejection_delay(self, delay_ns: u64) -> (g: DefaultLimiter<L>)
        ensures
            g.algo() == self.algo(),
            g.limit_spec() == self.limit_spec(),
            g.available_spec() == self.available_spec(),
            g.in_flight_spec() == self.in_flight_spec(),
            g.pending_discard_spec() == self.pending_discard_spec(),
            g.rejection_delay_spec() == Some(delay_ns),
            self.wf() ==> g.wf(),
    {
        DefaultLimiter { rejection_delay_ns: Some(delay_ns), ..self }
    }

    /// The configured post-rejection delay, if any, in nanoseconds.
    pub fn rejection_delay(&self) -> (r: Option<u64>)
        ensures
            r == self.rejection_delay_spec(),
    {
        self.rejection_delay_ns
    }

    /// The current concurrency limit.
    pub fn limit(&self) -> (r: usize)
        ensures
            r == self.limit_spec(),
    {
        self.limit
    }

    /// The number of tokens issued and not yet released.
    pub fn in_flight(&self) -> (r: usize)
        ensures
            r == self.in_flight_spec(),
    {
        self.in_flight
    }

    /// The number of permits available for admission.
    pub fn available(&self) -> (r: usize)
        ensures
            r == self.available_spec(),
    {
        self.available
    }

    /// The current state of the limiter.
    pub fn state(&self) -> (r: LimiterState)
        ensures
            r.limit == self.limit_spec(),
            r.available == self.available_spec(),
            r.in_flight == self.in_flight_spec(),
    {
        LimiterState { limit: self.limit, available: self.available, in_flight: self.in_flight }
    }

    /// Try to immediately acquire a concurrency [Token].
    ///
    /// Returns a token exactly when a permit is available (and the in-flight
    /// counter is below its machine ceiling); returns `None` and leaves the
    /// limiter untouched otherwise.
    pub fn try_acquire(&mut self) -> (t: Option<Token>)
        requires
            old(self).wf(),
        ensures
            final(self).wf(),
            old(self).gate_step(GateOp::TryAcquire, *final(self)),
            (t is Some) <==> (old(self).available_spec() > 0 && old(self).in_flight_spec()
                < usize::MAX),
            t is Some ==> t.unwrap().latency_spec() == 0 && t.unwrap().partition_spec() is None,
    {
        if self.available > 0 && self.in_flight < usize::MAX {
            self.available = self.available - 1;
            self.in_flight = self.in_flight + 1;
            Some(Token::new())
        } else {
            None
        }
    }

    /// Return the concurrency [Token], along with the outcome of the job.
    ///
    /// With an outcome, a sample `(token latency, current in-flight,
    /// outcome)` drives one controller update, the limiter adopts the new limit
    /// and reconciles its permit pool with it. With `None` the job is
    /// ignored and the limit is unchanged. Either way the token's permit
    /// returns to the pool, paying any pending shrink first.
    ///
    /// Returns the current limit.
    pub fn release(&mut self, token: Token, outcome: Option<Outcome>) -> (r: usize)
        requires
            old(self).wf(),
            old(self).in_flight_spec() >= 1,
        ensures
            final(self).wf(),
            old(self).gate_step(
                GateOp::Release(token.latency_spec(), outcome),
                *final(self),
            ),
            r == final(self).limit_spec(),
            outcome is None ==> final(self).limit_spec() == old(self).limit_spec()
                && final(self).algo() == old(self).algo(),
    {
        let result: usize;
        match outcome {
            Some(o) => {
                let sample: Sample = Sample::new(token.latency(), self.in_flight, o);
                let new_limit: usize = self.limit_algo.update(sample);
                let old_limit: usize = self.limit;
                self.limit = new_limit;
                if new_limit > old_limit {
                    self.available = self.available + (new_limit - old_limit);
                } else if new_limit < old_limit {
                    let deficit: usize = old_limit - new_limit;
                    if self.available >= deficit {
                        self.available = self.available - deficit;
                    } else {
                        self.pending_discard = self.pending_discard + (deficit - self.available);
                        self.available = 0;
                    }
                }
                result = new_limit;
            },
            None => {
                result = self.limit_algo.limit();
            },
        }
        self.in_flight = self.in_flight - 1;
        if self.pending_discard > 0 {
            self.pending_discard = self.pending_discard - 1;
        } else {
            self.available = self.available + 1;
        }
        result
    }
}

impl<L: LimitAlgorithm, S: crate::aggregation::Aggregator> DefaultLimiter<
    crate::limits::Windowed<L, S>,
> {
    /// Advance the windowed controller's logical clock to `now_ns` (a clock
    /// that would move backwards stays put). The embedder calls this with
    /// its monotonic time before releasing tokens, so that windows can
    /// elapse.
    pub fn advance_clock(&mut self, now_ns: u64)
        requires
            old(self).wf(),
        ensures
            final(self).wf(),
            final(self).limit_spec() == old(self).limit_spec(),
            final(self).available_spec() == old(self).available_spec(),
            final(self).in_flight_spec() == old(self).in_flight_spec(),
            final(self).pending_discard_spec() == old(self).pending_discard_spec(),
            final(self).rejection_delay_spec() == old(self).rejection_delay_spec(),
            final(self).algo() == (crate::limits::Windowed {
                now_ns: if now_ns > old(self).algo().now_ns {
                    now_ns
                } else {
                    old(self).algo().now_ns
                },
                ..old(self).algo()
            }),
    {
        self.limit_algo.advance_clock(now_ns);
    }
}

/// The limiter can go from `g` to `f` by the given operations, in order.
pub open spec fn gate_runs_to<L: LimitAlgorithm>(
    g: DefaultLimiter<L>,
    ops: Seq<GateOp>,
    f: DefaultLimiter<L>,
) -> bool
    decreases ops.len(),
{
    if ops.len() == 0 {
        f == g
    } else {
        exists|mid: DefaultLimiter<L>| #[trigger] g.gate_step(ops[0], mid) && gate_runs_to(
            mid,
            ops.skip(1),
            f,
        )
    }
}

/// Each gate operation preserves the books.
pub proof fn gate_step_wf<L: LimitAlgorithm>(
    g: DefaultLimiter<L>,
    op: GateOp,
    f: DefaultLimiter<L>,
)
    requires
        g.wf(),
        g.gate_step(op, f),
    ensures
        f.wf(),
{
    match op {
        GateOp::TryAcquire => {
        },
        GateOp::Release(latency_ns, outcome) => {
            match outcome {
                None => {
                },
                Some(o) => {
                    let s = Sample { latency_ns, in_flight: g.in_flight_spec(), outcome: o };
                    g.algo().transition_wf(s, f.algo());
                },
            }
        },
    }
}

/// With a `Fixed` controller at limit `L`, any interleaving of acquires and
/// releases keeps the limiter balanced: no discard is ever pending, and
/// `available + in_flight == L` at every step.
pub proof fn fixed_gate_stays_balanced(
    g: DefaultLimiter<Fixed>,
    ops: Seq<GateOp>,
    f: DefaultLimiter<Fixed>,
)
    requires
        g.wf(),
        g.pending_discard_spec() == 0,
        gate_runs_to(g, ops, f),
    ensures
        f.wf(),
        f.pending_discard_spec() == 0,
        f.limit_spec() == g.limit_spec(),
        f.available_spec() + f.in_flight_spec() == f.limit_spec(),
        f.in_flight_spec() <= f.limit_spec(),
    decreases ops.len(),
{
    if ops.len() > 0 {
        let mid = choose|mid: DefaultLimiter<Fixed>| #[trigger] g.gate_step(ops[0], mid)
            && gate_runs_to(mid, ops.skip(1), f);
        gate_step_wf(g, ops[0], mid);
        fixed_gate_stays_balanced(mid, ops.skip(1), f);
    }
}

} // verus!
