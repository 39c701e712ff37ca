//! Loss- and delay-based congestion avoidance.

use vstd::prelude::*;

use super::aimd::{multiplicative_decrease, multiplicative_decrease_spec};
use super::intlog::{
    floor_log10, ilog10_spec, lemma_ilog10_bounds, lemma_pow10_exceeds_exponent, log10_milli,
    log10_milli_spec,
};
use super::{
    LimitAlgorithm, Sample, DEFAULT_MAX_LIMIT, DEFAULT_MIN_LIMIT, MIN_SAMPLE_LATENCY_NS,
};
use crate::limiter::Outcome;

verus! {

/// Lower queueing threshold multiplier.
pub const VEGAS_ALPHA_MULTIPLIER: u64 = 3;

/// Upper queueing threshold multiplier.
pub const VEGAS_BETA_MULTIPLIER: u64 = 6;

/// Multiplier (in thousandths) applied when overload is observed.
pub const VEGAS_DECREASE_FACTOR_MILLI: u64 = 900;

/// In-flight counts are clamped here before the queue estimate, which keeps
/// the product `in_flight * extra_latency * 1000` inside 128-bit arithmetic.
pub const VEGAS_IN_FLIGHT_CAP: usize = 0xFFFF_FFFF;

/// Loss- and delay-based congestion avoidance.
///
/// Additive increase, additive decrease; multiplicative decrease when
/// overload is detected.
///
/// Estimates queueing delay by comparing the current latency with the
/// minimum observed latency: with `rate = in_flight / latency` and
/// `extra = latency - base_latency`, the estimated queue is `rate * extra`.
/// The queue estimate is held against two thresholds, each proportional to
/// `max(1, log10 limit)`, and the limit steps by
/// `max(1, floor(log10 limit))`.
///
/// The documented rounding of the thresholds: `log10 limit` is taken in
/// thousandths, interpolated linearly between consecutive powers of ten
/// (see `log10_milli_spec`). That value is exact at powers of ten and
/// otherwise up to 0.27 below the real logarithm, so between powers of ten
/// the thresholds are slightly tighter (by at most `0.27 * multiplier`
/// jobs) than with an exact logarithm. The comparisons against the rounded
/// thresholds are themselves exact, over cross products of integers.
///
/// For greater stability consider wrapping with a windowed percentile
/// sampler, so that Vegas compares a recent percentile latency with the
/// minimum observed one.
///
/// Inspired by TCP Vegas.
#[derive(Debug, Clone, Copy, PartialEq, Eq, Structural)]
pub struct Vegas {
    pub min_limit: usize,
    pub max_limit: usize,
    pub limit: usize,
    /// The minimum observed latency: the latency expected with no queueing.
    /// Starts at `u64::MAX`, before any observation.
    pub base_latency_ns: u64,
}

impl Vegas {
    pub open spec fn wf_spec(&self) -> bool {
        1 <= self.min_limit <= self.limit <= self.max_limit
    }

    /// A queueing threshold in thousandths of a job:
    /// `multiplier * max(1, log10 limit)`, with the logarithm in the
    /// crate's fixed-point rounding (`log10_milli_spec`: exact at powers of
    /// ten, linearly interpolated and slightly low in between).
    pub open spec fn threshold_milli_spec(multiplier: u64, limit: usize) -> int {
        if log10_milli_spec(limit as nat) > 1000 {
            multiplier * log10_milli_spec(limit as nat)
        } else {
            multiplier * 1000
        }
    }

    /// The additive step: `max(1, floor(log10 limit))`.
    pub open spec fn step_spec(limit: usize) -> int {
        if ilog10_spec(limit as nat) >= 1 {
            ilog10_spec(limit as nat) as int
        } else {
            1
        }
    }

    /// The estimated queue `in_flight / latency * extra` strictly exceeds
    /// `threshold_milli / 1000`, compared exactly over the cross products.
    /// The in-flight count is clamped to `VEGAS_IN_FLIGHT_CAP` first.
    pub open spec fn queue_exceeds_spec(
        in_flight: usize,
        extra_ns: u64,
        latency_ns: u64,
        threshold_milli: int,
    ) -> bool {
        min_in_flight_capped(in_flight) * extra_ns * 1000 > threshold_milli * latency_ns
    }

    /// As `queue_exceeds_spec`, with the inequality strictly the other way.
    pub open spec fn queue_below_spec(
        in_flight: usize,
        extra_ns: u64,
        latency_ns: u64,
        threshold_milli: int,
    ) -> bool {
        min_in_flight_capped(in_flight) * extra_ns * 1000 < threshold_milli * latency_ns
    }

    /// The new (unclamped) limit chosen by the Vegas transition for a sample
    /// at or above the latency floor whose latency did not lower the
    /// baseline.
    pub open spec fn decided_limit_spec(self, s: Sample) -> int {
        let extra: u64 = (s.latency_ns - self.base_latency_ns) as u64;
        if s.outcome is Overload {
            multiplicative_decrease_spec(self.limit, VEGAS_DECREASE_FACTOR_MILLI) as int
        } else if Self::queue_exceeds_spec(
            s.in_flight,
            extra,
            s.latency_ns,
            Self::threshold_milli_spec(VEGAS_BETA_MULTIPLIER, self.limit),
        ) {
            self.limit - Self::step_spec(self.limit)
        } else if Self::queue_below_spec(
            s.in_flight,
            extra,
            s.latency_ns,
            Self::threshold_milli_spec(VEGAS_ALPHA_MULTIPLIER, self.limit),
        ) && s.in_flight * 5 >= 4 * self.limit {
            self.limit + Self::step_spec(self.limit)
        } else {
            self.limit as int
        }
    }

    /// The limit must start at least one and inside the default range.
    pub fn new_with_initial_limit(initial_limit: usize) -> (v: Vegas)
        requires
            DEFAULT_MIN_LIMIT <= initial_limit <= DEFAULT_MAX_LIMIT,
        ensures
            v == (Vegas {
                min_limit: DEFAULT_MIN_LIMIT,
                max_limit: DEFAULT_MAX_LIMIT,
                limit: initial_limit,
                base_latency_ns: 0xFFFF_FFFF_FFFF_FFFFu64,
            }),
    {
        Vegas {
            min_limit: DEFAULT_MIN_LIMIT,
            max_limit: DEFAULT_MAX_LIMIT,
            limit: initial_limit,
            base_latency_ns: 0xFFFF_FFFF_FFFF_FFFF,
        }
    }

    pub fn with_max_limit(self, max: usize) -> (v: Vegas)
        requires
            max >= 1,
            self.limit <= max,
            self.min_limit <= max,
        ensures
            v == (Vegas { max_limit: max, ..self }),
    {
        Vegas { max_limit: max, ..self }
    }

    /// The controller state after one sample: sub-floor samples are ignored;
    /// a latency below the baseline records a new baseline and keeps the
    /// limit; otherwise the decided limit is clamped to the configured range.
    pub open spec fn next_state(self, s: Sample) -> Vegas {
        if s.latency_ns < MIN_SAMPLE_LATENCY_NS {
            self
        } else if s.latency_ns < self.base_latency_ns {
            Vegas { base_latency_ns: s.latency_ns, ..self }
        } else {
            let decided = self.decided_limit_spec(s);
            let clamped: int = if decided < self.min_limit {
                self.min_limit as int
            } else if decided > self.max_limit {
                self.max_limit as int
            } else {
                decided
            };
            Vegas { limit: clamped as usize, ..self }
        }
    }
}

/// The in-flight count as used by the queue estimate: clamped to
/// `VEGAS_IN_FLIGHT_CAP`.
pub open spec fn min_in_flight_capped(in_flight: usize) -> int {
    if in_flight > VEGAS_IN_FLIGHT_CAP {
        VEGAS_IN_FLIGHT_CAP as int
    } else {
        in_flight as int
    }
}

impl LimitAlgorithm for Vegas {
    open spec fn wf(&self) -> bool {
        self.wf_spec()
    }

    open spec fn min_limit_spec(&self) -> usize {
        self.min_limit
    }

    open spec fn max_limit_spec(&self) -> usize {
        self.max_limit
    }

    open spec fn limit_spec(&self) -> usize {
        self.limit
    }

    open spec fn transition(self, s: Sample, next: Self) -> bool {
        next == self.next_state(s)
    }

    proof fn wf_bounds(&self) {
    }

    proof fn transition_wf(self, s: Sample, next: Self) {
    }

    fn limit(&self) -> (r: usize) {
        self.limit
    }

    fn update(&mut self, s: Sample) -> (r: usize) {
        if s.latency_ns < MIN_SAMPLE_LATENCY_NS {
            return self.limit;
        }
        if s.latency_ns < self.base_latency_ns {
            self.base_latency_ns = s.latency_ns;
            return self.limit;
        }
        let extra: u64 = s.latency_ns - self.base_latency_ns;
        let capped: usize = if s.in_flight > VEGAS_IN_FLIGHT_CAP {
            VEGAS_IN_FLIGHT_CAP
        } else {
            s.in_flight
        };
        proof {
            vstd::arithmetic::mul::lemma_mul_upper_bound(
                capped as int,
                0xFFFF_FFFF,
                extra as int,
                0xFFFF_FFFF_FFFF_FFFF,
            );
        }
        let queued_scaled: u128 = (capped as u128) * (extra as u128) * 1000;
        let log_milli: u64 = log10_milli(self.limit as u64);
        let log_floor: u64 = if log_milli > 1000 {
            log_milli
        } else {
            1000
        };
        let beta_milli: u64 = VEGAS_BETA_MULTIPLIER * log_floor;
        let alpha_milli: u64 = VEGAS_ALPHA_MULTIPLIER * log_floor;
        let step: usize = {
            let kp: (u64, u64) = floor_log10(self.limit as u64);
            proof {
                lemma_pow10_exceeds_exponent(kp.0 as nat);
            }
            if kp.0 >= 1 {
                kp.0 as usize
            } else {
                1
            }
        };
        proof {
            lemma_ilog10_bounds(self.limit as nat);
            lemma_pow10_exceeds_exponent(ilog10_spec(self.limit as nat));
            vstd::arithmetic::mul::lemma_mul_upper_bound(
                s.in_flight as int,
                0xFFFF_FFFF_FFFF_FFFF,
                5,
                5,
            );
            vstd::arithmetic::mul::lemma_mul_upper_bound(
                self.limit as int,
                0xFFFF_FFFF_FFFF_FFFF,
                4,
                4,
            );
            vstd::arithmetic::mul::lemma_mul_upper_bound(
                beta_milli as int,
                120000,
                s.latency_ns as int,
                0xFFFF_FFFF_FFFF_FFFF,
            );
            vstd::arithmetic::mul::lemma_mul_upper_bound(
                alpha_milli as int,
                60000,
                s.latency_ns as int,
                0xFFFF_FFFF_FFFF_FFFF,
            );
        }
        let decided: usize = if matches!(s.outcome, Outcome::Overload) {
            multiplicative_decrease(self.limit, VEGAS_DECREASE_FACTOR_MILLI)
        } else if queued_scaled > (beta_milli as u128) * (s.latency_ns as u128) {
            self.limit - step
        } else if queued_scaled < (alpha_milli as u128) * (s.latency_ns as u128)
            && (s.in_flight as u128) * 5 >= (self.limit as u128) * 4 {
            if step > self.max_limit - self.limit {
                self.max_limit
            } else {
                self.limit + step
            }
        } else {
            self.limit
        };
        let clamped: usize = if decided < self.min_limit {
            self.min_limit
        } else if decided > self.max_limit {
            self.max_limit
        } else {
            decided
        };
        self.limit = clamped;
        self.limit
    }
}

} // verus!
