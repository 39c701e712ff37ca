//! Loss-based overload avoidance.

use vstd::prelude::*;

use super::{LimitAlgorithm, Sample, DEFAULT_MAX_LIMIT, DEFAULT_MIN_LIMIT, MIN_SAMPLE_LATENCY_NS};
use crate::limiter::Outcome;

verus! {

/// `floor(limit * factor_milli / 1000)`: the multiplicative decrease applied
/// when overload is observed. Flooring (rather than rounding) keeps the limit
/// shrinking even at small values, e.g. `floor(2 * 0.9) == 1`.
pub open spec fn multiplicative_decrease_spec(limit: usize, factor_milli: u64) -> usize {
    ((limit * factor_milli) / 1000) as usize
}

pub(crate) fn multiplicative_decrease(limit: usize, factor_milli: u64) -> (r: usize)
    requires
        factor_milli <= 1000,
    ensures
        r == multiplicative_decrease_spec(limit, factor_milli),
        r <= limit,
{
    proof {
        vstd::arithmetic::mul::lemma_mul_upper_bound(
            limit as int,
            0xFFFF_FFFF_FFFF_FFFF,
            factor_milli as int,
            1000,
        );
    }
    let wide: u128 = (limit as u128) * (factor_milli as u128) / 1000;
    proof {
        assert((limit as u128) * (factor_milli as u128) <= (limit as u128) * 1000) by (nonlinear_arith)
            requires
                factor_milli <= 1000,
        ;
        assert((limit as u128) * 1000 / 1000 == limit as u128) by (nonlinear_arith);
        assert(wide <= limit as u128) by {
            vstd::arithmetic::div_mod::lemma_div_is_ordered(
                ((limit as u128) * (factor_milli as u128)) as int,
                ((limit as u128) * 1000) as int,
                1000,
            );
        }
    }
    wide as usize
}

/// `min(x, hi)` on `usize`.
pub open spec fn min_usize(x: usize, hi: usize) -> usize {
    if x < hi {
        x
    } else {
        hi
    }
}

/// `max(x, lo)` on `usize`.
pub open spec fn max_usize(x: usize, lo: usize) -> usize {
    if x > lo {
        x
    } else {
        lo
    }
}

/// `x` clamped to `[lo, hi]` (with `lo <= hi`).
pub open spec fn clamp_usize(x: usize, lo: usize, hi: usize) -> usize {
    min_usize(max_usize(x, lo), hi)
}

/// Loss-based overload avoidance.
///
/// Additive-increase, multiplicative decrease.
///
/// Adds available concurrency when:
/// 1. no load-based errors are observed, and
/// 2. the utilisation of the current limit is high.
///
/// Reduces available concurrency by a factor when load-based errors are
/// detected. Fractional parameters are carried in thousandths: a decrease
/// factor of 0.9 is `900`, a utilisation threshold of 0.8 is `800`.
#[derive(Debug, Clone, Copy, PartialEq, Eq, Structural)]
pub struct Aimd {
    pub min_limit: usize,
    pub max_limit: usize,
    /// Multiplier applied on overload, in thousandths, within `[500, 1000)`.
    pub decrease_factor_milli: u64,
    /// Increment applied on success at high utilisation, at least one.
    pub increase_by: usize,
    /// Utilisation (in thousandths) that must be exceeded before the limit
    /// grows, within `(0, 1000)`.
    pub min_utilisation_threshold_milli: u64,
    pub limit: usize,
}

impl Aimd {
    /// Valid configuration with the limit inside the configured range.
    pub open spec fn wf_spec(&self) -> bool {
        &&& 1 <= self.min_limit <= self.limit <= self.max_limit
        &&& 500 <= self.decrease_factor_milli < 1000
        &&& self.increase_by >= 1
        &&& 0 < self.min_utilisation_threshold_milli < 1000
    }

    /// Defaults: decrease factor 0.9, increase 1, utilisation threshold 0.8,
    /// limit range `[1, 1000]`.
    pub fn new_with_initial_limit(initial_limit: usize) -> (a: Aimd)
        requires
            DEFAULT_MIN_LIMIT <= initial_limit <= DEFAULT_MAX_LIMIT,
        ensures
            a == (Aimd {
                min_limit: DEFAULT_MIN_LIMIT,
                max_limit: DEFAULT_MAX_LIMIT,
                decrease_factor_milli: 900u64,
                increase_by: 1usize,
                min_utilisation_threshold_milli: 800u64,
                limit: initial_limit,
            }),
    {
        Aimd {
            min_limit: DEFAULT_MIN_LIMIT,
            max_limit: DEFAULT_MAX_LIMIT,
            decrease_factor_milli: 900,
            increase_by: 1,
            min_utilisation_threshold_milli: 800,
            limit: initial_limit,
        }
    }

    /// As `new_with_initial_limit`, with an explicit limit range.
    pub fn new(initial_limit: usize, min_limit: usize, max_limit: usize) -> (a: Aimd)
        requires
            1 <= min_limit,
            min_limit <= initial_limit <= max_limit,
        ensures
            a == (Aimd {
                min_limit,
                max_limit,
                decrease_factor_milli: 900u64,
                increase_by: 1usize,
                min_utilisation_threshold_milli: 800u64,
                limit: initial_limit,
            }),
    {
        Aimd {
            min_limit,
            max_limit,
            decrease_factor_milli: 900,
            increase_by: 1,
            min_utilisation_threshold_milli: 800,
            limit: initial_limit,
        }
    }

    /// Set the multiplier (in thousandths, within `[500, 1000)`) applied when
    /// decreasing the limit.
    pub fn decrease_factor(self, factor_milli: u64) -> (a: Aimd)
        requires
            500 <= factor_milli < 1000,
        ensures
            a == (Aimd { decrease_factor_milli: factor_milli, ..self }),
    {
        Aimd { decrease_factor_milli: factor_milli, ..self }
    }

    /// Set the increment applied when increasing the limit.
    pub fn increase_by(self, increase: usize) -> (a: Aimd)
        requires
            increase >= 1,
        ensures
            a == (Aimd { increase_by: increase, ..self }),
    {
        Aimd { increase_by: increase, ..self }
    }

    /// Set the largest limit; it must not invert the range nor cut below
    /// the current limit.
    pub fn with_max_limit(self, max: usize) -> (a: Aimd)
        requires
            max >= 1,
            self.min_limit <= max,
            self.limit <= max,
        ensures
            a == (Aimd { max_limit: max, ..self }),
    {
        Aimd { max_limit: max, ..self }
    }

    /// A utilisation threshold (in thousandths, within `(0, 1000)`) below
    /// which the limit won't be increased. `500` = 50%.
    pub fn with_min_utilisation_threshold(self, min_util_milli: u64) -> (a: Aimd)
        requires
            0 < min_util_milli < 1000,
        ensures
            a == (Aimd { min_utilisation_threshold_milli: min_util_milli, ..self }),
    {
        Aimd { min_utilisation_threshold_milli: min_util_milli, ..self }
    }

    /// Utilisation `in_flight / limit` strictly exceeds the threshold,
    /// compared exactly: `in_flight * 1000 > threshold_milli * limit`.
    pub open spec fn utilisation_exceeds_threshold(&self, in_flight: usize) -> bool {
        in_flight * 1000 > self.min_utilisation_threshold_milli * self.limit
    }

    /// The limit after one sample. A sample below the one-microsecond
    /// latency floor is ignored. Otherwise: on success at high utilisation
    /// add `increase_by` (clamped above); on overload multiply by the
    /// decrease factor, flooring, then clamp below.
    pub open spec fn next_limit(&self, s: Sample) -> usize {
        if s.latency_ns < MIN_SAMPLE_LATENCY_NS {
            self.limit
        } else {
            match s.outcome {
                Outcome::Success => if self.utilisation_exceeds_threshold(s.in_flight) {
                    if self.limit + self.increase_by > self.max_limit {
                        self.max_limit
                    } else {
                        (self.limit + self.increase_by) as usize
                    }
                } else {
                    self.limit
                },
                Outcome::Overload => clamp_usize(
                    multiplicative_decrease_spec(self.limit, self.decrease_factor_milli),
                    self.min_limit,
                    self.max_limit,
                ),
            }
        }
    }
}

impl LimitAlgorithm for Aimd {
    open spec fn wf(&self) -> bool {
        self.wf_spec()
    }

    open spec fn min_limit_spec(&self) -> usize {
        self.min_limit
    }

    open spec fn max_limit_spec(&self) -> usize {
        self.max_limit
    }

    open spec fn limit_spec(&self) -> usize {
        self.limit
    }

    open spec fn transition(self, s: Sample, next: Self) -> bool {
        next == (Aimd { limit: self.next_limit(s), ..self })
    }

    proof fn wf_bounds(&self) {
    }

    proof fn transition_wf(self, s: Sample, next: Self) {
    }

    fn limit(&self) -> (r: usize) {
        self.limit
    }

    fn update(&mut self, s: Sample) -> (r: usize) {
        if s.latency_ns < MIN_SAMPLE_LATENCY_NS {
            return self.limit;
        }
        match s.outcome {
            Outcome::Success => {
                proof {
                    vstd::arithmetic::mul::lemma_mul_upper_bound(
                        self.min_utilisation_threshold_milli as int,
                        1000,
                        self.limit as int,
                        0xFFFF_FFFF_FFFF_FFFF,
                    );
                }
                let lhs: u128 = (s.in_flight as u128) * 1000;
                let rhs: u128 = (self.min_utilisation_threshold_milli as u128)
                    * (self.limit as u128);
                let exceeds: bool = lhs > rhs;
                if exceeds {
                    let grown: usize = if self.increase_by > self.max_limit - self.limit {
                        self.max_limit
                    } else {
                        self.limit + self.increase_by
                    };
                    self.limit = grown;
                }
            },
            Outcome::Overload => {
                let shrunk: usize = multiplicative_decrease(
                    self.limit,
                    self.decrease_factor_milli,
                );
                let clamped: usize = if shrunk < self.min_limit {
                    self.min_limit
                } else if shrunk > self.max_limit {
                    self.max_limit
                } else {
                    shrunk
                };
                self.limit = clamped;
            },
        }
        self.limit
    }
}

/// A sample below the one-microsecond floor leaves the limit unchanged.
pub proof fn aimd_ignores_sub_floor_sample(a: Aimd, s: Sample)
    requires
        s.latency_ns < MIN_SAMPLE_LATENCY_NS,
    ensures
        a.next_limit(s) == a.limit,
{
}

/// On `Success` with utilisation at or below the threshold
/// (`in_flight * 1000 <= threshold_milli * limit`), AIMD leaves the limit
/// unchanged.
pub proof fn aimd_ignores_low_utilisation_success(a: Aimd, s: Sample)
    requires
        s.outcome is Success,
        s.in_flight * 1000 <= a.min_utilisation_threshold_milli * a.limit,
    ensures
        a.next_limit(s) == a.limit,
{
}

/// On `Overload` at `limit == min_limit`, the floored multiplicative
/// decrease is clamped straight back: the limit stays at `min_limit`.
pub proof fn aimd_overload_at_min_limit_stays(a: Aimd, s: Sample)
    requires
        a.wf_spec(),
        s.outcome is Overload,
        a.limit == a.min_limit,
    ensures
        a.next_limit(s) == a.min_limit,
{
    vstd::arithmetic::mul::lemma_mul_inequality(
        a.decrease_factor_milli as int,
        1000,
        a.limit as int,
    );
    vstd::arithmetic::mul::lemma_mul_is_commutative(a.decrease_factor_milli as int, a.limit as int);
    vstd::arithmetic::mul::lemma_mul_is_commutative(a.limit as int, 1000);
    crate::arith::lemma_div_le_bound(
        a.limit * a.decrease_factor_milli,
        1000,
        a.limit as int,
    );
}

} // verus!
