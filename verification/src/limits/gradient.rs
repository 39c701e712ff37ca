//! Delay-based congestion avoidance.

use vstd::prelude::*;

use super::{
    LimitAlgorithm, Sample, DEFAULT_MAX_LIMIT, DEFAULT_MIN_LIMIT, MIN_SAMPLE_LATENCY_NS,
};
use crate::arith::lemma_div_le_bound;
use crate::moving_avg::ExpSmoothed;

verus! {

/// Additive increment (in limit thousandths) granted at high utilisation.
pub const GRADIENT_INCREASE_MILLI: u128 = 4000;

/// Utilisation (in thousandths) that must be exceeded for an increase.
pub const GRADIENT_MIN_UTILISATION_MILLI: u128 = 800;

/// Gradient (in thousandths) that must be exceeded for an increase.
pub const GRADIENT_MIN_GRADIENT_MILLI: u128 = 900;

/// Number of samples in the long latency window.
pub const GRADIENT_LONG_WINDOW_SAMPLES: u16 = 500;

/// Delay-based congestion avoidance.
///
/// Additive-increase, multiplicative decrease based on the change in average
/// latency: the ratio of a long-window smoothed latency to the current
/// sample's latency is a congestion signal, and only downward gradients are
/// applied. The limit is kept as a fixed-point shadow in thousandths
/// (`limit_milli`); the integer `limit` is its floor, clamped to the range.
#[derive(Debug, Clone, Copy, PartialEq, Eq, Structural)]
pub struct Gradient {
    pub min_limit: usize,
    pub max_limit: usize,
    pub limit: usize,
    /// The fractional shadow of the limit, in thousandths.
    pub limit_milli: u128,
    pub long_window_latency: ExpSmoothed,
}

impl Gradient {
    pub open spec fn wf_spec(&self) -> bool {
        &&& 1 <= self.min_limit <= self.max_limit
        &&& self.min_limit * 1000 <= self.limit_milli <= self.max_limit * 1000
        &&& self.limit == self.limit_milli as int / 1000
        &&& self.long_window_latency.wf()
    }

    /// A fresh long-window average over the default 500 samples.
    pub open spec fn fresh_long_window() -> ExpSmoothed {
        ExpSmoothed {
            window: GRADIENT_LONG_WINDOW_SAMPLES,
            value_ns: 0u64,
            warm_sum: 0u128,
            warm_count: 0u16,
        }
    }

    /// Defaults: limit range `[1, 1000]`, long window of 500 samples.
    pub fn new_with_initial_limit(initial_limit: usize) -> (g: Gradient)
        requires
            DEFAULT_MIN_LIMIT <= initial_limit <= DEFAULT_MAX_LIMIT,
        ensures
            g == (Gradient {
                min_limit: DEFAULT_MIN_LIMIT,
                max_limit: DEFAULT_MAX_LIMIT,
                limit: initial_limit,
                limit_milli: (initial_limit * 1000) as u128,
                long_window_latency: Gradient::fresh_long_window(),
            }),
            g.wf_spec(),
    {
        Gradient::new(initial_limit, DEFAULT_MIN_LIMIT, DEFAULT_MAX_LIMIT)
    }

    /// As `new_with_initial_limit`, with an explicit limit range.
    pub fn new(initial_limit: usize, min_limit: usize, max_limit: usize) -> (g: Gradient)
        requires
            1 <= min_limit,
            min_limit <= initial_limit <= max_limit,
        ensures
            g == (Gradient {
                min_limit,
                max_limit,
                limit: initial_limit,
                limit_milli: (initial_limit * 1000) as u128,
                long_window_latency: Gradient::fresh_long_window(),
            }),
            g.wf_spec(),
    {
        proof {
            vstd::arithmetic::div_mod::lemma_div_by_multiple(initial_limit as int, 1000);
            vstd::arithmetic::mul::lemma_mul_inequality(
                min_limit as int,
                initial_limit as int,
                1000,
            );
            vstd::arithmetic::mul::lemma_mul_inequality(
                initial_limit as int,
                max_limit as int,
                1000,
            );
        }
        Gradient {
            min_limit,
            max_limit,
            limit: initial_limit,
            limit_milli: (initial_limit as u128) * 1000,
            long_window_latency: ExpSmoothed::new_with_window_size(
                GRADIENT_LONG_WINDOW_SAMPLES,
            ),
        }
    }

    pub fn with_max_limit(self, max: usize) -> (g: Gradient)
        requires
            max >= 1,
            self.wf_spec(),
            self.min_limit <= max,
            self.limit_milli <= max * 1000,
        ensures
            g == (Gradient { max_limit: max, ..self }),
    {
        Gradient { max_limit: max, ..self }
    }

    /// The smoothed-to-current latency ratio, in thousandths.
    pub open spec fn ratio_milli_spec(long_value_ns: u64, latency_ns: u64) -> int {
        long_value_ns * 1000 / (latency_ns as int)
    }

    /// The applied gradient, in thousandths: twice the latency ratio (the
    /// tolerance), clamped to `[0.5, 1.0]` so only moderate downward
    /// gradients are applied.
    pub open spec fn gradient_milli_spec(ratio_milli: int) -> int {
        if 2 * ratio_milli < 500 {
            500
        } else if 2 * ratio_milli > 1000 {
            1000
        } else {
            2 * ratio_milli
        }
    }

    /// The controller state after one sample at or above the latency floor.
    pub open spec fn next_state_measured(self, s: Sample) -> Gradient {
        let sampled = self.long_window_latency.next_state(s.latency_ns);
        let long_value = sampled.value_ns;
        let ratio_milli = Self::ratio_milli_spec(long_value, s.latency_ns);
        let long1 = if ratio_milli > 2000 {
            ExpSmoothed { value_ns: (long_value * 95 / 100) as u64, ..sampled }
        } else {
            sampled
        };
        let gradient_milli = Self::gradient_milli_spec(ratio_milli);
        let increase_milli: int = if s.in_flight * 1000000 > 800 * self.limit_milli
            && gradient_milli > 900 {
            4000
        } else {
            0
        };
        let stepped_milli = self.limit_milli * gradient_milli / 1000 + increase_milli;
        let smoothed_milli = (self.limit_milli * 4 + stepped_milli) / 5;
        let clamped_milli: int = if smoothed_milli < self.min_limit * 1000 {
            self.min_limit * 1000
        } else if smoothed_milli > self.max_limit * 1000 {
            self.max_limit * 1000
        } else {
            smoothed_milli
        };
        Gradient {
            limit: (clamped_milli / 1000) as usize,
            limit_milli: clamped_milli as u128,
            long_window_latency: long1,
            ..self
        }
    }

    /// The controller state after one sample: sub-floor samples are ignored.
    pub open spec fn next_state(self, s: Sample) -> Gradient {
        if s.latency_ns < MIN_SAMPLE_LATENCY_NS {
            self
        } else {
            self.next_state_measured(s)
        }
    }
}

impl LimitAlgorithm for Gradient {
    open spec fn wf(&self) -> bool {
        self.wf_spec()
    }

    open spec fn min_limit_spec(&self) -> usize {
        self.min_limit
    }

    open spec fn max_limit_spec(&self) -> usize {
        self.max_limit
    }

    open spec fn limit_spec(&self) -> usize {
        self.limit
    }

    open spec fn transition(self, s: Sample, next: Self) -> bool {
        next == self.next_state(s)
    }

    proof fn wf_bounds(&self) {
        lemma_div_le_bound(self.limit_milli as int, 1000, self.max_limit as int);
        vstd::arithmetic::div_mod::lemma_div_is_ordered(
            self.min_limit * 1000,
            self.limit_milli as int,
            1000,
        );
        vstd::arithmetic::div_mod::lemma_div_by_multiple(self.min_limit as int, 1000);
    }

    proof fn transition_wf(self, s: Sample, next: Self) {
        if s.latency_ns >= MIN_SAMPLE_LATENCY_NS {
            self.long_window_latency.lemma_next_state_wf(s.latency_ns);
            let stepped = self.next_state_measured(s);
            let m = stepped.limit_milli as int;
            assert(self.min_limit * 1000 <= m <= self.max_limit * 1000);
            lemma_div_le_bound(m, 1000, self.max_limit as int);
            vstd::arithmetic::div_mod::lemma_div_is_ordered(
                self.min_limit * 1000,
                m,
                1000,
            );
            vstd::arithmetic::div_mod::lemma_div_by_multiple(self.min_limit as int, 1000);
        }
    }

    fn limit(&self) -> (r: usize) {
        self.limit
    }

    fn update(&mut self, s: Sample) -> (r: usize) {
        if s.latency_ns < MIN_SAMPLE_LATENCY_NS {
            return self.limit;
        }
        let long_value: u64 = self.long_window_latency.sample(s.latency_ns);
        let ratio_milli: u128 = (long_value as u128) * 1000 / (s.latency_ns as u128);
        if ratio_milli > 2000 {
            proof {
                lemma_div_le_bound(
                    (long_value as int) * 95,
                    100,
                    0xFFFF_FFFF_FFFF_FFFF,
                );
            }
            let decayed: u64 = ((long_value as u128) * 95 / 100) as u64;
            self.long_window_latency.set(decayed);
        }
        let gradient_milli: u128 = if 2 * ratio_milli < 500 {
            500
        } else if 2 * ratio_milli > 1000 {
            1000
        } else {
            2 * ratio_milli
        };
        let utilisation_high: bool = (s.in_flight as u128) * 1000000 > 800 * self.limit_milli;
        let increase_milli: u128 = if utilisation_high && gradient_milli > 900 {
            4000
        } else {
            0
        };
        proof {
            vstd::arithmetic::mul::lemma_mul_upper_bound(
                self.limit_milli as int,
                0xFFFF_FFFF_FFFF_FFFFint * 1000,
                gradient_milli as int,
                1000,
            );
        }
        let stepped_milli: u128 = self.limit_milli * gradient_milli / 1000 + increase_milli;
        let smoothed_milli: u128 = (self.limit_milli * 4 + stepped_milli) / 5;
        let lo_milli: u128 = (self.min_limit as u128) * 1000;
        let hi_milli: u128 = (self.max_limit as u128) * 1000;
        let clamped_milli: u128 = if smoothed_milli < lo_milli {
            lo_milli
        } else if smoothed_milli > hi_milli {
            hi_milli
        } else {
            smoothed_milli
        };
        self.limit_milli = clamped_milli;
        proof {
            lemma_div_le_bound(clamped_milli as int, 1000, self.max_limit as int);
        }
        self.limit = (clamped_milli / 1000) as usize;
        self.limit
    }
}

/// A sample below the one-microsecond floor leaves the controller, and so the
/// prior limit, unchanged.
pub proof fn gradient_ignores_sub_floor_sample(g: Gradient, s: Sample)
    requires
        s.latency_ns < MIN_SAMPLE_LATENCY_NS,
    ensures
        g.next_state(s) == g,
{
}

} // verus!
