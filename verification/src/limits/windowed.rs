//! Batch raw samples into aggregated updates on a rolling window.

use vstd::prelude::*;

use super::{LimitAlgorithm, Sample, MIN_SAMPLE_LATENCY_NS};
use crate::aggregation::Aggregator;

verus! {

/// Default number of samples required before the window may roll.
pub const WINDOWED_DEFAULT_MIN_SAMPLES: usize = 10;

/// Default smallest window duration: one microsecond.
pub const WINDOWED_DEFAULT_MIN_WINDOW_NS: u64 = 1000;

/// Default largest window duration: one second.
pub const WINDOWED_DEFAULT_MAX_WINDOW_NS: u64 = 1000000000;

/// `x` clamped to `[lo, hi]` (meaningful for `lo <= hi`).
pub open spec fn clamp_u64(x: u64, lo: u64, hi: u64) -> u64 {
    if x < lo {
        lo
    } else if x > hi {
        hi
    } else {
        x
    }
}

/// A wrapper around a [LimitAlgorithm] which aggregates samples within a
/// window, periodically updating the limit.
///
/// The window duration is dynamic: about twice the smallest latency seen in
/// the previous window, clamped to the configured bounds.
///
/// The wrapper holds a logical clock (`now_ns`) which the embedder advances
/// with [`Windowed::advance_clock`]; the wrapper itself never reads a real
/// clock. A window rolls once it holds at least `min_samples` samples and
/// the clock has moved `window_duration_ns` past the window's start.
#[derive(Debug)]
pub struct Windowed<L, S> {
    pub inner: L,
    pub aggregator: S,
    pub min_samples: usize,
    pub min_window_ns: u64,
    pub max_window_ns: u64,
    pub window_start_ns: u64,
    pub window_duration_ns: u64,
    /// The minimum latency observed in the current window; `u64::MAX` until
    /// a sample arrives. Used to pick the next window duration.
    pub window_min_latency_ns: u64,
    /// The logical clock, advanced by the embedder.
    pub now_ns: u64,
}

impl<L: LimitAlgorithm, S: Aggregator> Windowed<L, S> {
    pub open spec fn wf_spec(&self) -> bool {
        &&& self.inner.wf()
        &&& self.aggregator.wf()
        &&& self.min_samples >= 1
        &&& self.min_window_ns <= self.max_window_ns
        &&& self.max_window_ns <= 0x7FFF_FFFF_FFFF_FFFFu64
        &&& self.window_start_ns <= self.now_ns
    }

    /// The smallest latency in the window once `s` has been counted.
    pub open spec fn updated_min_latency(&self, s: Sample) -> u64 {
        if s.latency_ns < self.window_min_latency_ns {
            s.latency_ns
        } else {
            self.window_min_latency_ns
        }
    }

    /// Whether the window rolls over after absorbing a sample that brought
    /// the aggregation to `size` samples.
    pub open spec fn rolls_over(&self, size: usize) -> bool {
        size >= self.min_samples && self.now_ns - self.window_start_ns
            >= self.window_duration_ns
    }

    /// The duration of the window that follows one whose smallest latency
    /// was `min_latency`: twice that latency, clamped to the bounds.
    pub open spec fn next_duration(&self, min_latency: u64) -> int {
        2 * clamp_u64(min_latency, self.min_window_ns, self.max_window_ns)
    }

    pub fn new(inner: L, aggregator: S) -> (w: Windowed<L, S>)
        requires
            inner.wf(),
            aggregator.wf(),
        ensures
            w == (Windowed {
                inner,
                aggregator,
                min_samples: WINDOWED_DEFAULT_MIN_SAMPLES,
                min_window_ns: WINDOWED_DEFAULT_MIN_WINDOW_NS,
                max_window_ns: WINDOWED_DEFAULT_MAX_WINDOW_NS,
                window_start_ns: 0u64,
                window_duration_ns: WINDOWED_DEFAULT_MIN_WINDOW_NS,
                window_min_latency_ns: 0xFFFF_FFFF_FFFF_FFFFu64,
                now_ns: 0u64,
            }),
            w.wf_spec(),
    {
        Windowed {
            inner,
            aggregator,
            min_samples: WINDOWED_DEFAULT_MIN_SAMPLES,
            min_window_ns: WINDOWED_DEFAULT_MIN_WINDOW_NS,
            max_window_ns: WINDOWED_DEFAULT_MAX_WINDOW_NS,
            window_start_ns: 0,
            window_duration_ns: WINDOWED_DEFAULT_MIN_WINDOW_NS,
            window_min_latency_ns: 0xFFFF_FFFF_FFFF_FFFF,
            now_ns: 0,
        }
    }

    /// At least this many samples need to be aggregated before updating the
    /// limit.
    pub fn with_min_samples(self, samples: usize) -> (w: Windowed<L, S>)
        requires
            samples >= 1,
        ensures
            w == (Windowed { min_samples: samples, ..self }),
    {
        Windowed { min_samples: samples, ..self }
    }

    /// Minimum time to wait before attempting to update the limit. Must not
    /// exceed the configured maximum window. The first window's duration is
    /// the minimum window, so it is restarted here too.
    pub fn with_min_window(self, min_ns: u64) -> (w: Windowed<L, S>)
        requires
            min_ns <= self.max_window_ns,
        ensures
            w == (Windowed { min_window_ns: min_ns, window_duration_ns: min_ns, ..self }),
    {
        Windowed { min_window_ns: min_ns, window_duration_ns: min_ns, ..self }
    }

    /// Maximum time to wait before attempting to update the limit. (Will
    /// wait for longer if not enough samples have been aggregated; see
    /// `with_min_samples`.) Bounded so that doubling a clamped latency
    /// cannot overflow.
    pub fn with_max_window(self, max_ns: u64) -> (w: Windowed<L, S>)
        requires
            self.min_window_ns <= max_ns,
            max_ns <= 0x7FFF_FFFF_FFFF_FFFFu64,
        ensures
            w == (Windowed { max_window_ns: max_ns, ..self }),
    {
        Windowed { max_window_ns: max_ns, ..self }
    }

    /// Advance the logical clock to `now_ns` (a clock that would move
    /// backwards stays put).
    pub fn advance_clock(&mut self, now_ns: u64)
        ensures
            *final(self) == (Windowed {
                now_ns: if now_ns > old(self).now_ns {
                    now_ns
                } else {
                    old(self).now_ns
                },
                ..*old(self)
            }),
    {
        if now_ns > self.now_ns {
            self.now_ns = now_ns;
        }
    }
}

impl<L: LimitAlgorithm, S: Aggregator> LimitAlgorithm for Windowed<L, S> {
    open spec fn wf(&self) -> bool {
        self.wf_spec()
    }

    open spec fn min_limit_spec(&self) -> usize {
        self.inner.min_limit_spec()
    }

    open spec fn max_limit_spec(&self) -> usize {
        self.inner.max_limit_spec()
    }

    open spec fn limit_spec(&self) -> usize {
        self.inner.limit_spec()
    }

    /// A sub-floor sample is discarded. Otherwise the sample is merged into
    /// the aggregation (reaching state `mid`); if the window then holds
    /// enough samples and enough time has passed, the aggregate is forwarded
    /// to the inner controller and the window starts afresh with a duration
    /// set by the smallest latency just seen.
    open spec fn transition(self, s: Sample, next: Self) -> bool {
        if s.latency_ns < MIN_SAMPLE_LATENCY_NS {
            next == self
        } else {
            exists|mid: S|
                {
                    &&& #[trigger] self.aggregator.transition(s, mid)
                    &&& if self.rolls_over(mid.size_spec()) {
                        &&& mid.reset_transition(next.aggregator)
                        &&& self.inner.transition(mid.aggregate_spec(), next.inner)
                        &&& next.min_samples == self.min_samples
                        &&& next.min_window_ns == self.min_window_ns
                        &&& next.max_window_ns == self.max_window_ns
                        &&& next.window_start_ns == self.now_ns
                        &&& next.window_duration_ns == self.next_duration(
                            self.updated_min_latency(s),
                        )
                        &&& next.window_min_latency_ns == 0xFFFF_FFFF_FFFF_FFFFu64
                        &&& next.now_ns == self.now_ns
                    } else {
                        next == (Windowed {
                            aggregator: mid,
                            window_min_latency_ns: self.updated_min_latency(s),
                            ..self
                        })
                    }
                }
        }
    }

    proof fn wf_bounds(&self) {
        self.inner.wf_bounds();
    }

    proof fn transition_wf(self, s: Sample, next: Self) {
        if s.latency_ns >= MIN_SAMPLE_LATENCY_NS {
            let mid = choose|mid: S|
                {
                    &&& #[trigger] self.aggregator.transition(s, mid)
                    &&& if self.rolls_over(mid.size_spec()) {
                        &&& mid.reset_transition(next.aggregator)
                        &&& self.inner.transition(mid.aggregate_spec(), next.inner)
                        &&& next.min_samples == self.min_samples
                        &&& next.min_window_ns == self.min_window_ns
                        &&& next.max_window_ns == self.max_window_ns
                        &&& next.window_start_ns == self.now_ns
                        &&& next.window_duration_ns == self.next_duration(
                            self.updated_min_latency(s),
                        )
                        &&& next.window_min_latency_ns == 0xFFFF_FFFF_FFFF_FFFFu64
                        &&& next.now_ns == self.now_ns
                    } else {
                        next == (Windowed {
                            aggregator: mid,
                            window_min_latency_ns: self.updated_min_latency(s),
                            ..self
                        })
                    }
                };
            self.aggregator.transition_wf(s, mid);
            if self.rolls_over(mid.size_spec()) {
                mid.reset_wf(next.aggregator);
                self.inner.transition_wf(mid.aggregate_spec(), next.inner);
            }
        }
    }

    fn limit(&self) -> (r: usize) {
        self.inner.limit()
    }

    fn update(&mut self, s: Sample) -> (r: usize) {
        if s.latency_ns < MIN_SAMPLE_LATENCY_NS {
            proof {
                self.inner.wf_bounds();
            }
            return self.inner.limit();
        }
        if s.latency_ns < self.window_min_latency_ns {
            self.window_min_latency_ns = s.latency_ns;
        }
        let agg_sample: Sample = self.aggregator.sample(s);
        let size: usize = self.aggregator.sample_size();
        if size >= self.min_samples && self.now_ns - self.window_start_ns
            >= self.window_duration_ns {
            self.aggregator.reset();
            self.window_start_ns = self.now_ns;
            let clamped: u64 = if self.window_min_latency_ns < self.min_window_ns {
                self.min_window_ns
            } else if self.window_min_latency_ns > self.max_window_ns {
                self.max_window_ns
            } else {
                self.window_min_latency_ns
            };
            self.window_duration_ns = 2 * clamped;
            self.window_min_latency_ns = 0xFFFF_FFFF_FFFF_FFFF;
            let r: usize = self.inner.update(agg_sample);
            r
        } else {
            proof {
                self.inner.wf_bounds();
            }
            self.inner.limit()
        }
    }
}

} // verus!
