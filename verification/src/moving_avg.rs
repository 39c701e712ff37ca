//! Moving averages over durations held as whole nanoseconds.

use vstd::prelude::*;

use crate::arith::{lemma_div_le_bound, lemma_half_step_le};

verus! {

/// Number of leading samples averaged directly before exponential smoothing
/// takes over, so that the first value does not dominate early forecasts.
pub const INITIAL_WARMUP_SAMPLES: u16 = 10;

/// An exponential moving average with smoothing factor `2 / (window + 1)`.
///
/// The first few samples are averaged arithmetically (a warm-up period);
/// after that each sample moves the value by `2 / (window + 1)` of the
/// distance between the sample and the current value, rounding towards the
/// current value.
#[derive(Debug, Clone, Copy, PartialEq, Eq, Structural)]
pub struct ExpSmoothed {
    /// Window size `k`; the smoothing factor is `2 / (k + 1)`.
    pub window: u16,
    pub value_ns: u64,
    pub warm_sum: u128,
    pub warm_count: u16,
}

impl ExpSmoothed {
    pub open spec fn wf(&self) -> bool {
        &&& 1 <= self.window < 0xFFFFu16
        &&& self.warm_count <= INITIAL_WARMUP_SAMPLES
        &&& self.warm_sum <= self.warm_count * 0xFFFF_FFFF_FFFF_FFFF
    }

    /// The state after absorbing one sample: a running arithmetic mean while
    /// warming up, then `value + (sample - value) * 2 / (window + 1)`.
    pub open spec fn next_state(self, sample_ns: u64) -> ExpSmoothed {
        if self.warm_count < INITIAL_WARMUP_SAMPLES {
            ExpSmoothed {
                value_ns: ((self.warm_sum + sample_ns) / (self.warm_count + 1)) as u64,
                warm_sum: (self.warm_sum + sample_ns) as u128,
                warm_count: (self.warm_count + 1) as u16,
                window: self.window,
            }
        } else {
            let stepped: int = if sample_ns >= self.value_ns {
                self.value_ns + (sample_ns - self.value_ns) * 2 / (self.window + 1)
            } else {
                self.value_ns - (self.value_ns - sample_ns) * 2 / (self.window + 1)
            };
            ExpSmoothed { value_ns: stepped as u64, ..self }
        }
    }

    /// Absorbing a sample keeps the average well-formed and its window
    /// unchanged.
    pub proof fn lemma_next_state_wf(self, sample_ns: u64)
        requires
            self.wf(),
        ensures
            self.next_state(sample_ns).wf(),
            self.next_state(sample_ns).window == self.window,
    {
    }

    /// The window must be at least one and leave `window + 1` representable.
    pub fn new_with_window_size(k: u16) -> (e: ExpSmoothed)
        requires
            1 <= k < 0xFFFFu16,
        ensures
            e == (ExpSmoothed { window: k, value_ns: 0u64, warm_sum: 0u128, warm_count: 0u16 }),
            e.wf(),
    {
        ExpSmoothed { window: k, value_ns: 0, warm_sum: 0, warm_count: 0 }
    }

    /// Absorb one sample and return the new smoothed value.
    pub fn sample(&mut self, sample_ns: u64) -> (r: u64)
        requires
            old(self).wf(),
        ensures
            *final(self) == old(self).next_state(sample_ns),
            final(self).wf(),
            r == final(self).value_ns,
    {
        if self.warm_count < INITIAL_WARMUP_SAMPLES {
            self.warm_sum = self.warm_sum + sample_ns as u128;
            self.warm_count = self.warm_count + 1;
            proof {
                lemma_div_le_bound(
                    self.warm_sum as int,
                    self.warm_count as int,
                    0xFFFF_FFFF_FFFF_FFFF,
                );
            }
            let avg: u128 = self.warm_sum / (self.warm_count as u128);
            self.value_ns = avg as u64;
        } else {
            let w1: u128 = (self.window as u128) + 1;
            if sample_ns >= self.value_ns {
                let delta: u128 = (sample_ns - self.value_ns) as u128;
                let step: u128 = delta * 2 / w1;
                proof {
                    lemma_half_step_le(delta as int, w1 as int);
                }
                self.value_ns = self.value_ns + (step as u64);
            } else {
                let delta: u128 = (self.value_ns - sample_ns) as u128;
                let step: u128 = delta * 2 / w1;
                proof {
                    lemma_half_step_le(delta as int, w1 as int);
                }
                self.value_ns = self.value_ns - (step as u64);
            }
        }
        self.value_ns
    }

    /// Overwrite the smoothed value, leaving the warm-up state untouched.
    pub fn set(&mut self, value_ns: u64)
        ensures
            *final(self) == (ExpSmoothed { value_ns, ..*old(self) }),
    {
        self.value_ns = value_ns;
    }
}

/// The sum of a sequence of nanosecond durations.
pub open spec fn sum_ns(s: Seq<u64>) -> int
    decreases s.len(),
{
    if s.len() == 0 {
        0
    } else {
        s[0] + sum_ns(s.skip(1))
    }
}

pub proof fn lemma_sum_ns_push(s: Seq<u64>, x: u64)
    ensures
        sum_ns(s.push(x)) == sum_ns(s) + x,
    decreases s.len(),
{
    if s.len() == 0 {
        assert(s.push(x)[0] == x);
        assert(s.push(x).skip(1) =~= Seq::<u64>::empty());
        assert(sum_ns(s.push(x).skip(1)) == 0);
    } else {
        assert(s.push(x)[0] == s[0]);
        assert(s.push(x).skip(1) =~= s.skip(1).push(x));
        lemma_sum_ns_push(s.skip(1), x);
        assert(sum_ns(s.push(x)) == s[0] + sum_ns(s.skip(1).push(x)));
    }
}

pub proof fn lemma_sum_ns_bounds(s: Seq<u64>)
    ensures
        0 <= sum_ns(s) <= s.len() * 0xFFFF_FFFF_FFFF_FFFF,
    decreases s.len(),
{
    if s.len() > 0 {
        lemma_sum_ns_bounds(s.skip(1));
    }
}

/// A simple moving average: the arithmetic mean (rounded down) of the last
/// `window_size` samples.
#[derive(Debug)]
pub struct Simple {
    pub window_size: u16,
    pub values: Vec<u64>,
    pub total: u128,
}

impl Simple {
    pub open spec fn wf(&self) -> bool {
        &&& 1 <= self.window_size
        &&& self.values@.len() <= self.window_size
        &&& self.total == sum_ns(self.values@)
    }

    /// The window the next sample lands in: the current samples, with the
    /// oldest dropped once the window is full.
    pub open spec fn retained(&self) -> Seq<u64> {
        if self.values@.len() >= self.window_size {
            self.values@.skip(1)
        } else {
            self.values@
        }
    }

    pub fn new_with_window_size(window_size: u16) -> (s: Simple)
        requires
            window_size >= 1,
        ensures
            s.wf(),
            s.window_size == window_size,
            s.values@ =~= Seq::<u64>::empty(),
    {
        Simple { window_size, values: Vec::new(), total: 0 }
    }

    /// Absorb one sample and return the mean (rounded down) of the samples in
    /// the window.
    pub fn sample(&mut self, sample_ns: u64) -> (r: u64)
        requires
            old(self).wf(),
        ensures
            final(self).wf(),
            final(self).window_size == old(self).window_size,
            final(self).values@ == old(self).retained().push(sample_ns),
            r == sum_ns(final(self).values@) / final(self).values@.len() as int,
    {
        proof {
            lemma_sum_ns_bounds(self.values@);
        }
        if self.values.len() >= self.window_size as usize {
            let front: u64 = self.values.remove(0);
            proof {
                assert(old(self).values@.remove(0) =~= old(self).values@.skip(1));
                lemma_sum_ns_bounds(old(self).values@.skip(1));
                assert(sum_ns(old(self).values@) == old(self).values@[0] + sum_ns(
                    old(self).values@.skip(1),
                ));
            }
            self.total = self.total - front as u128;
        }
        self.values.push(sample_ns);
        self.total = self.total + sample_ns as u128;
        proof {
            lemma_sum_ns_push(old(self).retained(), sample_ns);
            lemma_sum_ns_bounds(self.values@);
            lemma_div_le_bound(
                self.total as int,
                self.values@.len() as int,
                0xFFFF_FFFF_FFFF_FFFF,
            );
        }
        let avg: u128 = self.total / (self.values.len() as u128);
        avg as u64
    }
}

} // verus!
