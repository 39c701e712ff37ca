//! Sample aggregators: reduce many samples to one.

use vstd::prelude::*;

use crate::arith::lemma_div_le_bound;
use vstd::multiset::Multiset;
use crate::limiter::Outcome;
use crate::limits::Sample;

verus! {

/// Aggregates multiple samples into one.
///
/// Additional samples can be added to update the aggregated sample. As such,
/// the sample window can be expanded, but only contracted again by
/// resetting.
///
/// `transition` is the step relation of one `sample` call and
/// `reset_transition` that of one `reset`; the running aggregate is
/// `aggregate_spec` and the number of absorbed samples `size_spec`.
pub trait Aggregator: Sized {
    /// Internal consistency of the aggregator state.
    spec fn wf(&self) -> bool;

    /// How many samples the aggregation currently holds.
    spec fn size_spec(&self) -> usize;

    /// The current aggregated sample (meaningful once `size_spec() > 0`).
    spec fn aggregate_spec(&self) -> Sample;

    /// One `sample` step: absorbing `s` takes the aggregator from `self` to
    /// `next`.
    spec fn transition(self, s: Sample, next: Self) -> bool;

    /// One `reset` step.
    spec fn reset_transition(self, next: Self) -> bool;

    /// A step preserves well-formedness and counts the sample, until the
    /// count saturates.
    proof fn transition_wf(self, s: Sample, next: Self)
        requires
            self.wf(),
            self.transition(s, next),
        ensures
            next.wf(),
            self.size_spec() < usize::MAX ==> next.size_spec() == self.size_spec() + 1,
            self.size_spec() == usize::MAX ==> next.size_spec() == usize::MAX,
    ;

    /// A reset empties the aggregation.
    proof fn reset_wf(self, next: Self)
        requires
            self.wf(),
            self.reset_transition(next),
        ensures
            next.wf(),
            next.size_spec() == 0,
    ;

    /// Add a sample to the aggregation.
    ///
    /// Returns the current aggregated sample. (Once the sample count has
    /// reached `usize::MAX`, further samples leave the aggregation
    /// unchanged.)
    fn sample(&mut self, s: Sample) -> (r: Sample)
        requires
            old(self).wf(),
        ensures
            old(self).transition(s, *final(self)),
            final(self).wf(),
            final(self).size_spec() > 0,
            r == final(self).aggregate_spec(),
    ;

    fn sample_size(&self) -> (n: usize)
        requires
            self.wf(),
        ensures
            n == self.size_spec(),
    ;

    fn reset(&mut self)
        requires
            old(self).wf(),
        ensures
            old(self).reset_transition(*final(self)),
            final(self).wf(),
            final(self).size_spec() == 0,
    ;
}

/// Average latency and concurrency (in flight).
#[derive(Debug, Clone, Copy, PartialEq, Eq, Structural)]
pub struct Average {
    pub latency_sum: u128,
    pub in_flight_sum: u128,
    pub overload: Outcome,
    pub samples: usize,
}

impl Average {
    pub open spec fn wf_spec(&self) -> bool {
        &&& self.latency_sum <= self.samples * 0xFFFF_FFFF_FFFF_FFFF
        &&& self.in_flight_sum <= self.samples * (usize::MAX as int)
    }

    /// The fresh state: empty sums, a `Success` outcome, no samples.
    pub open spec fn fresh_spec() -> Average {
        Average { latency_sum: 0u128, in_flight_sum: 0u128, overload: Outcome::Success, samples: 0usize }
    }

    /// The state after absorbing one sample: the sums grow, the outcome is
    /// merged pessimistically, and the sample is counted.
    pub open spec fn next_state(self, s: Sample) -> Average {
        if self.samples == usize::MAX {
            self
        } else {
            Average {
                latency_sum: (self.latency_sum + s.latency_ns) as u128,
                in_flight_sum: (self.in_flight_sum + s.in_flight) as u128,
                overload: self.overload.overloaded_or_spec(s.outcome),
                samples: (self.samples + 1) as usize,
            }
        }
    }
}

impl Default for Average {
    /// The empty aggregation.
    fn default() -> (a: Average)
        ensures
            a == Average::fresh_spec(),
    {
        Average { latency_sum: 0, in_flight_sum: 0, overload: Outcome::Success, samples: 0 }
    }
}

impl Aggregator for Average {
    open spec fn wf(&self) -> bool {
        self.wf_spec()
    }

    open spec fn size_spec(&self) -> usize {
        self.samples
    }

    /// The arithmetic means (rounded down) of latency and in-flight, with
    /// the pessimistically merged outcome.
    open spec fn aggregate_spec(&self) -> Sample {
        Sample {
            latency_ns: (self.latency_sum as int / self.samples as int) as u64,
            in_flight: (self.in_flight_sum as int / self.samples as int) as usize,
            outcome: self.overload,
        }
    }

    open spec fn transition(self, s: Sample, next: Self) -> bool {
        next == self.next_state(s)
    }

    open spec fn reset_transition(self, next: Self) -> bool {
        next == Average::fresh_spec()
    }

    proof fn transition_wf(self, s: Sample, next: Self) {
    }

    proof fn reset_wf(self, next: Self) {
    }

    fn sample(&mut self, s: Sample) -> (r: Sample) {
        if self.samples < usize::MAX {
            self.latency_sum = self.latency_sum + s.latency_ns as u128;
            self.in_flight_sum = self.in_flight_sum + s.in_flight as u128;
            self.overload = self.overload.overloaded_or(s.outcome);
            self.samples = self.samples + 1;
        }
        proof {
            lemma_div_le_bound(
                self.latency_sum as int,
                self.samples as int,
                0xFFFF_FFFF_FFFF_FFFF,
            );
            lemma_div_le_bound(
                self.in_flight_sum as int,
                self.samples as int,
                usize::MAX as int,
            );
        }
        let mean_latency: u128 = self.latency_sum / (self.samples as u128);
        let mean_in_flight: u128 = self.in_flight_sum / (self.samples as u128);
        Sample {
            latency_ns: mean_latency as u64,
            in_flight: mean_in_flight as usize,
            outcome: self.overload,
        }
    }

    fn sample_size(&self) -> (n: usize) {
        self.samples
    }

    fn reset(&mut self) {
        *self = Average { latency_sum: 0, in_flight_sum: 0, overload: Outcome::Success, samples: 0 };
    }
}

/// The samples are ordered by latency, ties in arrival order.
pub open spec fn sorted_by_latency(s: Seq<Sample>) -> bool {
    forall|i: int, j: int|
        #![trigger s[i], s[j]]
        0 <= i < j < s.len() ==> s[i].latency_ns <= s[j].latency_ns
}

/// Where a new sample of the given latency is inserted: after every sample
/// whose latency is at or below it (so ties keep arrival order).
pub open spec fn insert_pos(s: Seq<Sample>, latency_ns: u64) -> int
    decreases s.len(),
{
    if s.len() == 0 {
        0
    } else if s[0].latency_ns > latency_ns {
        0
    } else {
        1 + insert_pos(s.skip(1), latency_ns)
    }
}

/// The insert position ends the maximal prefix of samples at or below the
/// given latency.
pub proof fn lemma_insert_pos_props(s: Seq<Sample>, latency_ns: u64)
    ensures
        0 <= insert_pos(s, latency_ns) <= s.len(),
        forall|j: int|
            0 <= j < insert_pos(s, latency_ns) ==> #[trigger] s[j].latency_ns <= latency_ns,
        insert_pos(s, latency_ns) < s.len() ==> s[insert_pos(s, latency_ns)].latency_ns
            > latency_ns,
    decreases s.len(),
{
    if s.len() > 0 && s[0].latency_ns <= latency_ns {
        lemma_insert_pos_props(s.skip(1), latency_ns);
        let p = insert_pos(s, latency_ns);
        assert forall|j: int| 0 <= j < p implies #[trigger] s[j].latency_ns <= latency_ns by {
            if j > 0 {
                assert(s.skip(1)[j - 1] == s[j]);
            }
        }
        if p < s.len() {
            assert(s.skip(1)[p - 1] == s[p]);
        }
    }
}

/// Inserting at the insert position keeps the sequence sorted.
pub proof fn lemma_sorted_insert(s: Seq<Sample>, x: Sample)
    requires
        sorted_by_latency(s),
    ensures
        sorted_by_latency(s.insert(insert_pos(s, x.latency_ns), x)),
{
    lemma_insert_pos_props(s, x.latency_ns);
    let p = insert_pos(s, x.latency_ns);
    let t = s.insert(p, x);
    assert forall|i: int, j: int|
        #![trigger t[i], t[j]]
        0 <= i < j < t.len() implies t[i].latency_ns <= t[j].latency_ns by {
        let ti = if i < p {
            s[i]
        } else if i == p {
            x
        } else {
            s[i - 1]
        };
        let tj = if j < p {
            s[j]
        } else if j == p {
            x
        } else {
            s[j - 1]
        };
        assert(t[i] == ti);
        assert(t[j] == tj);
    }
}

/// The index picked by a quantile `p_milli / 1000` among `n` samples:
/// `ceil(n * p) - 1`.
pub open spec fn quantile_index(n: int, p_milli: int) -> int {
    (n * p_milli + 999) / 1000 - 1
}

/// The quantile index of a positive sample count is a valid index.
pub proof fn lemma_quantile_index_in_range(n: int, p_milli: int)
    requires
        n >= 1,
        1 <= p_milli <= 999,
    ensures
        0 <= quantile_index(n, p_milli) < n,
{
    vstd::arithmetic::mul::lemma_mul_inequality(1, n, p_milli);
    vstd::arithmetic::mul::lemma_mul_is_commutative(n, p_milli);
    assert(n * p_milli >= p_milli >= 1);
    vstd::arithmetic::div_mod::lemma_div_is_ordered(1000, n * p_milli + 999, 1000);
    vstd::arithmetic::mul::lemma_mul_inequality(p_milli, 999, n);
    assert(n * p_milli <= 999 * n);
    vstd::arithmetic::div_mod::lemma_div_is_ordered(
        n * p_milli + 999,
        1000 * n + 999,
        1000,
    );
    vstd::arithmetic::div_mod::lemma_div_multiples_vanish_fancy(n, 999, 1000);
}

/// A latency percentile, with sample-matched concurrency (in flight).
///
/// The percentile is carried in thousandths: P99 is `990`, P50 is `500`.
#[derive(Debug)]
pub struct Percentile {
    pub percentile_milli: u64,
    pub overload: Outcome,
    /// All absorbed samples, ordered by latency, ties in arrival order.
    pub items: Vec<Sample>,
}

impl Percentile {
    pub open spec fn wf_spec(&self) -> bool {
        &&& 1 <= self.percentile_milli <= 999
        &&& sorted_by_latency(self.items@)
        &&& self.items@.len() <= usize::MAX
    }

    /// The percentile must lie strictly between 0 and 1: in thousandths,
    /// within `[1, 999]`.
    pub fn new(percentile_milli: u64) -> (p: Percentile)
        requires
            1 <= percentile_milli <= 999,
        ensures
            p.percentile_milli == percentile_milli,
            p.overload == Outcome::Success,
            p.items@ =~= Seq::<Sample>::empty(),
            p.wf_spec(),
    {
        Percentile { percentile_milli, overload: Outcome::Success, items: Vec::new() }
    }

    /// Where the next sample of the given latency lands.
    fn find_insert_pos(&self, latency_ns: u64) -> (pos: usize)
        ensures
            pos == insert_pos(self.items@, latency_ns),
    {
        proof {
            lemma_insert_pos_props(self.items@, latency_ns);
        }
        let n: usize = self.items.len();
        let mut i: usize = 0;
        while i < n && self.items[i].latency_ns <= latency_ns
            invariant
                n == self.items@.len(),
                0 <= i <= n,
                forall|j: int| 0 <= j < i ==> #[trigger] self.items@[j].latency_ns <= latency_ns,
                i <= insert_pos(self.items@, latency_ns),
            decreases n - i,
        {
            proof {
                lemma_insert_pos_props(self.items@, latency_ns);
                if insert_pos(self.items@, latency_ns) == i {
                    assert(self.items@[i as int].latency_ns > latency_ns);
                }
            }
            i = i + 1;
        }
        proof {
            lemma_insert_pos_props(self.items@, latency_ns);
            let p = insert_pos(self.items@, latency_ns);
            if i < n {
                if p > i {
                    assert(self.items@[i as int].latency_ns <= latency_ns);
                }
            }
        }
        i
    }
}

impl Default for Percentile {
    /// The empty aggregation at the median (P50).
    fn default() -> (p: Percentile)
        ensures
            p.percentile_milli == 500,
            p.overload == Outcome::Success,
            p.items@ =~= Seq::<Sample>::empty(),
            p.wf_spec(),
    {
        Percentile { percentile_milli: 500, overload: Outcome::Success, items: Vec::new() }
    }
}

impl Aggregator for Percentile {
    open spec fn wf(&self) -> bool {
        self.wf_spec()
    }

    open spec fn size_spec(&self) -> usize {
        self.items@.len() as usize
    }

    /// The sample at the quantile index in latency order supplies the
    /// latency and the matched in-flight count; the outcome is the
    /// pessimistic merge of everything seen.
    open spec fn aggregate_spec(&self) -> Sample {
        let chosen = self.items@[quantile_index(
            self.items@.len() as int,
            self.percentile_milli as int,
        )];
        Sample {
            latency_ns: chosen.latency_ns,
            in_flight: chosen.in_flight,
            outcome: self.overload,
        }
    }

    open spec fn transition(self, s: Sample, next: Self) -> bool {
        if self.items@.len() == usize::MAX {
            next == self
        } else {
            &&& next.percentile_milli == self.percentile_milli
            &&& next.overload == self.overload.overloaded_or_spec(s.outcome)
            &&& next.items@ == self.items@.insert(
                insert_pos(self.items@, s.latency_ns),
                s,
            )
        }
    }

    open spec fn reset_transition(self, next: Self) -> bool {
        &&& next.percentile_milli == self.percentile_milli
        &&& next.overload == Outcome::Success
        &&& next.items@ =~= Seq::<Sample>::empty()
    }

    proof fn transition_wf(self, s: Sample, next: Self) {
        if self.items@.len() != usize::MAX {
            lemma_insert_pos_props(self.items@, s.latency_ns);
            lemma_sorted_insert(self.items@, s);
            let p = insert_pos(self.items@, s.latency_ns);
            assert(next.items@ == self.items@.insert(p, s));
            assert(self.items@.insert(p, s).len() == self.items@.len() + 1);
            assert(sorted_by_latency(next.items@));
        }
    }

    proof fn reset_wf(self, next: Self) {
    }

    fn sample(&mut self, s: Sample) -> (r: Sample) {
        if self.items.len() < usize::MAX {
            self.overload = self.overload.overloaded_or(s.outcome);
            let pos: usize = self.find_insert_pos(s.latency_ns);
            proof {
                lemma_insert_pos_props(self.items@, s.latency_ns);
                lemma_sorted_insert(self.items@, s);
            }
            self.items.insert(pos, s);
        }
        let n: usize = self.items.len();
        proof {
            vstd::arithmetic::mul::lemma_mul_upper_bound(
                n as int,
                0xFFFF_FFFF_FFFF_FFFF,
                self.percentile_milli as int,
                999,
            );
            lemma_quantile_index_in_range(n as int, self.percentile_milli as int);
        }
        let scaled: u128 = (n as u128) * (self.percentile_milli as u128);
        let ceil_rank: u128 = (scaled + 999) / 1000;
        let idx: usize = (ceil_rank - 1) as usize;
        let chosen: Sample = self.items[idx];
        Sample {
            latency_ns: chosen.latency_ns,
            in_flight: chosen.in_flight,
            outcome: self.overload,
        }
    }

    fn sample_size(&self) -> (n: usize) {
        self.items.len()
    }

    fn reset(&mut self) {
        self.overload = Outcome::Success;
        self.items = Vec::new();
    }
}

/// The aggregator can go from `a` to `f` by absorbing the whole sample
/// sequence, in order.
pub open spec fn aggregator_runs_to<S: Aggregator>(a: S, samples: Seq<Sample>, f: S) -> bool
    decreases samples.len(),
{
    if samples.len() == 0 {
        f == a
    } else {
        exists|mid: S| #[trigger] a.transition(samples[0], mid) && aggregator_runs_to(
            mid,
            samples.skip(1),
            f,
        )
    }
}

/// Sum of the samples' latencies.
pub open spec fn sum_latency(samples: Seq<Sample>) -> int
    decreases samples.len(),
{
    if samples.len() == 0 {
        0
    } else {
        samples[0].latency_ns + sum_latency(samples.skip(1))
    }
}

/// Whether any sample in the sequence reports overload.
pub open spec fn any_overload(samples: Seq<Sample>) -> bool
    decreases samples.len(),
{
    if samples.len() == 0 {
        false
    } else {
        samples[0].outcome is Overload || any_overload(samples.skip(1))
    }
}

/// Sum of the samples' in-flight counts.
pub open spec fn sum_in_flight(samples: Seq<Sample>) -> int
    decreases samples.len(),
{
    if samples.len() == 0 {
        0
    } else {
        samples[0].in_flight + sum_in_flight(samples.skip(1))
    }
}

/// `reset(); sample(s); reset();` leaves the mean aggregator exactly as
/// freshly constructed.
pub proof fn average_reset_is_idempotent(
    a: Average,
    b: Average,
    c: Average,
    d: Average,
    s: Sample,
)
    requires
        a.reset_transition(b),
        b.transition(s, c),
        c.reset_transition(d),
    ensures
        d == Average::fresh_spec(),
{
}

/// `reset(); sample(s); reset();` leaves the quantile aggregator equivalent
/// to a freshly constructed one: same percentile, no samples, a `Success`
/// outcome.
pub proof fn percentile_reset_is_idempotent(
    a: Percentile,
    b: Percentile,
    c: Percentile,
    d: Percentile,
    s: Sample,
)
    requires
        a.reset_transition(b),
        b.transition(s, c),
        c.reset_transition(d),
    ensures
        d.percentile_milli == a.percentile_milli,
        d.overload == Outcome::Success,
        d.items@ =~= Seq::<Sample>::empty(),
{
}

proof fn lemma_average_run(a: Average, samples: Seq<Sample>, f: Average)
    requires
        a.wf_spec(),
        aggregator_runs_to::<Average>(a, samples, f),
        a.samples + samples.len() <= usize::MAX,
    ensures
        f.wf_spec(),
        f.samples == a.samples + samples.len(),
        f.latency_sum == a.latency_sum + sum_latency(samples),
        f.in_flight_sum == a.in_flight_sum + sum_in_flight(samples),
        f.overload == (if a.overload is Overload || any_overload(samples) {
            Outcome::Overload
        } else {
            Outcome::Success
        }),
    decreases samples.len(),
{
    if samples.len() > 0 {
        let mid = choose|mid: Average| #[trigger] a.transition(samples[0], mid)
            && aggregator_runs_to::<Average>(mid, samples.skip(1), f);
        a.transition_wf(samples[0], mid);
        lemma_average_run(mid, samples.skip(1), f);
    }
}

/// Over `n >= 1` samples, the mean aggregator reports exactly the floored
/// arithmetic means — its latency is `sum of latencies / n` and its
/// in-flight count `sum of in-flight counts / n` — and it merges outcomes
/// pessimistically: the reported outcome is `Overload` exactly when some
/// sample reported overload.
pub proof fn average_reports_arithmetic_mean(a: Average, samples: Seq<Sample>, f: Average)
    requires
        a == Average::fresh_spec(),
        1 <= samples.len() <= usize::MAX,
        aggregator_runs_to::<Average>(a, samples, f),
    ensures
        f.samples == samples.len(),
        f.latency_sum == sum_latency(samples),
        f.in_flight_sum == sum_in_flight(samples),
        f.aggregate_spec().latency_ns == sum_latency(samples) / samples.len() as int,
        f.aggregate_spec().in_flight == sum_in_flight(samples) / samples.len() as int,
        f.aggregate_spec().outcome is Overload <==> any_overload(samples),
{
    lemma_average_run(a, samples, f);
    lemma_div_le_bound(f.latency_sum as int, f.samples as int, 0xFFFF_FFFF_FFFF_FFFF);
    lemma_div_le_bound(f.in_flight_sum as int, f.samples as int, usize::MAX as int);
}

/// Inserting anywhere adds exactly that sample to the sequence's multiset.
proof fn lemma_insert_to_multiset(s: Seq<Sample>, i: int, x: Sample)
    requires
        0 <= i <= s.len(),
    ensures
        s.insert(i, x).to_multiset() =~= s.to_multiset().insert(x),
{
    broadcast use vstd::seq_lib::group_to_multiset_ensures;
    broadcast use vstd::multiset::group_multiset_axioms;

    let sub1 = s.subrange(0, i);
    let sub2 = s.subrange(i, s.len() as int);
    s.lemma_split_at(i);
    vstd::seq_lib::lemma_multiset_commutative(sub1, sub2);
    vstd::seq_lib::lemma_multiset_commutative(sub1.push(x), sub2);
    assert(sub1.push(x).to_multiset() =~= sub1.to_multiset().insert(x));
    assert((sub1 + sub2).to_multiset() =~= s.to_multiset());
}

proof fn lemma_percentile_run(a: Percentile, samples: Seq<Sample>, f: Percentile)
    requires
        a.wf_spec(),
        aggregator_runs_to::<Percentile>(a, samples, f),
        a.items@.len() + samples.len() <= usize::MAX,
    ensures
        f.wf_spec(),
        f.percentile_milli == a.percentile_milli,
        f.items@.len() == a.items@.len() + samples.len(),
        f.items@.to_multiset() =~= a.items@.to_multiset().add(samples.to_multiset()),
        f.overload == (if a.overload is Overload || any_overload(samples) {
            Outcome::Overload
        } else {
            Outcome::Success
        }),
    decreases samples.len(),
{
    broadcast use vstd::seq_lib::group_to_multiset_ensures;
    broadcast use vstd::multiset::group_multiset_axioms;

    if samples.len() == 0 {
        assert(samples.to_multiset().len() == 0);
        assert(f.items@.to_multiset() =~= a.items@.to_multiset().add(samples.to_multiset()));
    } else {
        let s0 = samples[0];
        let mid = choose|mid: Percentile| #[trigger] a.transition(samples[0], mid)
            && aggregator_runs_to::<Percentile>(mid, samples.skip(1), f);
        a.transition_wf(samples[0], mid);
        let pos = insert_pos(a.items@, s0.latency_ns);
        lemma_insert_pos_props(a.items@, s0.latency_ns);
        lemma_insert_to_multiset(a.items@, pos, s0);
        lemma_percentile_run(mid, samples.skip(1), f);
        assert(samples =~= seq![s0] + samples.skip(1));
        vstd::seq_lib::lemma_multiset_commutative(seq![s0], samples.skip(1));
        assert(seq![s0] =~= Seq::<Sample>::empty().push(s0));
        assert(Seq::<Sample>::empty().to_multiset().len() == 0);
        assert(seq![s0].to_multiset() =~= Multiset::<Sample>::empty().insert(s0));
        assert(f.items@.to_multiset() =~= a.items@.to_multiset().add(samples.to_multiset()));
    }
}

/// For the quantile aggregator at `p`, after `n >= 1` samples: the retained
/// samples are exactly the inputs (as a multiset), held in latency-sorted
/// order, the reported sample is the one at index `ceil(n * p) - 1` of that
/// order — its latency is the `ceil(n * p)`-th smallest input latency — and
/// the reported outcome is `Overload` exactly when some sample reported
/// overload.
pub proof fn percentile_reports_quantile_sample(
    p: Percentile,
    samples: Seq<Sample>,
    f: Percentile,
)
    requires
        p.wf_spec(),
        p.items@.len() == 0,
        p.overload == Outcome::Success,
        1 <= samples.len() <= usize::MAX,
        aggregator_runs_to::<Percentile>(p, samples, f),
    ensures
        f.percentile_milli == p.percentile_milli,
        sorted_by_latency(f.items@),
        f.items@.len() == samples.len(),
        f.items@.to_multiset() =~= samples.to_multiset(),
        f.aggregate_spec().latency_ns == f.items@[quantile_index(
            samples.len() as int,
            p.percentile_milli as int,
        )].latency_ns,
        f.aggregate_spec().in_flight == f.items@[quantile_index(
            samples.len() as int,
            p.percentile_milli as int,
        )].in_flight,
        f.aggregate_spec().outcome is Overload <==> any_overload(samples),
{
    broadcast use vstd::seq_lib::group_to_multiset_ensures;
    broadcast use vstd::multiset::group_multiset_axioms;

    lemma_percentile_run(p, samples, f);
    assert(p.items@.to_multiset().len() == 0);
    assert(f.items@.to_multiset() =~= samples.to_multiset());
    lemma_quantile_index_in_range(samples.len() as int, p.percentile_milli as int);
}

} // verus!
