//! Weighted partitions over one shared permit pool.

use vstd::prelude::*;

use super::token::Token;
use super::{DefaultLimiter, GateOp, LimiterState, Outcome};
use crate::limits::LimitAlgorithm;
use vstd::arithmetic::div_mod::{lemma_div_is_ordered, lemma_div_multiples_vanish_fancy};
use vstd::arithmetic::mul::{lemma_mul_inequality, lemma_mul_upper_bound};

verus! {

/// One partition's bookkeeping: its relative weight and its own in-flight
/// counter.
#[derive(Debug, Clone, Copy, PartialEq, Eq, Structural)]
pub struct Partition {
    pub weight: u64,
    pub in_flight: usize,
}

/// Sum of a weight sequence.
pub open spec fn sum_weights(ws: Seq<u64>) -> int
    decreases ws.len(),
{
    if ws.len() == 0 {
        0
    } else {
        ws[0] + sum_weights(ws.skip(1))
    }
}

/// Sum of the partitions' weights.
pub open spec fn total_weight(parts: Seq<Partition>) -> int
    decreases parts.len(),
{
    if parts.len() == 0 {
        0
    } else {
        parts[0].weight + total_weight(parts.skip(1))
    }
}

/// Sum of the partitions' in-flight counters.
pub open spec fn total_in_flight(parts: Seq<Partition>) -> int
    decreases parts.len(),
{
    if parts.len() == 0 {
        0
    } else {
        parts[0].in_flight + total_in_flight(parts.skip(1))
    }
}

/// `ceil(total_limit * weight / weights_total)`: the share of the total
/// limit one partition may fill on its own.
pub open spec fn fractional_limit(total_limit: int, weight: int, weights_total: int) -> int {
    (total_limit * weight + weights_total - 1) / weights_total
}

/// Spare capacity of one partition that others may borrow: what is left of
/// its share after its own jobs, less a reserved tenth (rounded up) of the
/// share kept for its owner.
pub open spec fn spare_of(partition_limit: int, in_flight: int) -> int {
    let buffer = (partition_limit + 9) / 10;
    if partition_limit - in_flight - buffer > 0 {
        partition_limit - in_flight - buffer
    } else {
        0
    }
}

/// Total spare capacity over all partitions.
pub open spec fn total_spare(parts: Seq<Partition>, total_limit: int, weights_total: int) -> int
    decreases parts.len(),
{
    if parts.len() == 0 {
        0
    } else {
        spare_of(
            fractional_limit(total_limit, parts[0].weight as int, weights_total),
            parts[0].in_flight as int,
        ) + total_spare(parts.skip(1), total_limit, weights_total)
    }
}

pub proof fn lemma_total_weight_nonneg(parts: Seq<Partition>)
    ensures
        total_weight(parts) >= 0,
    decreases parts.len(),
{
    if parts.len() > 0 {
        lemma_total_weight_nonneg(parts.skip(1));
    }
}

/// Each partition's weight is at most the total.
pub proof fn lemma_total_weight_at_least(parts: Seq<Partition>, i: int)
    requires
        0 <= i < parts.len(),
    ensures
        parts[i].weight <= total_weight(parts),
    decreases parts.len(),
{
    lemma_total_weight_nonneg(parts.skip(1));
    if i > 0 {
        lemma_total_weight_at_least(parts.skip(1), i - 1);
        assert(parts.skip(1)[i - 1] == parts[i]);
    }
}

pub proof fn lemma_total_in_flight_nonneg(parts: Seq<Partition>)
    ensures
        total_in_flight(parts) >= 0,
    decreases parts.len(),
{
    if parts.len() > 0 {
        lemma_total_in_flight_nonneg(parts.skip(1));
    }
}

/// Each partition's in-flight count is at most the total.
pub proof fn lemma_total_in_flight_at_least(parts: Seq<Partition>, i: int)
    requires
        0 <= i < parts.len(),
    ensures
        parts[i].in_flight <= total_in_flight(parts),
    decreases parts.len(),
{
    lemma_total_in_flight_nonneg(parts.skip(1));
    if i > 0 {
        lemma_total_in_flight_at_least(parts.skip(1), i - 1);
        assert(parts.skip(1)[i - 1] == parts[i]);
        assert(total_in_flight(parts) == parts[0].in_flight + total_in_flight(parts.skip(1)));
    }
}

/// Replacing one partition moves the in-flight total by the difference, and
/// keeps the weight total if the weight is kept.
pub proof fn lemma_totals_after_update(parts: Seq<Partition>, i: int, p: Partition)
    requires
        0 <= i < parts.len(),
    ensures
        total_in_flight(parts.update(i, p)) == total_in_flight(parts) - parts[i].in_flight
            + p.in_flight,
        p.weight == parts[i].weight ==> total_weight(parts.update(i, p)) == total_weight(parts),
    decreases parts.len(),
{
    if i == 0 {
        assert(parts.update(0, p).skip(1) =~= parts.skip(1));
    } else {
        assert(parts.update(i, p)[0] == parts[0]);
        assert(parts.update(i, p).skip(1) =~= parts.skip(1).update(i - 1, p));
        lemma_totals_after_update(parts.skip(1), i - 1, p);
        assert(parts.skip(1)[i - 1] == parts[i]);
    }
}

/// A sequence of idle partitions has in-flight total zero.
pub proof fn lemma_total_in_flight_zero(parts: Seq<Partition>)
    requires
        forall|i: int| 0 <= i < parts.len() ==> parts[i].in_flight == 0,
    ensures
        total_in_flight(parts) == 0,
    decreases parts.len(),
{
    if parts.len() > 0 {
        assert forall|i: int| 0 <= i < parts.skip(1).len() implies parts.skip(1)[i].in_flight
            == 0 by {
            assert(parts.skip(1)[i] == parts[i + 1]);
        }
        lemma_total_in_flight_zero(parts.skip(1));
    }
}

/// Partitions that carry the given weights have that weight total.
pub proof fn lemma_total_weight_pointwise(parts: Seq<Partition>, ws: Seq<u64>)
    requires
        parts.len() == ws.len(),
        forall|i: int| 0 <= i < parts.len() ==> parts[i].weight == ws[i],
    ensures
        total_weight(parts) == sum_weights(ws),
    decreases parts.len(),
{
    if parts.len() > 0 {
        assert forall|i: int| 0 <= i < parts.skip(1).len() implies parts.skip(1)[i].weight
            == ws.skip(1)[i] by {
            assert(parts.skip(1)[i] == parts[i + 1]);
            assert(ws.skip(1)[i] == ws[i + 1]);
        }
        lemma_total_weight_pointwise(parts.skip(1), ws.skip(1));
    }
}

/// A suffix never sums to more than the whole weight sequence.
pub proof fn lemma_sum_weights_suffix_le(ws: Seq<u64>, i: int)
    requires
        0 <= i <= ws.len(),
    ensures
        0 <= sum_weights(ws.skip(i)) <= sum_weights(ws),
    decreases i,
{
    if i == 0 {
        assert(ws.skip(0) =~= ws);
        lemma_sum_weights_nonneg(ws);
    } else {
        lemma_sum_weights_suffix_le(ws, i - 1);
        lemma_sum_weights_nonneg(ws.skip(i));
        assert(ws.skip(i - 1)[0] == ws[i - 1]);
        assert(ws.skip(i - 1).skip(1) =~= ws.skip(i));
        assert(sum_weights(ws.skip(i - 1)) == ws[i - 1] + sum_weights(ws.skip(i)));
    }
}

pub proof fn lemma_sum_weights_nonneg(ws: Seq<u64>)
    ensures
        sum_weights(ws) >= 0,
    decreases ws.len(),
{
    if ws.len() > 0 {
        lemma_sum_weights_nonneg(ws.skip(1));
    }
}

pub proof fn lemma_total_spare_nonneg(parts: Seq<Partition>, total_limit: int, weights_total: int)
    ensures
        total_spare(parts, total_limit, weights_total) >= 0,
    decreases parts.len(),
{
    if parts.len() > 0 {
        lemma_total_spare_nonneg(parts.skip(1), total_limit, weights_total);
    }
}

/// The spare total is positive exactly when some partition has spare.
pub proof fn lemma_total_spare_pos_iff(
    parts: Seq<Partition>,
    total_limit: int,
    weights_total: int,
)
    ensures
        total_spare(parts, total_limit, weights_total) > 0 <==> exists|i: int|
            0 <= i < parts.len() && spare_of(
                fractional_limit(total_limit, parts[i].weight as int, weights_total),
                parts[i].in_flight as int,
            ) > 0,
    decreases parts.len(),
{
    lemma_total_spare_nonneg(parts, total_limit, weights_total);
    if parts.len() > 0 {
        lemma_total_spare_nonneg(parts.skip(1), total_limit, weights_total);
        lemma_total_spare_pos_iff(parts.skip(1), total_limit, weights_total);
        let head_spare = spare_of(
            fractional_limit(total_limit, parts[0].weight as int, weights_total),
            parts[0].in_flight as int,
        );
        if total_spare(parts, total_limit, weights_total) > 0 {
            if head_spare > 0 {
                assert(0 <= 0 < parts.len() && spare_of(
                    fractional_limit(total_limit, parts[0].weight as int, weights_total),
                    parts[0].in_flight as int,
                ) > 0);
            } else {
                let j = choose|j: int|
                    0 <= j < parts.skip(1).len() && spare_of(
                        fractional_limit(
                            total_limit,
                            parts.skip(1)[j].weight as int,
                            weights_total,
                        ),
                        parts.skip(1)[j].in_flight as int,
                    ) > 0;
                assert(parts.skip(1)[j] == parts[j + 1]);
                assert(spare_of(
                    fractional_limit(total_limit, parts[j + 1].weight as int, weights_total),
                    parts[j + 1].in_flight as int,
                ) > 0);
            }
        } else {
            if exists|i: int|
                0 <= i < parts.len() && spare_of(
                    fractional_limit(total_limit, parts[i].weight as int, weights_total),
                    parts[i].in_flight as int,
                ) > 0 {
                let i = choose|i: int|
                    0 <= i < parts.len() && spare_of(
                        fractional_limit(total_limit, parts[i].weight as int, weights_total),
                        parts[i].in_flight as int,
                    ) > 0;
                if i > 0 {
                    assert(parts.skip(1)[i - 1] == parts[i]);
                }
            }
        }
    }
}

/// A partition's share never exceeds the total limit.
pub proof fn lemma_fractional_limit_le_total(total_limit: int, weight: int, weights_total: int)
    requires
        0 <= total_limit,
        1 <= weight <= weights_total,
    ensures
        1 <= fractional_limit(total_limit, weight, weights_total) || total_limit == 0,
        0 <= fractional_limit(total_limit, weight, weights_total) <= total_limit,
{
    lemma_mul_inequality(weight, weights_total, total_limit);
    vstd::arithmetic::mul::lemma_mul_is_commutative(weight, total_limit);
    vstd::arithmetic::mul::lemma_mul_is_commutative(weights_total, total_limit);
    lemma_div_is_ordered(
        total_limit * weight + weights_total - 1,
        total_limit * weights_total + weights_total - 1,
        weights_total,
    );
    lemma_div_multiples_vanish_fancy(total_limit, weights_total - 1, weights_total);
    vstd::arithmetic::mul::lemma_mul_is_commutative(total_limit, weights_total);
    if total_limit >= 1 {
        vstd::arithmetic::mul::lemma_mul_strictly_positive(total_limit, weight);
        lemma_div_is_ordered(weights_total, total_limit * weight + weights_total - 1, weights_total);
        vstd::arithmetic::div_mod::lemma_div_by_self(weights_total);
    }
    vstd::arithmetic::div_mod::lemma_div_pos_is_pos(
        total_limit * weight + weights_total - 1,
        weights_total,
    );
    vstd::arithmetic::mul::lemma_mul_nonnegative(total_limit, weight);
}

/// A limiter which can be partitioned: each partition can use some fraction
/// of the total concurrency limit, and can borrow beyond it while other
/// partitions have spare capacity.
///
/// Note that each partition's share is rounded up and is at least one when
/// the total limit is positive, so the shares may add up to more than the
/// total limit; admission is still bounded by the shared pool.
#[derive(Debug)]
pub struct PartitionedLimiter<L> {
    limiter: DefaultLimiter<L>,
    parts: Vec<Partition>,
    weights_total: u64,
}

impl<L: LimitAlgorithm> PartitionedLimiter<L> {
    /// The shared gate.
    pub closed spec fn limiter_spec(&self) -> DefaultLimiter<L> {
        self.limiter
    }

    /// The partitions' bookkeeping.
    pub closed spec fn parts_spec(&self) -> Seq<Partition> {
        self.parts@
    }

    /// The stored sum of all weights.
    pub closed spec fn weights_total_spec(&self) -> u64 {
        self.weights_total
    }

    /// Books balance: the shared gate is well-formed, every weight is
    /// positive, the stored weight total is the actual one, and the
    /// partitions' in-flight counters add up to the limiter's.
    pub open spec fn wf(&self) -> bool {
        &&& self.limiter_spec().wf()
        &&& self.parts_spec().len() >= 1
        &&& forall|i: int| 0 <= i < self.parts_spec().len() ==> #[trigger] self.parts_spec()[i]
            .weight >= 1
        &&& self.weights_total_spec() == total_weight(self.parts_spec())
        &&& total_in_flight(self.parts_spec()) == self.limiter_spec().in_flight_spec()
    }

    /// The share of the current total limit partition `i` may fill on its
    /// own: `ceil(total_limit * weight_i / total_weight)`.
    pub open spec fn partition_limit_spec(&self, i: int) -> int {
        fractional_limit(
            self.limiter_spec().limit_spec() as int,
            self.parts_spec()[i].weight as int,
            self.weights_total_spec() as int,
        )
    }

    /// Admission policy: a partition below its own share is admitted, and so
    /// is one borrowing while some partition has spare capacity.
    pub open spec fn admission_allowed(&self, i: int) -> bool {
        ||| self.parts_spec()[i].in_flight < self.partition_limit_spec(i)
        ||| total_spare(
            self.parts_spec(),
            self.limiter_spec().limit_spec() as int,
            self.weights_total_spec() as int,
        ) > 0
    }

    /// Number of partitions.
    pub fn partition_count(&self) -> (n: usize)
        ensures
            n == self.parts_spec().len(),
    {
        self.parts.len()
    }

    /// The current state of the shared limiter.
    pub fn state(&self) -> (r: LimiterState)
        ensures
            r.limit == self.limiter_spec().limit_spec(),
            r.available == self.limiter_spec().available_spec(),
            r.in_flight == self.limiter_spec().in_flight_spec(),
    {
        self.limiter.state()
    }

    /// The current shared concurrency limit.
    pub fn limit(&self) -> (r: usize)
        ensures
            r == self.limiter_spec().limit_spec(),
    {
        self.limiter.limit()
    }

    /// One partition's in-flight count.
    pub fn partition_in_flight(&self, index: usize) -> (r: usize)
        requires
            index < self.parts_spec().len(),
        ensures
            r == self.parts_spec()[index as int].in_flight,
    {
        self.parts[index].in_flight
    }

    /// One partition's current share of the limit.
    pub fn partition_limit(&self, index: usize) -> (r: usize)
        requires
            self.wf(),
            index < self.parts_spec().len(),
        ensures
            r == self.partition_limit_spec(index as int),
            r <= self.limiter_spec().limit_spec(),
    {
        let total_limit: usize = self.limiter.limit();
        let w: u64 = self.parts[index].weight;
        proof {
            lemma_total_weight_at_least(self.parts_spec(), index as int);
            lemma_total_weight_nonneg(self.parts_spec());
            lemma_fractional_limit_le_total(
                total_limit as int,
                w as int,
                self.weights_total as int,
            );
            lemma_mul_upper_bound(
                total_limit as int,
                0xFFFF_FFFF_FFFF_FFFF,
                w as int,
                0xFFFF_FFFF_FFFF_FFFF,
            );
        }
        let wide: u128 = (total_limit as u128) * (w as u128) + (self.weights_total as u128) - 1;
        let share: u128 = wide / (self.weights_total as u128);
        share as usize
    }

    /// Whether any partition currently has spare capacity to lend.
    fn has_spare(&self) -> (r: bool)
        requires
            self.wf(),
        ensures
            r <==> total_spare(
                self.parts_spec(),
                self.limiter_spec().limit_spec() as int,
                self.weights_total_spec() as int,
            ) > 0,
    {
        let ghost all = self.parts_spec();
        let ghost t = self.limiter_spec().limit_spec() as int;
        let ghost wt = self.weights_total_spec() as int;
        proof {
            lemma_total_spare_pos_iff(all, t, wt);
        }
        let n: usize = self.parts.len();
        let mut i: usize = 0;
        while i < n
            invariant
                self.wf(),
                n == self.parts_spec().len(),
                all == self.parts_spec(),
                t == self.limiter_spec().limit_spec() as int,
                wt == self.weights_total_spec() as int,
                0 <= i <= n,
                forall|j: int| 0 <= j < i ==> spare_of(
                    fractional_limit(t, #[trigger] all[j].weight as int, wt),
                    all[j].in_flight as int,
                ) <= 0,
            decreases n - i,
        {
            let share: usize = self.partition_limit(i);
            let in_flight: usize = self.parts[i].in_flight;
            let buffer: u128 = ((share as u128) + 9) / 10;
            if (share as u128) > (in_flight as u128) + buffer {
                proof {
                    assert(spare_of(
                        fractional_limit(t, all[i as int].weight as int, wt),
                        all[i as int].in_flight as int,
                    ) > 0);
                    lemma_total_spare_pos_iff(all, t, wt);
                }
                return true;
            }
            proof {
                assert(spare_of(
                    fractional_limit(t, all[i as int].weight as int, wt),
                    all[i as int].in_flight as int,
                ) <= 0);
            }
            i = i + 1;
        }
        proof {
            lemma_total_spare_pos_iff(all, t, wt);
        }
        false
    }

    /// Try to immediately acquire a concurrency [Token] for partition
    /// `index`.
    ///
    /// Admission follows `admission_allowed`; an admitted request then takes
    /// a permit from the shared pool, and both the partition's and the
    /// shared in-flight counters grow by one.
    pub fn try_acquire(&mut self, index: usize) -> (t: Option<Token>)
        requires
            old(self).wf(),
            index < old(self).parts_spec().len(),
        ensures
            final(self).wf(),
            (t is Some) <==> (old(self).admission_allowed(index as int) && old(
                self,
            ).limiter_spec().available_spec() > 0 && old(self).limiter_spec().in_flight_spec()
                < usize::MAX),
            t is Some ==> old(self).limiter_spec().gate_step(
                GateOp::TryAcquire,
                final(self).limiter_spec(),
            ) && final(self).parts_spec() == old(self).parts_spec().update(
                index as int,
                (Partition {
                    weight: old(self).parts_spec()[index as int].weight,
                    in_flight: (old(self).parts_spec()[index as int].in_flight + 1) as usize,
                }),
            ) && t.unwrap().partition_spec() == Some(index) && t.unwrap().latency_spec() == 0,
            t is None ==> *final(self) == *old(self),
    {
        let share: usize = self.partition_limit(index);
        let cur: usize = self.parts[index].in_flight;
        let w: u64 = self.parts[index].weight;
        let admitted: bool = cur < share || self.has_spare();
        if admitted {
            match self.limiter.try_acquire() {
                Some(t) => {
                    proof {
                        lemma_total_in_flight_at_least(self.parts_spec(), index as int);
                        lemma_totals_after_update(
                            self.parts_spec(),
                            index as int,
                            Partition { weight: w, in_flight: (cur + 1) as usize },
                        );
                    }
                    let slot: &mut Partition = &mut self.parts[index];
                    *slot = Partition { weight: w, in_flight: cur + 1 };
                    Some(t.for_partition(index))
                },
                None => None,
            }
        } else {
            None
        }
    }

    /// Return a token issued by [`PartitionedLimiter::try_acquire`], along
    /// with the outcome of the job.
    ///
    /// The permit returns to the shared gate exactly as in
    /// [`DefaultLimiter::release`], and the token's partition in-flight
    /// counter drops by one. Returns the current shared limit.
    pub fn release(&mut self, token: Token, outcome: Option<Outcome>) -> (r: usize)
        requires
            old(self).wf(),
            token.partition_spec() is Some,
            token.partition_spec().unwrap() < old(self).parts_spec().len(),
            old(self).parts_spec()[token.partition_spec().unwrap() as int].in_flight >= 1,
        ensures
            final(self).wf(),
            old(self).limiter_spec().gate_step(
                GateOp::Release(token.latency_spec(), outcome),
                final(self).limiter_spec(),
            ),
            final(self).parts_spec() == old(self).parts_spec().update(
                token.partition_spec().unwrap() as int,
                (Partition {
                    weight: old(self).parts_spec()[token.partition_spec().unwrap() as int].weight,
                    in_flight: (old(self).parts_spec()[token.partition_spec().unwrap() as int]
                        .in_flight - 1) as usize,
                }),
            ),
            r == final(self).limiter_spec().limit_spec(),
    {
        let index: usize = match token.partition() {
            Some(i) => i,
            None => 0,
        };
        let cur: usize = self.parts[index].in_flight;
        let w: u64 = self.parts[index].weight;
        proof {
            lemma_total_in_flight_at_least(self.parts_spec(), index as int);
            lemma_totals_after_update(
                self.parts_spec(),
                index as int,
                Partition { weight: w, in_flight: (cur - 1) as usize },
            );
        }
        let slot: &mut Partition = &mut self.parts[index];
        *slot = Partition { weight: w, in_flight: cur - 1 };
        self.limiter.release(token, outcome)
    }
}

/// Create some partitions with the given relative weights over one shared
/// limiter.
///
/// The weights are relative: weights of 2, 2 and 4 give partitions 25%, 25%
/// and 50% of the total limit, respectively. At least one weight must be
/// given, every weight must be positive, and the weights must sum to at
/// most `u64::MAX`.
pub fn create_static_partitions<L: LimitAlgorithm>(limit_algo: L, weights: Vec<u64>) -> (p:
    PartitionedLimiter<L>)
    requires
        limit_algo.wf(),
        weights@.len() >= 1,
        forall|i: int| 0 <= i < weights@.len() ==> #[trigger] weights@[i] >= 1,
        sum_weights(weights@) <= 0xFFFF_FFFF_FFFF_FFFF,
    ensures
        p.wf(),
        p.limiter_spec().algo() == limit_algo,
        p.limiter_spec().limit_spec() == limit_algo.limit_spec(),
        p.limiter_spec().available_spec() == limit_algo.limit_spec(),
        p.limiter_spec().in_flight_spec() == 0,
        p.limiter_spec().pending_discard_spec() == 0,
        p.parts_spec().len() == weights@.len(),
        forall|i: int| 0 <= i < weights@.len() ==> #[trigger] p.parts_spec()[i] == (Partition {
            weight: weights@[i],
            in_flight: 0usize,
        }),
{
    let limiter: DefaultLimiter<L> = DefaultLimiter::new(limit_algo);
    let n: usize = weights.len();
    let mut total: u64 = 0;
    let mut i: usize = n;
    while i > 0
        invariant
            n == weights@.len(),
            0 <= i <= n,
            sum_weights(weights@) <= 0xFFFF_FFFF_FFFF_FFFF,
            total == sum_weights(weights@.skip(i as int)),
        decreases i,
    {
        proof {
            lemma_sum_weights_suffix_le(weights@, i - 1);
            assert(weights@.skip(i - 1)[0] == weights@[i - 1]);
            assert(weights@.skip(i - 1).skip(1) =~= weights@.skip(i as int));
            lemma_sum_weights_nonneg(weights@.skip(i as int));
        }
        i = i - 1;
        total = total + weights[i];
    }
    proof {
        assert(weights@.skip(0) =~= weights@);
    }
    let mut parts: Vec<Partition> = Vec::new();
    let mut j: usize = 0;
    while j < n
        invariant
            n == weights@.len(),
            0 <= j <= n,
            parts@.len() == j,
            forall|k: int| 0 <= k < j ==> #[trigger] parts@[k] == (Partition {
                weight: weights@[k],
                in_flight: 0usize,
            }),
        decreases n - j,
    {
        parts.push(Partition { weight: weights[j], in_flight: 0 });
        j = j + 1;
    }
    proof {
        lemma_total_in_flight_zero(parts@);
        lemma_total_weight_pointwise(parts@, weights@);
    }
    PartitionedLimiter { limiter, parts, weights_total: total }
}

/// The first position holding the given ticket; the queue length when the
/// ticket is absent.
pub open spec fn ticket_pos(entries: Seq<(u64, usize)>, ticket: u64) -> int
    decreases entries.len(),
{
    if entries.len() == 0 {
        0
    } else if entries[0].0 == ticket {
        0
    } else {
        1 + ticket_pos(entries.skip(1), ticket)
    }
}

/// The ticket position is the end of the maximal prefix without the ticket.
pub proof fn lemma_ticket_pos_props(entries: Seq<(u64, usize)>, ticket: u64)
    ensures
        0 <= ticket_pos(entries, ticket) <= entries.len(),
        forall|j: int|
            0 <= j < ticket_pos(entries, ticket) ==> #[trigger] entries[j].0 != ticket,
        ticket_pos(entries, ticket) < entries.len() ==> entries[ticket_pos(entries, ticket)].0
            == ticket,
    decreases entries.len(),
{
    if entries.len() > 0 && entries[0].0 != ticket {
        lemma_ticket_pos_props(entries.skip(1), ticket);
        let p = ticket_pos(entries, ticket);
        assert forall|j: int| 0 <= j < p implies #[trigger] entries[j].0 != ticket by {
            if j > 0 {
                assert(entries.skip(1)[j - 1] == entries[j]);
            }
        }
        if p < entries.len() {
            assert(entries.skip(1)[p - 1] == entries[p]);
        }
    }
}

/// A first-in-first-out queue of parked acquisition attempts, each a
/// `(ticket, partition)` pair.
///
/// This carries the ordering rule for timed acquisition: a released permit
/// wakes the oldest waiter. The embedder draws one fresh ticket per parked
/// caller, keeps the wake-up handles keyed by ticket, and lets this queue
/// decide who is next; a timed-out caller leaves cleanly by its ticket.
#[derive(Debug)]
pub struct WaiterQueue {
    entries: Vec<(u64, usize)>,
}

impl WaiterQueue {
    /// The parked `(ticket, partition)` pairs, oldest first.
    pub closed spec fn entries_spec(&self) -> Seq<(u64, usize)> {
        self.entries@
    }

    pub fn new() -> (q: WaiterQueue)
        ensures
            q.entries_spec() =~= Seq::<(u64, usize)>::empty(),
    {
        WaiterQueue { entries: Vec::new() }
    }

    pub fn len(&self) -> (n: usize)
        ensures
            n == self.entries_spec().len(),
    {
        self.entries.len()
    }

    /// Park a caller at the back of the queue.
    pub fn enqueue(&mut self, ticket: u64, partition: usize)
        ensures
            final(self).entries_spec() == old(self).entries_spec().push((ticket, partition)),
    {
        self.entries.push((ticket, partition));
    }

    /// The oldest waiter leaves the queue to be woken, if there is one;
    /// everyone else keeps their order.
    pub fn pop_oldest(&mut self) -> (woken: Option<(u64, usize)>)
        ensures
            old(self).entries_spec().len() > 0 ==> woken == Some(old(self).entries_spec()[0])
                && final(self).entries_spec() == old(self).entries_spec().skip(1),
            old(self).entries_spec().len() == 0 ==> woken is None && *final(self) == *old(self),
    {
        if self.entries.len() > 0 {
            let entry: (u64, usize) = self.entries.remove(0);
            proof {
                assert(old(self).entries_spec().remove(0) =~= old(self).entries_spec().skip(1));
            }
            Some(entry)
        } else {
            None
        }
    }

    /// A timed-out caller removes its own entry — the first one bearing its
    /// ticket — and no other; a ticket that is not parked changes nothing.
    pub fn remove_ticket(&mut self, ticket: u64)
        ensures
            ({
                let p = ticket_pos(old(self).entries_spec(), ticket);
                &&& p < old(self).entries_spec().len() ==> final(self).entries_spec() == old(
                    self,
                ).entries_spec().remove(p)
                &&& p == old(self).entries_spec().len() ==> *final(self) == *old(self)
            }),
    {
        proof {
            lemma_ticket_pos_props(self.entries@, ticket);
        }
        let n: usize = self.entries.len();
        let mut i: usize = 0;
        while i < n && self.entries[i].0 != ticket
            invariant
                n == self.entries@.len(),
                0 <= i <= n,
                forall|j: int| 0 <= j < i ==> #[trigger] self.entries@[j].0 != ticket,
                i <= ticket_pos(self.entries@, ticket),
            decreases n - i,
        {
            proof {
                lemma_ticket_pos_props(self.entries@, ticket);
                if ticket_pos(self.entries@, ticket) == i {
                    assert(self.entries@[i as int].0 == ticket);
                }
            }
            i = i + 1;
        }
        proof {
            lemma_ticket_pos_props(self.entries@, ticket);
            let p = ticket_pos(self.entries@, ticket);
            if i < n {
                if p > i {
                    assert(self.entries@[i as int].0 != ticket);
                }
            }
        }
        if i < n {
            self.entries.remove(i);
        }
    }
}

} // verus!
