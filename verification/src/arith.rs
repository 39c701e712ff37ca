//! Small arithmetic facts shared by the fixed-point computations.

use vstd::prelude::*;
use vstd::arithmetic::div_mod::{
    lemma_div_is_ordered, lemma_div_is_ordered_by_denominator, lemma_div_multiples_vanish,
};
use vstd::arithmetic::mul::lemma_mul_is_commutative;

verus! {

/// A quotient is bounded by any multiple that bounds the dividend:
/// `x <= n * m` gives `x / n <= m`.
pub proof fn lemma_div_le_bound(x: int, n: int, m: int)
    requires
        0 <= x,
        1 <= n,
        0 <= m,
        x <= n * m,
    ensures
        x / n <= m,
{
    lemma_div_is_ordered(x, n * m, n);
    lemma_mul_is_commutative(n, m);
    lemma_div_multiples_vanish(m, n);
}

/// An exponential-smoothing step never overshoots: `d * 2 / w <= d` for any
/// weight denominator `w >= 2`.
pub proof fn lemma_half_step_le(d: int, w: int)
    requires
        0 <= d,
        2 <= w,
    ensures
        d * 2 / w <= d,
{
    lemma_div_is_ordered_by_denominator(d * 2, 2, w);
    lemma_mul_is_commutative(d, 2);
    lemma_div_multiples_vanish(d, 2);
}

} // verus!
