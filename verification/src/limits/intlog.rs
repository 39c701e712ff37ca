//! Integer base-10 logarithms: the floor logarithm, and a fixed-point
//! logarithm in thousandths that interpolates linearly between powers of ten.

use vstd::prelude::*;
use vstd::arithmetic::div_mod::{lemma_div_denominator, lemma_div_is_ordered};
use vstd::arithmetic::mul::lemma_mul_inequality;

verus! {

/// `10^k`.
pub open spec fn pow10(k: nat) -> int
    decreases k,
{
    if k == 0 {
        1
    } else {
        10 * pow10((k - 1) as nat)
    }
}

pub proof fn lemma_pow10_positive(k: nat)
    ensures
        pow10(k) >= 1,
    decreases k,
{
    if k > 0 {
        lemma_pow10_positive((k - 1) as nat);
    }
}

pub proof fn lemma_pow10_exceeds_exponent(k: nat)
    ensures
        pow10(k) > k,
    decreases k,
{
    if k > 0 {
        lemma_pow10_exceeds_exponent((k - 1) as nat);
    }
}

pub proof fn lemma_pow10_increases(a: nat, b: nat)
    requires
        a <= b,
    ensures
        pow10(a) <= pow10(b),
    decreases b,
{
    if a < b {
        lemma_pow10_positive(a);
        lemma_pow10_increases(a, (b - 1) as nat);
    }
}

/// `floor(log10 n)`; zero for `n < 10`.
pub open spec fn ilog10_spec(n: nat) -> nat
    decreases n,
{
    if n < 10 {
        0
    } else {
        (1 + ilog10_spec(n / 10)) as nat
    }
}

/// The floor logarithm brackets its argument between consecutive powers of
/// ten.
pub proof fn lemma_ilog10_bounds(n: nat)
    requires
        n >= 1,
    ensures
        pow10(ilog10_spec(n)) <= n < pow10(ilog10_spec(n) + 1),
    decreases n,
{
    if n < 10 {
    } else {
        lemma_ilog10_bounds(n / 10);
        let k: nat = ilog10_spec(n / 10);
        assert(10 * pow10(k) <= 10 * (n / 10));
        assert(10 * (n / 10) <= n);
        assert(n < 10 * (n / 10) + 10);
        assert(10 * (n / 10) + 10 <= 10 * pow10(k + 1));
    }
}

/// `1000 * log10(n)` in the fixed-point rounding this crate uses: linear
/// interpolation between consecutive powers of ten,
/// `1000 * k + (n - 10^k) * 1000 / (9 * 10^k)` where `k = floor(log10 n)`.
/// The value is exact at every power of ten and otherwise falls short of the
/// real `1000 * log10 n` (by less than 270 thousandths, worst around
/// `3.9 * 10^k`).
pub open spec fn log10_milli_spec(n: nat) -> int {
    1000 * ilog10_spec(n) + (n - pow10(ilog10_spec(n))) * 1000 / (9 * pow10(ilog10_spec(n)))
}

/// Returns `(k, p)` with `k == floor(log10 n)` and `p == 10^k`.
pub(crate) fn floor_log10(n: u64) -> (r: (u64, u64))
    requires
        n >= 1,
    ensures
        r.0 == ilog10_spec(n as nat),
        r.1 == pow10(r.0 as nat),
        r.1 <= n,
        n < 10 * (r.1 as int),
{
    let mut x: u64 = n;
    let mut k: u64 = 0;
    let mut p: u64 = 1;
    while x >= 10
        invariant
            1 <= x <= n,
            x == n as int / pow10(k as nat),
            p == pow10(k as nat),
            p <= n,
            ilog10_spec(n as nat) == k + ilog10_spec(x as nat),
        decreases x,
    {
        proof {
            lemma_pow10_positive(k as nat);
            lemma_div_denominator(n as int, pow10(k as nat), 10);
            lemma_mul_inequality(10, x as int, p as int);
            lemma_pow10_exceeds_exponent((k + 1) as nat);
            assert((x as int) * (p as int) <= n) by {
                vstd::arithmetic::div_mod::lemma_fundamental_div_mod(
                    n as int,
                    p as int,
                );
                vstd::arithmetic::mul::lemma_mul_is_commutative(x as int, p as int);
            }
        }
        x = x / 10;
        k = k + 1;
        p = p * 10;
    }
    proof {
        lemma_pow10_positive(k as nat);
        assert(n < 10 * (p as int)) by {
            vstd::arithmetic::div_mod::lemma_fundamental_div_mod(n as int, p as int);
            vstd::arithmetic::mul::lemma_mul_is_commutative(x as int, p as int);
            assert((x as int) * (p as int) <= 9 * (p as int)) by {
                lemma_mul_inequality(x as int, 9, p as int);
            }
        }
    }
    (k, p)
}

/// `1000 * log10(n)`, exactly as `log10_milli_spec` describes.
pub(crate) fn log10_milli(n: u64) -> (r: u64)
    requires
        n >= 1,
    ensures
        r == log10_milli_spec(n as nat),
        r < 20000,
        1000 * ilog10_spec(n as nat) <= r,
{
    let kp: (u64, u64) = floor_log10(n);
    let k: u64 = kp.0;
    let p: u64 = kp.1;
    let frac: u128 = (((n - p) as u128) * 1000) / ((p as u128) * 9);
    proof {
        lemma_pow10_positive(k as nat);
        assert(((n - p) as int) * 1000 < (9 * (p as int)) * 1000);
        assert(frac < 1000) by {
            lemma_div_is_ordered(
                ((n - p) as int) * 1000,
                9 * (p as int) * 1000 - 1,
                9 * (p as int),
            );
            assert((9 * (p as int) * 1000 - 1) / (9 * (p as int)) <= 999) by (nonlinear_arith)
                requires
                    p >= 1,
            ;
        }
        assert(k < 20) by {
            if k >= 20 {
                lemma_pow10_increases(20, k as nat);
                assert(pow10(20) > 0xFFFF_FFFF_FFFF_FFFF) by {
                    reveal_with_fuel(pow10, 21);
                }
            }
        }
        assert(frac as int == (n - p) * 1000 / (9 * (p as int))) by {
            vstd::arithmetic::mul::lemma_mul_is_commutative(p as int, 9);
        }
    }
    1000 * k + (frac as u64)
}

} // verus!
