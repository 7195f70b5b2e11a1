//! Exact statistics over nanosecond duration samples.
//!
//! All reductions are computed in integer arithmetic: the mean and the
//! population standard deviation are carried in hundredths of a nanosecond,
//! so their values are exact where a floating-point pipeline would round.

use vstd::prelude::*;
use vstd::arithmetic::div_mod::{lemma_div_is_ordered, lemma_div_denominator, lemma_div_multiples_vanish};
use vstd::arithmetic::mul::{lemma_mul_inequality, lemma_mul_upper_bound};

verus! {

/// Largest accepted duration sample, in nanoseconds (1000 seconds). A
/// single dispatch is calibrated to a few seconds; this cap, with the cap
/// on the number of samples, keeps every exact intermediate product within
/// 128 bits.
pub const MAX_SAMPLE_NS: u64 = 1_000_000_000_000;

/// Sum of the samples.
pub open spec fn sum_of(s: Seq<u64>) -> int
    decreases s.len(),
{
    if s.len() == 0 {
        0
    } else {
        sum_of(s.drop_last()) + s.last()
    }
}

/// Sum of the squared samples.
pub open spec fn sum_sq_of(s: Seq<u64>) -> int
    decreases s.len(),
{
    if s.len() == 0 {
        0
    } else {
        sum_sq_of(s.drop_last()) + s.last() * s.last()
    }
}

/// Smallest sample (meaningful only for non-empty sequences).
pub open spec fn min_of(s: Seq<u64>) -> u64
    decreases s.len(),
{
    if s.len() <= 1 {
        s[0]
    } else if s.last() < min_of(s.drop_last()) {
        s.last()
    } else {
        min_of(s.drop_last())
    }
}

/// Largest sample (meaningful only for non-empty sequences).
pub open spec fn max_of(s: Seq<u64>) -> u64
    decreases s.len(),
{
    if s.len() <= 1 {
        s[0]
    } else if s.last() > max_of(s.drop_last()) {
        s.last()
    } else {
        max_of(s.drop_last())
    }
}

/// The arithmetic mean in hundredths of a nanosecond, rounded to nearest
/// (halves up): `round(100 * sum / n)`.
pub open spec fn mean_x100_of(s: Seq<u64>) -> int {
    (200 * sum_of(s) + s.len()) / (2 * s.len() as int)
}

/// `n^2` times the population variance: `n * sum(t^2) - sum(t)^2`. This is
/// non-negative (`lemma_sum_sq_lower_bound`), so the population standard
/// deviation is `sqrt(varnum) / n`.
pub open spec fn varnum_of(s: Seq<u64>) -> int {
    s.len() * sum_sq_of(s) - sum_of(s) * sum_of(s)
}

/// Every sample is bounded by `bound`.
pub open spec fn samples_bounded(s: Seq<u64>, bound: u64) -> bool {
    forall|i: int| 0 <= i < s.len() ==> s[i] <= bound
}

/// Every sample equals `d`.
pub open spec fn samples_constant(s: Seq<u64>, d: u64) -> bool {
    forall|i: int| 0 <= i < s.len() ==> s[i] == d
}

/// The extrema are members and bound every sample.
pub proof fn lemma_extrema(s: Seq<u64>)
    requires
        s.len() >= 1,
    ensures
        s.contains(min_of(s)),
        s.contains(max_of(s)),
        forall|i: int| 0 <= i < s.len() ==> min_of(s) <= #[trigger] s[i] <= max_of(s),
    decreases s.len(),
{
    if s.len() == 1 {
        assert(s[0] == min_of(s));
        assert(s[0] == max_of(s));
    } else {
        let d = s.drop_last();
        lemma_extrema(d);
        assert(forall|i: int| 0 <= i < d.len() ==> d[i] == s[i]);
        if min_of(s) == s.last() {
            assert(s[s.len() - 1] == min_of(s));
        } else {
            let j = choose|j: int| 0 <= j < d.len() && d[j] == min_of(d);
            assert(s[j] == min_of(s));
        }
        if max_of(s) == s.last() {
            assert(s[s.len() - 1] == max_of(s));
        } else {
            let j = choose|j: int| 0 <= j < d.len() && d[j] == max_of(d);
            assert(s[j] == max_of(s));
        }
    }
}

/// The sum lies between `n * min` and `n * max`.
pub proof fn lemma_sum_bounds(s: Seq<u64>)
    requires
        s.len() >= 1,
    ensures
        s.len() * min_of(s) <= sum_of(s) <= s.len() * max_of(s),
    decreases s.len(),
{
    if s.len() == 1 {
        assert(sum_of(s) == sum_of(s.drop_last()) + s.last());
        assert(sum_of(s.drop_last()) == 0);
        assert(s.last() == s[0]);
    } else {
        let d = s.drop_last();
        lemma_sum_bounds(d);
        lemma_extrema(s);
        lemma_extrema(d);
        assert(forall|i: int| 0 <= i < d.len() ==> d[i] == s[i]);
        // the extrema of the prefix are samples of s, so they stay in range
        assert(min_of(s) <= min_of(d) && max_of(d) <= max_of(s)) by {
            let jm = choose|j: int| 0 <= j < d.len() && d[j] == min_of(d);
            let jx = choose|j: int| 0 <= j < d.len() && d[j] == max_of(d);
            assert(s[jm] == min_of(d));
            assert(s[jx] == max_of(d));
        }
        lemma_mul_inequality(min_of(s) as int, min_of(d) as int, d.len() as int);
        lemma_mul_inequality(max_of(d) as int, max_of(s) as int, d.len() as int);
        assert(s.len() * min_of(s) == d.len() * min_of(s) + min_of(s)) by (nonlinear_arith)
            requires
                s.len() == d.len() + 1,
        ;
        assert(s.len() * max_of(s) == d.len() * max_of(s) + max_of(s)) by (nonlinear_arith)
            requires
                s.len() == d.len() + 1,
        ;
    }
}

/// The sum of bounded samples is at most `n * bound` (and non-negative).
pub proof fn lemma_sum_range(s: Seq<u64>, bound: u64)
    requires
        samples_bounded(s, bound),
    ensures
        0 <= sum_of(s) <= s.len() * bound,
    decreases s.len(),
{
    if s.len() == 0 {
    } else {
        let d = s.drop_last();
        assert(forall|i: int| 0 <= i < d.len() ==> d[i] == s[i]);
        lemma_sum_range(d, bound);
        assert(s.last() <= bound);
        assert(s.len() * bound == d.len() * bound + bound) by (nonlinear_arith)
            requires
                s.len() == d.len() + 1,
        ;
    }
}

/// The sum of squares of bounded samples is at most `n * bound^2`.
pub proof fn lemma_sum_sq_range(s: Seq<u64>, bound: u64)
    requires
        samples_bounded(s, bound),
    ensures
        0 <= sum_sq_of(s) <= s.len() * (bound * bound),
    decreases s.len(),
{
    if s.len() == 0 {
    } else {
        let d = s.drop_last();
        assert(forall|i: int| 0 <= i < d.len() ==> d[i] == s[i]);
        lemma_sum_sq_range(d, bound);
        assert(s.last() <= bound);
        lemma_mul_upper_bound(s.last() as int, bound as int, s.last() as int, bound as int);
        assert(s.len() * (bound * bound) == d.len() * (bound * bound) + bound * bound)
            by (nonlinear_arith)
            requires
                s.len() == d.len() + 1,
        ;
    }
}

/// Cauchy-Schwarz for the variance numerator: `sum(t)^2 <= n * sum(t^2)`,
/// so `varnum_of` is never negative.
pub proof fn lemma_sum_sq_lower_bound(s: Seq<u64>)
    ensures
        sum_of(s) * sum_of(s) <= s.len() * sum_sq_of(s),
        varnum_of(s) >= 0,
    decreases s.len(),
{
    if s.len() == 0 {
    } else {
        let d = s.drop_last();
        lemma_sum_sq_lower_bound(d);
        lemma_sum_range(d, u64::MAX);
        let sm = sum_of(d);
        let q = sum_sq_of(d);
        let k = d.len() as int;
        let t = s.last() as int;
        lemma_sum_sq_range(d, u64::MAX);
        if k == 0 {
            assert(sum_of(s) == t && sum_sq_of(s) == t * t && s.len() == 1);
        } else {
            // k * (q + k*t*t - 2*sm*t) >= (sm - k*t)^2 >= 0, and k > 0,
            // so 2*sm*t <= q + k*t*t.
            assert(2 * sm * t <= q + k * (t * t)) by (nonlinear_arith)
                requires
                    sm * sm <= k * q,
                    k >= 1,
                    t >= 0,
                    sm >= 0,
                    q >= 0,
            ;
            assert((sm + t) * (sm + t) <= (k + 1) * (q + t * t)) by (nonlinear_arith)
                requires
                    sm * sm <= k * q,
                    2 * sm * t <= q + k * (t * t),
            ;
            assert(sum_of(s) == sm + t);
            assert(sum_sq_of(s) == q + t * t);
            assert(s.len() == k + 1);
        }
    }
}

/// The rounded mean lies between `100 * min` and `100 * max`.
pub proof fn lemma_mean_bounds(s: Seq<u64>)
    requires
        s.len() >= 1,
    ensures
        100 * min_of(s) <= mean_x100_of(s) <= 100 * max_of(s),
{
    let n = s.len() as int;
    let sm = sum_of(s);
    lemma_sum_bounds(s);
    let lo = 200 * min_of(s) + 1;
    let hi = 200 * max_of(s) + 1;
    assert(n * lo <= 200 * sm + n && 200 * sm + n <= n * hi) by (nonlinear_arith)
        requires
            n * min_of(s) <= sm <= n * max_of(s),
            lo == 200 * min_of(s) + 1,
            hi == 200 * max_of(s) + 1,
            n >= 1,
    ;
    lemma_div_is_ordered(n * lo, 200 * sm + n, 2 * n);
    lemma_div_is_ordered(200 * sm + n, n * hi, 2 * n);
    lemma_quot_cancel(lo, n);
    lemma_quot_cancel(hi, n);
    assert(lo / 2 == 100 * min_of(s));
    assert(hi / 2 == 100 * max_of(s));
}

/// `(n * k) / (2 * n) == k / 2` for positive `n` and non-negative `k`.
proof fn lemma_quot_cancel(k: int, n: int)
    requires
        k >= 0,
        n >= 1,
    ensures
        (n * k) / (2 * n) == k / 2,
{
    lemma_div_denominator(n * k, n, 2);
    assert(n * k >= 0) by (nonlinear_arith)
        requires
            k >= 0,
            n >= 1,
    ;
    lemma_div_multiples_vanish(k, n);
    assert((n * k) / n == k);
    assert(n * 2 == 2 * n);
}

/// For a constant sample sequence of value `d`: the extrema are `d`, the
/// mean is exactly `100 * d`, and the variance numerator is zero.
pub proof fn lemma_constant_samples(s: Seq<u64>, d: u64)
    requires
        s.len() >= 1,
        samples_constant(s, d),
    ensures
        min_of(s) == d,
        max_of(s) == d,
        mean_x100_of(s) == 100 * d,
        varnum_of(s) == 0,
    decreases s.len(),
{
    lemma_constant_sum(s, d);
    let n = s.len() as int;
    assert(mean_x100_of(s) == (200 * (n * d) + n) / (2 * n));
    assert(200 * (n * d) + n == n * (200 * d + 1)) by (nonlinear_arith);
    lemma_quot_cancel(200 * d + 1, n);
    assert(mean_x100_of(s) == (200 * d + 1) / 2);
    assert(n * (n * (d * d)) - (n * d) * (n * d) == 0) by (nonlinear_arith);
    lemma_extrema(s);
    let jm = choose|j: int| 0 <= j < s.len() && s[j] == min_of(s);
    let jx = choose|j: int| 0 <= j < s.len() && s[j] == max_of(s);
    assert(s[jm] == d && s[jx] == d);
}

/// Sum and sum of squares of a constant sequence.
proof fn lemma_constant_sum(s: Seq<u64>, d: u64)
    requires
        samples_constant(s, d),
    ensures
        sum_of(s) == s.len() * d,
        sum_sq_of(s) == s.len() * (d * d),
    decreases s.len(),
{
    if s.len() == 0 {
    } else {
        let p = s.drop_last();
        assert(forall|i: int| 0 <= i < p.len() ==> p[i] == s[i]);
        lemma_constant_sum(p, d);
        assert(s.last() == d);
        assert(p.len() * d + d == s.len() * d) by (nonlinear_arith)
            requires
                s.len() == p.len() + 1,
        ;
        assert(p.len() * (d * d) + d * d == s.len() * (d * d)) by (nonlinear_arith)
            requires
                s.len() == p.len() + 1,
        ;
    }
}

/// Integer square root, rounded down: the unique `r` with
/// `r^2 <= x < (r+1)^2`.
pub fn isqrt_u128(x: u128) -> (r: u128)
    ensures
        r * r <= x,
        x < (r + 1) * (r + 1),
        r < 0x1_0000_0000_0000_0000u128,
{
    if x == 0 {
        return 0;
    }
    let mut lo: u128 = 0;
    let mut hi: u128 = 0x1_0000_0000_0000_0000u128;
    // binary search on the floor square root: lo^2 <= x < hi^2
    while lo + 1 < hi
        invariant
            lo < hi,
            hi <= 0x1_0000_0000_0000_0000u128,
            lo * lo <= x,
            x < hi * hi,
        decreases hi - lo,
    {
        let mid: u128 = lo + (hi - lo) / 2;
        proof {
            assert(lo < mid < hi);
            assert(mid * mid < 0x1_0000_0000_0000_0000u128 * 0x1_0000_0000_0000_0000u128)
                by (nonlinear_arith)
                requires
                    mid < 0x1_0000_0000_0000_0000u128,
            ;
        }
        if mid * mid <= x {
            lo = mid;
        } else {
            hi = mid;
        }
    }
    proof {
        assert(lo + 1 == hi);
        assert(lo < 0x1_0000_0000_0000_0000u128);
    }
    lo
}

} // verus!
