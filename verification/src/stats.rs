//! The statistics engine: pure, total functions over a batch of latency
//! samples (milliseconds).  Every function is defined for every input —
//! empty and single-element batches yield 0 rather than dividing by zero.

use vstd::prelude::*;

verus! {

use vstd::arithmetic::div_mod::lemma_div_is_ordered;
use vstd::arithmetic::div_mod::lemma_div_multiples_vanish;
use vstd::arithmetic::div_mod::lemma_div_multiples_vanish_fancy;
use vstd::arithmetic::div_mod::lemma_div_pos_is_pos;
use vstd::relations::sorted_by;
use vstd::relations::total_ordering;
use vstd::seq_lib::lemma_multiset_commutative;
use vstd::seq_lib::lemma_sorted_unique;

/// Sum of a batch of latencies.
pub open spec fn sum_of(l: Seq<u32>) -> int
    decreases l.len(),
{
    if l.len() == 0 {
        0
    } else {
        sum_of(l.drop_last()) + l.last()
    }
}

/// The arithmetic mean used throughout the engine: the floor of `sum / len`,
/// and 0 for an empty batch.
pub open spec fn mean_of(l: Seq<u32>) -> int {
    if l.len() == 0 {
        0
    } else {
        sum_of(l) / l.len() as int
    }
}

pub proof fn lemma_sum_bounds(l: Seq<u32>)
    ensures
        0 <= sum_of(l) <= l.len() * (u32::MAX as int),
    decreases l.len(),
{
    if l.len() > 0 {
        lemma_sum_bounds(l.drop_last());
        assert((l.len() - 1) * (u32::MAX as int) + u32::MAX as int == l.len() * (
        u32::MAX as int)) by (nonlinear_arith);
    }
}

/// The mean of a batch never exceeds `u32::MAX`, so it can be returned
/// as a latency itself.
pub proof fn lemma_mean_fits(l: Seq<u32>)
    ensures
        0 <= mean_of(l) <= u32::MAX,
{
    if l.len() > 0 {
        lemma_sum_bounds(l);
        lemma_div_is_ordered(sum_of(l), l.len() * (u32::MAX as int), l.len() as int);
        lemma_div_multiples_vanish(u32::MAX as int, l.len() as int);
        assert(l.len() * (u32::MAX as int) == (u32::MAX as int) * l.len() as int);
    }
}

/// Arithmetic mean of a batch of latencies; 0 for an empty batch.
pub fn average(latencies: &Vec<u32>) -> (r: u32)
    ensures
        r == mean_of(latencies@),
{
    if latencies.len() == 0 {
        return 0;
    }
    let ghost full: Seq<u32> = latencies@;
    let mut sum: u128 = 0;
    let mut i: usize = 0;
    while i < latencies.len()
        invariant
            i <= latencies.len(),
            latencies@ == full,
            sum == sum_of(full.take(i as int)),
        decreases latencies.len() - i,
    {
        proof {
            lemma_sum_bounds(full.take(i as int));
            assert(full.take(i as int).len() * (u32::MAX as int) <= full.len() * (
            u32::MAX as int)) by (nonlinear_arith)
                requires
                    full.take(i as int).len() <= full.len(),
            ;
            assert(full.len() * (u32::MAX as int) < 0x10000000000000000000000000000i128)
                by (nonlinear_arith)
                requires
                    full.len() <= usize::MAX,
            ;
            assert(full.take(i + 1).drop_last() =~= full.take(i as int));
        }
        sum = sum + latencies[i] as u128;
        i = i + 1;
    }
    proof {
        assert(full.take(full.len() as int) =~= full);
        lemma_mean_fits(full);
    }
    (sum / latencies.len() as u128) as u32
}

/// `r` is the floor of the square root of `v`: characterised by
/// `r * r <= v < (r + 1) * (r + 1)`, which determines `r` uniquely.
pub fn isqrt(v: u64) -> (r: u32)
    ensures
        r * r <= v,
        v < (r + 1) * (r + 1),
{
    let mut lo: u64 = 0;
    let mut hi: u64 = 0x1_0000_0000;
    proof {
        assert((0x1_0000_0000u64 as int) * (0x1_0000_0000u64 as int) > u64::MAX as int)
            by (nonlinear_arith);
    }
    while lo + 1 < hi
        invariant
            lo < hi <= 0x1_0000_0000u64,
            lo * lo <= v,
            v < hi * hi,
        decreases hi - lo,
    {
        let mid: u64 = lo + (hi - lo) / 2;
        proof {
            assert((mid as int) * (mid as int) <= (0x1_0000_0000 as int) * (
            0x1_0000_0000 as int)) by (nonlinear_arith)
                requires
                    0 <= mid <= 0x1_0000_0000u64,
            ;
        }
        if (mid as u128) * (mid as u128) <= v as u128 {
            lo = mid;
        } else {
            hi = mid;
        }
    }
    lo as u32
}

/// The order latencies are sorted in before taking percentiles.
pub open spec fn latency_leq() -> spec_fn(u32, u32) -> bool {
    |a: u32, b: u32| a <= b
}

/// The ascending-sorted rearrangement of a batch of latencies.
pub open spec fn sorted_latencies(l: Seq<u32>) -> Seq<u32> {
    l.sort_by(latency_leq())
}

pub proof fn lemma_latency_leq_total_ordering()
    ensures
        total_ordering(latency_leq()),
{
}

pub proof fn lemma_sorted_latencies_ensures(l: Seq<u32>)
    ensures
        sorted_latencies(l).len() == l.len(),
        sorted_by(sorted_latencies(l), latency_leq()),
        sorted_latencies(l).to_multiset() == l.to_multiset(),
{
    lemma_latency_leq_total_ordering();
    l.lemma_sort_by_ensures(latency_leq());
    broadcast use vstd::seq_lib::group_to_multiset_ensures;

    assert(sorted_latencies(l).to_multiset().len() == l.to_multiset().len());
}

/// Returns an ascending-sorted copy of the batch (insertion sort).
pub fn sorted_copy(latencies: &Vec<u32>) -> (r: Vec<u32>)
    ensures
        r@ == sorted_latencies(latencies@),
{
    let ghost full: Seq<u32> = latencies@;
    let mut r: Vec<u32> = Vec::new();
    let mut i: usize = 0;
    proof {
        broadcast use vstd::seq_lib::group_to_multiset_ensures;

        assert(full.take(0) =~= Seq::<u32>::empty());
        assert(r@.to_multiset() =~= full.take(0).to_multiset());
    }
    while i < latencies.len()
        invariant
            i <= latencies.len(),
            latencies@ == full,
            sorted_by(r@, latency_leq()),
            r@.to_multiset() == full.take(i as int).to_multiset(),
        decreases latencies.len() - i,
    {
        let x = latencies[i];
        let mut j: usize = 0;
        while j < r.len() && r[j] <= x
            invariant
                j <= r@.len(),
                forall|k: int| 0 <= k < j ==> r@[k] <= x,
            decreases r@.len() - j,
        {
            j = j + 1;
        }
        let ghost r_before: Seq<u32> = r@;
        r.insert(j, x);
        proof {
            broadcast use vstd::seq_lib::group_to_multiset_ensures;

            assert(sorted_by(r@, latency_leq())) by {
                r_before.insert_ensures(j as int, x);
                assert forall|a: int, b: int| 0 <= a < b < r@.len() implies latency_leq()(
                    r@[a],
                    r@[b],
                ) by {
                    if b < j {
                        assert(r@[a] == r_before[a] && r@[b] == r_before[b]);
                    } else if a > j {
                        assert(r@[a] == r_before[a - 1] && r@[b] == r_before[b - 1]);
                    } else if a < j && b == j {
                        assert(r@[a] == r_before[a] && r@[b] == x);
                    } else if a == j {
                        // the scan stopped at j, so x < r_before[j], and
                        // everything from j on is at least r_before[j]
                        assert(r@[b] == r_before[b - 1]);
                        assert(!(r_before[j as int] <= x));
                        assert(latency_leq()(r_before[j as int], r_before[b - 1]) || j == b - 1);
                    } else {
                        // a < j < b, so a < b - 1 and both sides sit in r_before
                        assert(r@[a] == r_before[a] && r@[b] == r_before[b - 1]);
                        assert(latency_leq()(r_before[a], r_before[b - 1]));
                    }
                }
            }
            assert(r@.to_multiset() =~= full.take(i + 1).to_multiset()) by {
                lemma_insert_to_multiset(r_before, j as int, x);
                assert(full.take(i + 1).drop_last() =~= full.take(i as int));
                assert(full.take(i + 1) == full.take(i as int).push(full[i as int]));
            }
        }
        i = i + 1;
    }
    proof {
        assert(full.take(full.len() as int) =~= full);
        lemma_sorted_latencies_ensures(full);
        lemma_latency_leq_total_ordering();
        lemma_sorted_unique(r@, sorted_latencies(full), latency_leq());
    }
    r
}

/// Inserting an element anywhere in a sequence adds exactly that element
/// to the sequence's multiset.
proof fn lemma_insert_to_multiset(s: Seq<u32>, j: int, x: u32)
    requires
        0 <= j <= s.len(),
    ensures
        s.insert(j, x).to_multiset() =~= s.to_multiset().insert(x),
{
    broadcast use vstd::seq_lib::group_to_multiset_ensures;
    broadcast use vstd::multiset::group_multiset_axioms;

    let prefix = s.subrange(0, j);
    let suffix = s.subrange(j, s.len() as int);
    assert(s.insert(j, x) == prefix.push(x) + suffix);
    lemma_multiset_commutative(prefix.push(x), suffix);
    lemma_multiset_commutative(prefix, suffix);
    assert(prefix + suffix =~= s);
    assert(prefix.push(x).to_multiset() =~= prefix.to_multiset().insert(x));
    assert(prefix.to_multiset().insert(x).add(suffix.to_multiset()) =~= prefix.to_multiset().add(
        suffix.to_multiset(),
    ).insert(x));
}

/// The index used by the nearest-rank percentile method:
/// `round(p/100 * (n-1))`, with halves rounding up.
pub open spec fn percentile_index(p: int, n: int) -> int
    recommends
        n >= 1,
        0 <= p <= 100,
{
    (p * (n - 1) + 50) / 100
}

/// The p-th percentile of a batch of latencies by the nearest-rank method;
/// 0 for an empty batch.
pub open spec fn percentile_of(l: Seq<u32>, p: int) -> u32
    recommends
        0 <= p <= 100,
{
    if l.len() == 0 {
        0u32
    } else {
        sorted_latencies(l)[percentile_index(p, l.len() as int)]
    }
}

pub proof fn lemma_percentile_index_in_range(p: int, n: int)
    requires
        n >= 1,
        0 <= p <= 100,
    ensures
        0 <= percentile_index(p, n) < n,
        p <= 0 ==> percentile_index(p, n) == 0,
{
    let num = p * (n - 1) + 50;
    assert(0 <= p * (n - 1) <= 100 * (n - 1)) by (nonlinear_arith)
        requires
            0 <= p <= 100,
            n >= 1,
    ;
    lemma_div_pos_is_pos(num, 100);
    lemma_div_is_ordered(num, 100 * (n - 1) + 50, 100);
    lemma_div_multiples_vanish_fancy(n - 1, 50, 100);
    assert(100 * (n - 1) + 50 == (n - 1) * 100 + 50);
    if p <= 0 {
        assert(num == 50);
    }
}

/// Nearest-rank percentiles are monotone in `p`: a higher percentile of the
/// same batch is never smaller.
pub proof fn lemma_percentile_monotone(l: Seq<u32>, p1: int, p2: int)
    requires
        l.len() > 0,
        0 <= p1 <= p2 <= 100,
    ensures
        percentile_of(l, p1) <= percentile_of(l, p2),
{
    let n = l.len() as int;
    let i1 = percentile_index(p1, n);
    let i2 = percentile_index(p2, n);
    lemma_percentile_index_in_range(p1, n);
    lemma_percentile_index_in_range(p2, n);
    assert(p1 * (n - 1) <= p2 * (n - 1)) by (nonlinear_arith)
        requires
            0 <= p1 <= p2,
            n >= 1,
    ;
    lemma_div_is_ordered(p1 * (n - 1) + 50, p2 * (n - 1) + 50, 100);
    lemma_sorted_latencies_ensures(l);
    if i1 < i2 {
        assert(latency_leq()(sorted_latencies(l)[i1], sorted_latencies(l)[i2]));
    }
}

/// The p-th percentile latency by the nearest-rank method; 0 for an empty
/// batch.  Used with p = 50, 95 and 99 for the summary's p50/p95/p99.
pub fn percentile(latencies: &Vec<u32>, p: usize) -> (r: u32)
    requires
        p <= 100,
    ensures
        r == percentile_of(latencies@, p as int),
{
    if latencies.len() == 0 {
        return 0;
    }
    let sorted = sorted_copy(latencies);
    proof {
        assert((p as int) * ((latencies@.len() - 1) as int) <= 100 * ((latencies@.len()
            - 1) as int)) by (nonlinear_arith)
            requires
                0 <= p <= 100,
                latencies@.len() >= 1,
        ;
    }
    let idx_wide: u128 = ((p as u128) * ((latencies.len() - 1) as u128) + 50) / 100;
    proof {
        lemma_percentile_index_in_range(p as int, latencies@.len() as int);
        lemma_sorted_latencies_ensures(latencies@);
    }
    let idx: usize = idx_wide as usize;
    sorted[idx]
}

/// The floor square root is unique: any two values satisfying the
/// `isqrt` characterisation for the same input are equal.
pub proof fn lemma_isqrt_unique(v: int, r1: int, r2: int)
    requires
        0 <= r1,
        0 <= r2,
        r1 * r1 <= v < (r1 + 1) * (r1 + 1),
        r2 * r2 <= v < (r2 + 1) * (r2 + 1),
    ensures
        r1 == r2,
{
    assert(r1 == r2) by (nonlinear_arith)
        requires
            0 <= r1,
            0 <= r2,
            r1 * r1 <= v < (r1 + 1) * (r1 + 1),
            r2 * r2 <= v < (r2 + 1) * (r2 + 1),
    ;
}

/// Sum of squared deviations of a batch from a given centre `m`.
pub open spec fn sum_sq_dev(l: Seq<u32>, m: int) -> int
    decreases l.len(),
{
    if l.len() == 0 {
        0
    } else {
        sum_sq_dev(l.drop_last(), m) + (l.last() - m) * (l.last() - m)
    }
}

/// The population variance used by the engine: squared deviations from the
/// (floor) mean, divided by the batch size; 0 for an empty batch.
pub open spec fn variance_of(l: Seq<u32>) -> int {
    if l.len() == 0 {
        0
    } else {
        sum_sq_dev(l, mean_of(l)) / l.len() as int
    }
}

/// What it means for `r` to be the population standard deviation of the
/// batch: the floor square root of the variance.  A batch of fewer than two
/// samples has variance 0 and hence standard deviation 0.
pub open spec fn is_std_dev_of(l: Seq<u32>, r: int) -> bool {
    r * r <= variance_of(l) < (r + 1) * (r + 1)
}

pub proof fn lemma_sum_sq_dev_bounds(l: Seq<u32>, m: int)
    requires
        0 <= m <= u32::MAX,
    ensures
        0 <= sum_sq_dev(l, m) <= l.len() * ((u32::MAX as int) * (u32::MAX as int)),
    decreases l.len(),
{
    if l.len() > 0 {
        lemma_sum_sq_dev_bounds(l.drop_last(), m);
        let d = l.last() - m;
        assert(0 <= d * d <= (u32::MAX as int) * (u32::MAX as int)) by (nonlinear_arith)
            requires
                -(u32::MAX as int) <= d <= u32::MAX as int,
        ;
        assert((l.len() - 1) * ((u32::MAX as int) * (u32::MAX as int)) + (u32::MAX as int) * (
        u32::MAX as int) == l.len() * ((u32::MAX as int) * (u32::MAX as int)))
            by (nonlinear_arith);
    }
}

/// The variance never exceeds the largest possible squared deviation, so it
/// fits in a `u64`.
pub proof fn lemma_variance_fits(l: Seq<u32>)
    ensures
        0 <= variance_of(l) <= (u32::MAX as int) * (u32::MAX as int),
        variance_of(l) <= u64::MAX,
{
    if l.len() > 0 {
        lemma_mean_fits(l);
        lemma_sum_sq_dev_bounds(l, mean_of(l));
        let cap = (u32::MAX as int) * (u32::MAX as int);
        lemma_div_pos_is_pos(sum_sq_dev(l, mean_of(l)), l.len() as int);
        lemma_div_is_ordered(sum_sq_dev(l, mean_of(l)), l.len() * cap, l.len() as int);
        lemma_div_multiples_vanish(cap, l.len() as int);
        assert(l.len() * cap == cap * l.len() as int);
        assert((u32::MAX as int) * (u32::MAX as int) <= u64::MAX) by (nonlinear_arith);
    }
}

/// Population standard deviation of a batch of latencies, rounded down to a
/// whole millisecond; 0 for fewer than two samples.
pub fn std_dev(latencies: &Vec<u32>) -> (r: u32)
    ensures
        is_std_dev_of(latencies@, r as int),
{
    if latencies.len() == 0 {
        return 0;
    }
    let ghost full: Seq<u32> = latencies@;
    let m = average(latencies);
    let ghost cap = (u32::MAX as int) * (u32::MAX as int);
    let mut ssd: u128 = 0;
    let mut i: usize = 0;
    while i < latencies.len()
        invariant
            i <= latencies.len(),
            latencies@ == full,
            m == mean_of(full),
            cap == (u32::MAX as int) * (u32::MAX as int),
            ssd == sum_sq_dev(full.take(i as int), m as int),
        decreases latencies.len() - i,
    {
        let x = latencies[i];
        let d: u64 = if x >= m {
            (x - m) as u64
        } else {
            (m - x) as u64
        };
        proof {
            lemma_sum_sq_dev_bounds(full.take(i as int), m as int);
            assert(full.take(i as int).len() * cap <= full.len() * cap) by (nonlinear_arith)
                requires
                    0 <= cap,
                    full.take(i as int).len() <= full.len(),
            ;
            assert(full.len() * cap + cap < u128::MAX) by (nonlinear_arith)
                requires
                    cap == (u32::MAX as int) * (u32::MAX as int),
                    full.len() <= usize::MAX,
            ;
            assert((d as int) * (d as int) == (full[i as int] - m) * (full[i as int] - m)
                && (d as int) * (d as int) <= cap) by (nonlinear_arith)
                requires
                    0 <= full[i as int] <= u32::MAX,
                    0 <= m <= u32::MAX,
                    cap == (u32::MAX as int) * (u32::MAX as int),
                    d == full[i as int] - m || d == m - full[i as int],
            ;
            assert(full.take(i + 1).drop_last() =~= full.take(i as int));
        }
        ssd = ssd + (d as u128) * (d as u128);
        i = i + 1;
    }
    proof {
        assert(full.take(full.len() as int) =~= full);
        lemma_variance_fits(full);
        lemma_sum_sq_dev_bounds(full, m as int);
    }
    let var: u64 = (ssd / (latencies.len() as u128)) as u64;
    isqrt(var)
}

/// Boundaries of the fixed response-time buckets, in milliseconds.  They are
/// reporting conventions, not service-level targets; adjust them here if the
/// report should slice latencies differently.
pub const FAST_BUCKET_MS: u32 = 800;

pub const MEDIUM_BUCKET_MS: u32 = 1200;

pub const SLOW_BUCKET_MS: u32 = 2000;

/// Counts of latencies falling in `lo <= x < hi`.
pub open spec fn count_in_band(l: Seq<u32>, lo: int, hi: int) -> int
    decreases l.len(),
{
    if l.len() == 0 {
        0
    } else {
        count_in_band(l.drop_last(), lo, hi) + if lo <= l.last() < hi {
            1int
        } else {
            0int
        }
    }
}

/// The four fixed response-time buckets of the final report.
#[derive(Clone, Copy, Debug, PartialEq, Eq, Structural)]
pub struct LatencyHistogram {
    /// Requests that finished in under 800 ms.
    pub under_800_ms: usize,
    /// Requests that took at least 800 ms but under 1.2 s.
    pub under_1200_ms: usize,
    /// Requests that took at least 1.2 s but under 2 s.
    pub under_2000_ms: usize,
    /// Requests that took 2 s or longer.
    pub over_2000_ms: usize,
}

impl LatencyHistogram {
    /// The histogram that `histogram_ranges` derives from a batch: one
    /// bucket per band, and — since every latency falls in exactly one
    /// band — bucket counts that sum to the batch size.
    pub open spec fn matches(self, l: Seq<u32>) -> bool {
        &&& self.under_800_ms == count_in_band(l, 0, FAST_BUCKET_MS as int)
        &&& self.under_1200_ms == count_in_band(l, FAST_BUCKET_MS as int, MEDIUM_BUCKET_MS as int)
        &&& self.under_2000_ms == count_in_band(l, MEDIUM_BUCKET_MS as int, SLOW_BUCKET_MS as int)
        &&& self.over_2000_ms == count_in_band(l, SLOW_BUCKET_MS as int, 0x1_0000_0000)
        &&& self.under_800_ms + self.under_1200_ms + self.under_2000_ms + self.over_2000_ms
            == l.len()
    }
}

/// Buckets a batch of latencies into the four fixed response-time ranges.
/// The bucket counts always sum to the number of samples given.
pub fn histogram_ranges(latencies: &Vec<u32>) -> (r: LatencyHistogram)
    ensures
        r.matches(latencies@),
{
    let ghost full: Seq<u32> = latencies@;
    let mut r = LatencyHistogram {
        under_800_ms: 0,
        under_1200_ms: 0,
        under_2000_ms: 0,
        over_2000_ms: 0,
    };
    let mut i: usize = 0;
    while i < latencies.len()
        invariant
            i <= latencies.len(),
            latencies@ == full,
            r.under_800_ms == count_in_band(full.take(i as int), 0, FAST_BUCKET_MS as int),
            r.under_1200_ms == count_in_band(
                full.take(i as int),
                FAST_BUCKET_MS as int,
                MEDIUM_BUCKET_MS as int,
            ),
            r.under_2000_ms == count_in_band(
                full.take(i as int),
                MEDIUM_BUCKET_MS as int,
                SLOW_BUCKET_MS as int,
            ),
            r.over_2000_ms == count_in_band(
                full.take(i as int),
                SLOW_BUCKET_MS as int,
                0x1_0000_0000,
            ),
            r.under_800_ms + r.under_1200_ms + r.under_2000_ms + r.over_2000_ms == i,
        decreases latencies.len() - i,
    {
        proof {
            assert(full.take(i + 1).drop_last() =~= full.take(i as int));
        }
        let x = latencies[i];
        if x < FAST_BUCKET_MS {
            r.under_800_ms = r.under_800_ms + 1;
        } else if x < MEDIUM_BUCKET_MS {
            r.under_1200_ms = r.under_1200_ms + 1;
        } else if x < SLOW_BUCKET_MS {
            r.under_2000_ms = r.under_2000_ms + 1;
        } else {
            r.over_2000_ms = r.over_2000_ms + 1;
        }
        i = i + 1;
    }
    proof {
        assert(full.take(full.len() as int) =~= full);
    }
    r
}

/// The largest per-second request count among the recorded one-second
/// buckets; 0 when no bucket exists.
pub open spec fn max_count_of(entries: Seq<(u64, usize)>) -> int
    decreases entries.len(),
{
    if entries.len() == 0 {
        0
    } else if entries.last().1 >= max_count_of(entries.drop_last()) {
        entries.last().1 as int
    } else {
        max_count_of(entries.drop_last())
    }
}

/// Peak requests-per-second: the maximum single-second count; 0 if no data.
pub fn peak_rps(per_second: &Vec<(u64, usize)>) -> (r: usize)
    ensures
        r == max_count_of(per_second@),
{
    let ghost full: Seq<(u64, usize)> = per_second@;
    let mut r: usize = 0;
    let mut i: usize = 0;
    while i < per_second.len()
        invariant
            i <= per_second.len(),
            per_second@ == full,
            r == max_count_of(full.take(i as int)),
        decreases per_second.len() - i,
    {
        proof {
            assert(full.take(i + 1).drop_last() =~= full.take(i as int));
        }
        let (_, count) = per_second[i];
        if count > r {
            r = count;
        }
        i = i + 1;
    }
    proof {
        assert(full.take(full.len() as int) =~= full);
    }
    r
}

/// `part` out of `whole`, in permyriad (1/100 of a percent); 0 when the
/// whole is 0, so an empty run reports a 0 rate rather than dividing by
/// zero.
pub open spec fn permyriad_of(part: int, whole: int) -> int {
    if whole == 0 {
        0
    } else {
        part * 10000 / whole
    }
}

/// The rate `part / whole` scaled to permyriad (0 ..= 10000); 0 when
/// `whole` is 0.
pub fn rate_permyriad(part: usize, whole: usize) -> (r: u64)
    requires
        part <= whole,
    ensures
        r == permyriad_of(part as int, whole as int),
        r <= 10000,
{
    if whole == 0 {
        return 0;
    }
    proof {
        assert((part as int) * 10000 <= (whole as int) * 10000) by (nonlinear_arith)
            requires
                part <= whole,
        ;
        lemma_div_pos_is_pos(part as int * 10000, whole as int);
        lemma_div_is_ordered(part as int * 10000, whole as int * 10000, whole as int);
        lemma_div_multiples_vanish(10000, whole as int);
        assert((whole as int) * 10000 == 10000 * (whole as int));
    }
    (((part as u128) * 10000) / (whole as u128)) as u64
}

} // verus!
