//! Aggregates of a vector of latency samples.
//!
//! Every statistic is a whole number of nanoseconds. Averages are rounded
//! down, and the standard deviation is the rounded-down root of the
//! rounded-down mean squared distance from the (rounded-down) mean.

use vstd::prelude::*;
use vstd::relations::{sorted_by, total_ordering};
use vstd::seq_lib::lemma_sorted_unique;

use crate::numeric::{
    floor_sqrt,
    floor_sqrt_of_square,
    floor_sqrt_u128,
    max_square,
    mean_square_deviation,
    square_deviation,
    sum_range,
    total,
    total_bounds,
};

verus! {

/// Aggregates of one sample vector, or of several rounds merged.
#[derive(Clone, Copy, Debug, PartialEq, Eq, Structural)]
pub struct StatResult {
    /// Mean latency in nanoseconds, rounded down.
    pub mean: u64,
    /// Mean in nanoseconds, rounded down, once the lowest and the highest
    /// hundredth of the samples are dropped.
    pub trimmed_mean: u64,
    /// Standard deviation over all samples, in nanoseconds, rounded down.
    pub stddev: u64,
    /// Smallest sample.
    pub min: u64,
    /// Largest sample.
    pub max: u64,
    /// Median: the sample in the middle of the sorted samples.
    pub p50: u64,
    /// 99th percentile of the sorted samples.
    pub p99: u64,
    /// Number of samples.
    pub count: usize,
}

/// Wake-ups per second at a mean latency of `mean` nanoseconds, rounded
/// down; 0 where the mean is 0.
pub open spec fn ops_of(mean: u64) -> u64 {
    if mean == 0 {
        0
    } else {
        (1_000_000_000int / (mean as int)) as u64
    }
}

/// The result for no samples at all: every field zero.
pub open spec fn no_stats() -> StatResult {
    StatResult { mean: 0, trimmed_mean: 0, stddev: 0, min: 0, max: 0, p50: 0, p99: 0, count: 0 }
}

impl Default for StatResult {
    fn default() -> (r: Self)
        ensures
            r == no_stats(),
    {
        StatResult { mean: 0, trimmed_mean: 0, stddev: 0, min: 0, max: 0, p50: 0, p99: 0, count: 0 }
    }
}

// ---------------------------------------------------------------------------
// Order
// ---------------------------------------------------------------------------

/// The order in which samples are sorted.
pub open spec fn ascending_order() -> spec_fn(u64, u64) -> bool {
    |a: u64, b: u64| a <= b
}

/// `s` in ascending order.
pub open spec fn ascending(s: Seq<u64>) -> Seq<u64> {
    s.sort_by(ascending_order())
}

/// No element of `s` is larger than a later one.
pub open spec fn is_ascending(s: Seq<u64>) -> bool {
    forall|i: int, j: int| 0 <= i <= j < s.len() ==> s[i] <= s[j]
}

/// `ascending(s)` is in ascending order and holds exactly the elements of
/// `s`, each as often as `s` does.
pub proof fn ascending_is_sorted_permutation(s: Seq<u64>)
    ensures
        is_ascending(ascending(s)),
        ascending(s).to_multiset() == s.to_multiset(),
        ascending(s).len() == s.len(),
{
    let leq = ascending_order();
    assert(total_ordering(leq));
    s.lemma_sort_by_ensures(leq);
    s.to_multiset_ensures();
    ascending(s).to_multiset_ensures();
    let a = ascending(s);
    assert forall|i: int, j: int| 0 <= i <= j < a.len() implies a[i] <= a[j] by {
        if i < j {
            assert(leq(a[i], a[j]));
        }
    }
}

/// An ascending rearrangement of `s` is `ascending(s)`: there is only one.
pub proof fn ascending_is_unique(a: Seq<u64>, s: Seq<u64>)
    requires
        is_ascending(a),
        a.to_multiset() == s.to_multiset(),
    ensures
        a == ascending(s),
{
    let leq = ascending_order();
    assert(total_ordering(leq));
    s.lemma_sort_by_ensures(leq);
    assert(sorted_by(a, leq));
    lemma_sorted_unique(a, ascending(s), leq);
}

/// `<[u64]>::sort_unstable` sorts the slice in place in ascending order; it
/// rearranges the elements and neither adds nor drops one.
#[verifier::external_body]
fn sort_samples(samples: &mut [u64])
    ensures
        is_ascending(final(samples)@),
        final(samples)@.to_multiset() == old(samples)@.to_multiset(),
{
    samples.sort_unstable();
}

// ---------------------------------------------------------------------------
// One sample vector
// ---------------------------------------------------------------------------

/// Index of the 99th percentile among `n` sorted samples.
pub open spec fn p99_index(n: int) -> int {
    (n - 1) * 99 / 100
}

/// What is left of sorted samples once the lowest and the highest
/// hundredth (rounded down) are dropped.
pub open spec fn trimmed(a: Seq<u64>) -> Seq<u64> {
    let cut = a.len() as int / 100;
    a.subrange(cut, a.len() - cut)
}

/// Mean of `s`, rounded down.
pub open spec fn mean_of(s: Seq<u64>) -> int {
    total(s) / (s.len() as int)
}

/// Mean squared distance of the elements of `s` from their mean, rounded
/// down.
pub open spec fn variance_of(s: Seq<u64>) -> int {
    square_deviation(s, mean_of(s)) / (s.len() as int)
}

/// The aggregates of non-empty samples `a` that are in ascending order.
pub open spec fn summary(a: Seq<u64>) -> StatResult {
    StatResult {
        mean: mean_of(a) as u64,
        trimmed_mean: mean_of(trimmed(a)) as u64,
        stddev: floor_sqrt(variance_of(a)) as u64,
        min: a[0],
        max: a[a.len() - 1],
        p50: a[a.len() as int / 2],
        p99: a[p99_index(a.len() as int)],
        count: a.len() as usize,
    }
}

/// The aggregates of `s`, in whatever order its samples come.
pub open spec fn stats_of(s: Seq<u64>) -> StatResult {
    if s.len() == 0 {
        no_stats()
    } else {
        summary(ascending(s))
    }
}

/// A rounded-down mean lies between any two bounds of the elements.
pub proof fn mean_is_between(s: Seq<u64>, lo: int, hi: int)
    requires
        s.len() > 0,
        forall|i: int| 0 <= i < s.len() ==> lo <= #[trigger] s[i] <= hi,
    ensures
        lo <= mean_of(s) <= hi,
{
    let n = s.len() as int;
    let t = total(s);
    total_bounds(s, lo, hi);
    vstd::arithmetic::div_mod::lemma_fundamental_div_mod(t, n);
    vstd::arithmetic::div_mod::lemma_mod_bound(t, n);
    let q = t / n;
    let r = t % n;
    assert(lo <= q <= hi) by (nonlinear_arith)
        requires
            n > 0,
            n * lo <= t <= n * hi,
            t == n * q + r,
            0 <= r < n,
    ;
}

/// What holds of the aggregates of non-empty ascending samples: nothing is
/// cut off by the 64-bit fields, the percentiles and both means lie between
/// the extremes, the median is at most the 99th percentile unless there are
/// exactly two samples, and trimming changes nothing below a hundred
/// samples.
pub proof fn summary_is_sound(a: Seq<u64>)
    requires
        a.len() > 0,
        is_ascending(a),
    ensures
        summary(a).mean == mean_of(a),
        summary(a).trimmed_mean == mean_of(trimmed(a)),
        trimmed(a).len() == a.len() - 2 * (a.len() as int / 100),
        trimmed(a).len() > 0,
        0 <= variance_of(a) <= max_square(),
        summary(a).stddev == floor_sqrt(variance_of(a)),
        summary(a).min <= summary(a).p50 <= summary(a).max,
        summary(a).min <= summary(a).p99 <= summary(a).max,
        a.len() != 2 ==> summary(a).p50 <= summary(a).p99,
        summary(a).min <= summary(a).mean <= summary(a).max,
        summary(a).min <= summary(a).trimmed_mean <= summary(a).max,
        a.len() < 100 ==> summary(a).trimmed_mean == summary(a).mean,
        forall|i: int| 0 <= i < a.len() ==> summary(a).min <= #[trigger] a[i] <= summary(a).max,
{
    let n = a.len() as int;
    let lo = a[0] as int;
    let hi = a[n - 1] as int;
    assert forall|i: int| 0 <= i < a.len() implies lo <= #[trigger] a[i] <= hi by {}
    mean_is_between(a, lo, hi);
    let kept = trimmed(a);
    assert forall|i: int| 0 <= i < kept.len() implies lo <= #[trigger] kept[i] <= hi by {
        assert(kept[i] == a[i + n / 100]);
    }
    mean_is_between(kept, lo, hi);
    if n < 100 {
        assert(kept =~= a);
    }
    let m = mean_of(a);
    crate::numeric::square_deviation_bounds(a, m);
    let sd = square_deviation(a, m);
    let sq = max_square();
    vstd::arithmetic::div_mod::lemma_fundamental_div_mod(sd, n);
    vstd::arithmetic::div_mod::lemma_mod_pos_bound(sd, n);
    let v = sd / n;
    let r = sd % n;
    assert(0 <= v <= sq) by (nonlinear_arith)
        requires
            n > 0,
            0 <= sd <= n * sq,
            sd == n * v + r,
            0 <= r < n,
            sq >= 0,
    ;
    root_fits(v);
}

/// The rounded-down root of a number up to the largest 64-bit square
/// exists and fits 64 bits.
proof fn root_fits(v: int)
    requires
        0 <= v <= max_square(),
    ensures
        0 <= floor_sqrt(v) <= u64::MAX,
        crate::numeric::is_floor_sqrt(v, floor_sqrt(v)),
{
    let w = root_witness(v, 0);
    crate::numeric::floor_sqrt_unique(v, w);
    assert(w <= 0xFFFF_FFFF_FFFF_FFFF) by (nonlinear_arith)
        requires
            0 <= w,
            w * w <= v,
            v <= 0xFFFF_FFFF_FFFF_FFFF * 0xFFFF_FFFF_FFFF_FFFF,
    ;
}

/// Some `r >= from` with `r * r <= v < (r + 1) * (r + 1)`, found by
/// counting up.
proof fn root_witness(v: int, from: int) -> (r: int)
    requires
        0 <= from,
        from * from <= v,
    ensures
        crate::numeric::is_floor_sqrt(v, r),
    decreases v - from * from,
{
    if v < (from + 1) * (from + 1) {
        from
    } else {
        assert((from + 1) * (from + 1) > from * from) by (nonlinear_arith)
            requires
                0 <= from,
        ;
        root_witness(v, from + 1)
    }
}

impl StatResult {
    /// Computes the aggregates of `samples`, sorting them in place.
    ///
    /// No samples give the all-zero result. Otherwise `min` and `max` are
    /// the extremes, `p50` is the sample at index `n / 2` and `p99` the one
    /// at index `(n - 1) * 99 / 100` of the sorted samples, `mean` and
    /// `stddev` are taken over all samples, and `trimmed_mean` over what
    /// remains once the `n / 100` lowest and the `n / 100` highest are
    /// dropped. Means and the deviation are rounded down to whole
    /// nanoseconds. No intermediate value overflows, whatever the samples.
    pub fn compute(samples: &mut [u64]) -> (r: StatResult)
        ensures
            final(samples)@ == ascending(old(samples)@),
            r == stats_of(old(samples)@),
            r.count == old(samples)@.len(),
            r.min <= r.p50 <= r.max,
            r.min <= r.p99 <= r.max,
            old(samples)@.len() != 2 ==> r.p50 <= r.p99,
            r.min <= r.mean <= r.max,
            r.min <= r.trimmed_mean <= r.max,
            old(samples)@.len() < 100 ==> r.trimmed_mean == r.mean,
            forall|i: int|
                0 <= i < old(samples)@.len() ==> r.min <= #[trigger] old(samples)@[i] <= r.max,
            old(samples)@.len() > 0 ==> r.mean == total(old(samples)@) / (old(samples)@.len()
                as int),
    {
        let ghost given = samples@;
        proof {
            ascending_is_sorted_permutation(given);
        }
        if samples.len() == 0 {
            proof {
                assert(samples@ =~= ascending(given));
            }
            return StatResult::default();
        }
        sort_samples(samples);
        let n: usize = samples.len();
        proof {
            ascending_is_unique(samples@, given);
            summary_is_sound(samples@);
            mean_and_extremes_of_given_samples(given);
        }
        let min: u64 = samples[0];
        let max: u64 = samples[n - 1];
        let p50: u64 = samples[n / 2];
        let p99: u64 = samples[((n - 1) as u128 * 99 / 100) as usize];

        let sum: u128 = sum_range(samples, 0, n);
        assert(samples@.subrange(0, n as int) =~= samples@);
        let mean: u64 = (sum / n as u128) as u64;
        let variance: u128 = mean_square_deviation(samples, mean);
        let stddev: u64 = floor_sqrt_u128(variance);

        let cut: usize = n / 100;
        let kept: usize = n - 2 * cut;
        let trimmed_sum: u128 = sum_range(samples, cut, n - cut);
        let trimmed_mean: u64 = (trimmed_sum / kept as u128) as u64;

        StatResult { mean, trimmed_mean, stddev, min, max, p50, p99, count: n }
    }

    /// Wake-ups per second at the mean latency: `10^9 / mean`, and 0 where
    /// the mean is 0.
    pub fn ops_per_sec(&self) -> (ops: u64)
        ensures
            ops == ops_of(self.mean),
    {
        if self.mean == 0 {
            0
        } else {
            1_000_000_000 / self.mean
        }
    }
}

// ---------------------------------------------------------------------------
// What holds of the aggregates
// ---------------------------------------------------------------------------

/// For non-empty samples the aggregates are ordered `min <= p50 <= p99 <=
/// max`, and `count` is the number of samples. Two samples that differ are
/// left out: there the median is the larger and the 99th percentile the
/// smaller of the two.
pub proof fn percentiles_are_ordered(s: Seq<u64>)
    requires
        0 < s.len() <= usize::MAX,
        s.len() == 2 ==> s[0] == s[1],
    ensures
        stats_of(s).min <= stats_of(s).p50 <= stats_of(s).p99 <= stats_of(s).max,
        stats_of(s).count == s.len(),
{
    let a = ascending(s);
    ascending_is_sorted_permutation(s);
    summary_is_sound(a);
    if s.len() == 2 {
        s.to_multiset_ensures();
        a.to_multiset_ensures();
        assert(a.contains(a[0]));
        assert(a.contains(a[1]));
        assert(a.to_multiset().count(a[0]) > 0);
        assert(a.to_multiset().count(a[1]) > 0);
        assert(s.to_multiset().count(a[0]) > 0);
        assert(s.to_multiset().count(a[1]) > 0);
        assert(s.contains(a[0]));
        assert(s.contains(a[1]));
    }
}

/// Samples that are already in ascending order are summarised as they
/// stand.
pub proof fn stats_of_ascending_samples(a: Seq<u64>)
    requires
        a.len() > 0,
        is_ascending(a),
    ensures
        ascending(a) == a,
        stats_of(a) == summary(a),
{
    ascending_is_unique(a, a);
}

/// The aggregates do not depend on the order of the samples.
pub proof fn stats_ignore_order(s1: Seq<u64>, s2: Seq<u64>)
    requires
        s1.to_multiset() == s2.to_multiset(),
    ensures
        stats_of(s1) == stats_of(s2),
{
    ascending_is_sorted_permutation(s1);
    ascending_is_sorted_permutation(s2);
    ascending_is_unique(ascending(s1), s2);
}

/// Removing an element takes it off the sum.
proof fn total_without(s: Seq<u64>, j: int)
    requires
        0 <= j < s.len(),
    ensures
        total(s) == total(s.remove(j)) + s[j],
    decreases s.len(),
{
    if j == s.len() - 1 {
        assert(s.remove(j) =~= s.drop_last());
    } else {
        total_without(s.drop_last(), j);
        assert(s.remove(j).drop_last() =~= s.drop_last().remove(j));
        assert(s.remove(j).last() == s.last());
    }
}

/// The sum of samples does not depend on their order.
pub proof fn total_ignores_order(s1: Seq<u64>, s2: Seq<u64>)
    requires
        s1.to_multiset() == s2.to_multiset(),
    ensures
        total(s1) == total(s2),
    decreases s1.len(),
{
    s1.to_multiset_ensures();
    s2.to_multiset_ensures();
    if s1.len() > 0 {
        let x = s1.last();
        let n = s1.len() - 1;
        assert(s1.contains(x));
        assert(s1.to_multiset().count(x) > 0);
        assert(s2.to_multiset().count(x) > 0);
        assert(s2.contains(x));
        let j = choose|j: int| 0 <= j < s2.len() && s2[j] == x;
        assert(s1.remove(n) =~= s1.drop_last());
        assert(s1.drop_last().to_multiset() =~= s2.remove(j).to_multiset());
        total_ignores_order(s1.drop_last(), s2.remove(j));
        total_without(s2, j);
    }
}

/// The mean is that of the samples as given, whatever their order, and the
/// extremes bound every sample.
pub proof fn mean_and_extremes_of_given_samples(s: Seq<u64>)
    requires
        s.len() > 0,
    ensures
        stats_of(s).mean == total(s) / (s.len() as int),
        forall|i: int| 0 <= i < s.len() ==> stats_of(s).min <= #[trigger] s[i] <= stats_of(s).max,
        s.contains(stats_of(s).min),
        s.contains(stats_of(s).max),
{
    let a = ascending(s);
    ascending_is_sorted_permutation(s);
    summary_is_sound(a);
    total_ignores_order(a, s);
    s.to_multiset_ensures();
    a.to_multiset_ensures();
    assert forall|i: int| 0 <= i < s.len() implies a[0] <= #[trigger] s[i] <= a[a.len() - 1] by {
        assert(s.contains(s[i]));
        assert(s.to_multiset().count(s[i]) > 0);
        assert(a.to_multiset().count(s[i]) > 0);
        assert(a.contains(s[i]));
        let k = choose|k: int| 0 <= k < a.len() && a[k] == s[i];
        assert(a[0] <= a[k] <= a[a.len() - 1]);
    }
    assert(a.contains(a[0]));
    assert(a.contains(a[a.len() - 1]));
    assert(a.to_multiset().count(a[0]) > 0);
    assert(a.to_multiset().count(a[a.len() - 1]) > 0);
    assert(s.to_multiset().count(a[0]) > 0);
    assert(s.to_multiset().count(a[a.len() - 1]) > 0);
}

/// The trimmed mean lies between the smallest and the largest sample, and
/// with fewer than a hundred samples it is the mean.
pub proof fn trimmed_mean_is_bounded(s: Seq<u64>)
    ensures
        stats_of(s).min <= stats_of(s).trimmed_mean <= stats_of(s).max,
        s.len() < 100 ==> stats_of(s).trimmed_mean == stats_of(s).mean,
{
    if s.len() > 0 {
        ascending_is_sorted_permutation(s);
        summary_is_sound(ascending(s));
    }
}

// ---------------------------------------------------------------------------
// Several rounds
// ---------------------------------------------------------------------------

/// The means of the results, in order.
pub open spec fn means(rs: Seq<StatResult>) -> Seq<u64> {
    rs.map_values(|r: StatResult| r.mean)
}

/// The trimmed means of the results, in order.
pub open spec fn trimmed_means(rs: Seq<StatResult>) -> Seq<u64> {
    rs.map_values(|r: StatResult| r.trimmed_mean)
}

/// The standard deviations of the results, in order.
pub open spec fn stddevs(rs: Seq<StatResult>) -> Seq<u64> {
    rs.map_values(|r: StatResult| r.stddev)
}

/// The minima of the results, in order.
pub open spec fn minima(rs: Seq<StatResult>) -> Seq<u64> {
    rs.map_values(|r: StatResult| r.min)
}

/// The maxima of the results, in order.
pub open spec fn maxima(rs: Seq<StatResult>) -> Seq<u64> {
    rs.map_values(|r: StatResult| r.max)
}

/// The medians of the results, in order.
pub open spec fn medians(rs: Seq<StatResult>) -> Seq<u64> {
    rs.map_values(|r: StatResult| r.p50)
}

/// The 99th percentiles of the results, in order.
pub open spec fn tails(rs: Seq<StatResult>) -> Seq<u64> {
    rs.map_values(|r: StatResult| r.p99)
}

/// Sum of the sample counts of the results.
pub open spec fn count_total(rs: Seq<StatResult>) -> int
    decreases rs.len(),
{
    if rs.len() == 0 {
        0
    } else {
        count_total(rs.drop_last()) + rs.last().count
    }
}

/// The smallest element of `s`, and 0 for an empty `s`.
pub open spec fn least(s: Seq<u64>) -> u64
    decreases s.len(),
{
    if s.len() == 0 {
        0
    } else if s.len() == 1 {
        s[0]
    } else if s.last() < least(s.drop_last()) {
        s.last()
    } else {
        least(s.drop_last())
    }
}

/// The largest element of `s`, and 0 for an empty `s`.
pub open spec fn greatest(s: Seq<u64>) -> u64
    decreases s.len(),
{
    if s.len() == 0 {
        0
    } else if s.len() == 1 {
        s[0]
    } else if s.last() > greatest(s.drop_last()) {
        s.last()
    } else {
        greatest(s.drop_last())
    }
}

/// Root of the mean of the squares of `s`, both rounded down.
pub open spec fn root_mean_square(s: Seq<u64>) -> int {
    floor_sqrt(square_deviation(s, 0) / (s.len() as int))
}

/// The results of several rounds as one.
///
/// Each round counts as one unit whatever its sample count: `mean`,
/// `trimmed_mean`, `p50` and `p99` are the rounded-down averages of the
/// rounds' values, `stddev` is the root mean square of the rounds'
/// deviations, `min` and `max` are the extremes over all rounds, and
/// `count` is the sum of the counts.
pub open spec fn merged(rs: Seq<StatResult>) -> StatResult {
    if rs.len() == 0 {
        no_stats()
    } else {
        StatResult {
            mean: mean_of(means(rs)) as u64,
            trimmed_mean: mean_of(trimmed_means(rs)) as u64,
            stddev: root_mean_square(stddevs(rs)) as u64,
            min: least(minima(rs)),
            max: greatest(maxima(rs)),
            p50: mean_of(medians(rs)) as u64,
            p99: mean_of(tails(rs)) as u64,
            count: count_total(rs) as usize,
        }
    }
}

/// Counts are not negative.
proof fn count_total_is_natural(rs: Seq<StatResult>)
    ensures
        0 <= count_total(rs),
    decreases rs.len(),
{
    if rs.len() > 0 {
        count_total_is_natural(rs.drop_last());
    }
}

/// The counts of a prefix of the results sum to at most the counts of all,
/// and each further result adds its count.
pub proof fn count_total_of_prefix(rs: Seq<StatResult>, i: int)
    requires
        0 <= i <= rs.len(),
    ensures
        0 <= count_total(rs.take(i)) <= count_total(rs),
        i < rs.len() ==> count_total(rs.take(i + 1)) == count_total(rs.take(i)) + rs[i].count,
    decreases rs.len() - i,
{
    count_total_is_natural(rs.take(i));
    if i < rs.len() {
        count_total_of_prefix(rs, i + 1);
        assert(rs.take(i + 1).drop_last() =~= rs.take(i));
    } else {
        assert(rs.take(i) =~= rs);
    }
}

/// The smallest element of a non-empty slice.
fn least_of(v: &[u64]) -> (m: u64)
    requires
        v.len() > 0,
    ensures
        m == least(v@),
{
    let mut m: u64 = v[0];
    let mut i: usize = 1;
    assert(v@.take(1).len() == 1);
    while i < v.len()
        invariant
            1 <= i <= v.len(),
            m == least(v@.take(i as int)),
        decreases v.len() - i,
    {
        assert(v@.take(i + 1).drop_last() =~= v@.take(i as int));
        if v[i] < m {
            m = v[i];
        }
        i = i + 1;
    }
    assert(v@.take(v.len() as int) =~= v@);
    m
}

/// The largest element of a non-empty slice.
fn greatest_of(v: &[u64]) -> (m: u64)
    requires
        v.len() > 0,
    ensures
        m == greatest(v@),
{
    let mut m: u64 = v[0];
    let mut i: usize = 1;
    assert(v@.take(1).len() == 1);
    while i < v.len()
        invariant
            1 <= i <= v.len(),
            m == greatest(v@.take(i as int)),
        decreases v.len() - i,
    {
        assert(v@.take(i + 1).drop_last() =~= v@.take(i as int));
        if v[i] > m {
            m = v[i];
        }
        i = i + 1;
    }
    assert(v@.take(v.len() as int) =~= v@);
    m
}

/// Mean of a non-empty slice, rounded down.
fn mean_of_slice(v: &[u64]) -> (m: u64)
    requires
        v.len() > 0,
    ensures
        m == mean_of(v@),
{
    let n: usize = v.len();
    let sum: u128 = sum_range(v, 0, n);
    proof {
        assert(v@.subrange(0, n as int) =~= v@);
        mean_is_between(v@, 0, u64::MAX as int);
    }
    (sum / n as u128) as u64
}

impl StatResult {
    /// Merges the results of several rounds into one; see [`merged`]. No
    /// results give the all-zero result. The sample counts must sum to a
    /// `usize`.
    pub fn merge(results: &[StatResult]) -> (r: StatResult)
        requires
            count_total(results@) <= usize::MAX,
        ensures
            r == merged(results@),
    {
        let k: usize = results.len();
        if k == 0 {
            return StatResult::default();
        }
        let ghost rs = results@;
        let mut mean_col: Vec<u64> = Vec::new();
        let mut trimmed_col: Vec<u64> = Vec::new();
        let mut stddev_col: Vec<u64> = Vec::new();
        let mut min_col: Vec<u64> = Vec::new();
        let mut max_col: Vec<u64> = Vec::new();
        let mut p50_col: Vec<u64> = Vec::new();
        let mut p99_col: Vec<u64> = Vec::new();
        let mut count: usize = 0;
        let mut i: usize = 0;
        while i < k
            invariant
                i <= k,
                k == results.len(),
                rs == results@,
                count_total(rs) <= usize::MAX,
                count == count_total(rs.take(i as int)),
                mean_col@ == means(rs).take(i as int),
                trimmed_col@ == trimmed_means(rs).take(i as int),
                stddev_col@ == stddevs(rs).take(i as int),
                min_col@ == minima(rs).take(i as int),
                max_col@ == maxima(rs).take(i as int),
                p50_col@ == medians(rs).take(i as int),
                p99_col@ == tails(rs).take(i as int),
            decreases k - i,
        {
            let r: StatResult = results[i];
            proof {
                count_total_of_prefix(rs, i as int);
                count_total_of_prefix(rs, i + 1);
            }
            mean_col.push(r.mean);
            trimmed_col.push(r.trimmed_mean);
            stddev_col.push(r.stddev);
            min_col.push(r.min);
            max_col.push(r.max);
            p50_col.push(r.p50);
            p99_col.push(r.p99);
            count = count + r.count;
            i = i + 1;
            proof {
                assert(mean_col@ =~= means(rs).take(i as int));
                assert(trimmed_col@ =~= trimmed_means(rs).take(i as int));
                assert(stddev_col@ =~= stddevs(rs).take(i as int));
                assert(min_col@ =~= minima(rs).take(i as int));
                assert(max_col@ =~= maxima(rs).take(i as int));
                assert(p50_col@ =~= medians(rs).take(i as int));
                assert(p99_col@ =~= tails(rs).take(i as int));
            }
        }
        proof {
            assert(rs.take(k as int) =~= rs);
            assert(means(rs).take(k as int) =~= means(rs));
            assert(trimmed_means(rs).take(k as int) =~= trimmed_means(rs));
            assert(stddevs(rs).take(k as int) =~= stddevs(rs));
            assert(minima(rs).take(k as int) =~= minima(rs));
            assert(maxima(rs).take(k as int) =~= maxima(rs));
            assert(medians(rs).take(k as int) =~= medians(rs));
            assert(tails(rs).take(k as int) =~= tails(rs));
        }
        let mean_square: u128 = mean_square_deviation(stddev_col.as_slice(), 0);
        StatResult {
            mean: mean_of_slice(mean_col.as_slice()),
            trimmed_mean: mean_of_slice(trimmed_col.as_slice()),
            stddev: floor_sqrt_u128(mean_square),
            min: least_of(min_col.as_slice()),
            max: greatest_of(max_col.as_slice()),
            p50: mean_of_slice(p50_col.as_slice()),
            p99: mean_of_slice(p99_col.as_slice()),
            count,
        }
    }
}

/// Merging a single result gives that result back, field for field.
pub proof fn merge_of_one(r: StatResult)
    ensures
        merged(seq![r]) == r,
{
    let rs = seq![r];
    reveal_with_fuel(total, 2);
    reveal_with_fuel(square_deviation, 2);
    reveal_with_fuel(count_total, 2);
    assert(rs.drop_last().len() == 0);
    assert(means(rs).drop_last().len() == 0);
    assert(trimmed_means(rs).drop_last().len() == 0);
    assert(stddevs(rs).drop_last().len() == 0);
    assert(medians(rs).drop_last().len() == 0);
    assert(tails(rs).drop_last().len() == 0);
    let d = r.stddev as int;
    assert(square_deviation(stddevs(rs), 0) == d * d) by {
        assert(stddevs(rs).last() == r.stddev);
        assert((d - 0) * (d - 0) == d * d) by (nonlinear_arith);
    }
    floor_sqrt_of_square(d);
}

} // verus!
