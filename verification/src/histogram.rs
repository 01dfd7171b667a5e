//! Latency histogram over nine log2-scaled microsecond buckets:
//! `[0,1)`, `[1,2)`, `[2,4)`, `[4,8)`, `[8,16)`, `[16,32)`, `[32,64)`,
//! `[64,128)` and `128` and above.

use vstd::prelude::*;

verus! {

/// Number of buckets.
pub const NUM_BUCKETS: usize = 9;

/// Nanoseconds per microsecond.
pub const NS_PER_US: u64 = 1000;

/// Counts of samples per bucket, and the number of samples in all.
#[derive(Clone, Copy, Debug, PartialEq, Eq)]
pub struct Histogram {
    pub buckets: [usize; NUM_BUCKETS],
    pub total: usize,
}

/// Lower bound of bucket `b`, in microseconds.
pub open spec fn bucket_floor_us(b: int) -> int {
    if b <= 0 {
        0
    } else if b == 1 {
        1
    } else if b == 2 {
        2
    } else if b == 3 {
        4
    } else if b == 4 {
        8
    } else if b == 5 {
        16
    } else if b == 6 {
        32
    } else if b == 7 {
        64
    } else {
        128
    }
}

/// Whether a sample of `ns` nanoseconds belongs to bucket `b`: its whole
/// microseconds reach the bucket's lower bound and stay below the next
/// bucket's; the last bucket has no upper bound.
pub open spec fn in_bucket(ns: u64, b: int) -> bool {
    &&& 0 <= b < NUM_BUCKETS
    &&& bucket_floor_us(b) <= ns / NS_PER_US
    &&& b + 1 < NUM_BUCKETS ==> ns / NS_PER_US < bucket_floor_us(b + 1)
}

/// The bucket of a sample of `ns` nanoseconds.
pub open spec fn bucket_of(ns: u64) -> int {
    let us = ns / NS_PER_US;
    if us < 1 {
        0
    } else if us < 2 {
        1
    } else if us < 4 {
        2
    } else if us < 8 {
        3
    } else if us < 16 {
        4
    } else if us < 32 {
        5
    } else if us < 64 {
        6
    } else if us < 128 {
        7
    } else {
        8
    }
}

/// Number of samples of `s` that belong to bucket `b`.
pub open spec fn tally(s: Seq<u64>, b: int) -> int
    decreases s.len(),
{
    if s.len() == 0 {
        0
    } else {
        tally(s.drop_last(), b) + if bucket_of(s.last()) == b { 1int } else { 0int }
    }
}

/// Sum of the nine bucket counts.
pub open spec fn bucket_sum(buckets: Seq<usize>) -> int {
    buckets[0] + buckets[1] + buckets[2] + buckets[3] + buckets[4] + buckets[5] + buckets[6]
        + buckets[7] + buckets[8]
}

/// Bucketing is exhaustive and exclusive: every sample belongs to exactly
/// one of the nine buckets, the one that `bucket_of` names.
pub proof fn every_sample_has_one_bucket(ns: u64)
    ensures
        0 <= bucket_of(ns) < NUM_BUCKETS,
        forall|b: int| in_bucket(ns, b) <==> b == bucket_of(ns),
{
}

/// Every sample is tallied in exactly one bucket, so the nine tallies add
/// up to the number of samples.
pub proof fn tallies_add_up(s: Seq<u64>)
    ensures
        tally(s, 0) + tally(s, 1) + tally(s, 2) + tally(s, 3) + tally(s, 4) + tally(s, 5) + tally(
            s,
            6,
        ) + tally(s, 7) + tally(s, 8) == s.len(),
        forall|b: int| 0 <= #[trigger] tally(s, b) <= s.len(),
    decreases s.len(),
{
    if s.len() > 0 {
        tallies_add_up(s.drop_last());
        assert forall|b: int| 0 <= #[trigger] tally(s, b) <= s.len() by {
            assert(0 <= tally(s.drop_last(), b) <= s.len() - 1);
        }
    }
}

/// Label of bucket `b`: its lower bound in microseconds, four bytes wide.
pub open spec fn label_of(b: int) -> Seq<char> {
    if b <= 0 {
        " <1 "@
    } else if b == 1 {
        "  1 "@
    } else if b == 2 {
        "  2 "@
    } else if b == 3 {
        "  4 "@
    } else if b == 4 {
        "  8 "@
    } else if b == 5 {
        " 16 "@
    } else if b == 6 {
        " 32 "@
    } else if b == 7 {
        " 64 "@
    } else {
        "128+"@
    }
}

/// Label of `bucket` for the dashboard.
pub fn bucket_label(bucket: usize) -> (label: &'static str)
    requires
        bucket < NUM_BUCKETS,
    ensures
        label@ == label_of(bucket as int),
{
    if bucket == 0 {
        " <1 "
    } else if bucket == 1 {
        "  1 "
    } else if bucket == 2 {
        "  2 "
    } else if bucket == 3 {
        "  4 "
    } else if bucket == 4 {
        "  8 "
    } else if bucket == 5 {
        " 16 "
    } else if bucket == 6 {
        " 32 "
    } else if bucket == 7 {
        " 64 "
    } else {
        "128+"
    }
}

/// The tallies of two sample vectors joined are the sums of their
/// tallies: the histogram of a growing pool can be kept by adding up.
pub proof fn tally_of_joined_samples(a: Seq<u64>, b: Seq<u64>, bucket: int)
    ensures
        tally(a + b, bucket) == tally(a, bucket) + tally(b, bucket),
    decreases b.len(),
{
    if b.len() == 0 {
        assert(a + b =~= a);
    } else {
        tally_of_joined_samples(a, b.drop_last(), bucket);
        assert((a + b).drop_last() =~= a + b.drop_last());
        assert((a + b).last() == b.last());
    }
}

/// Index of the bucket of a sample of `ns` nanoseconds.
pub fn bucket_index(ns: u64) -> (b: usize)
    ensures
        b == bucket_of(ns),
        b < NUM_BUCKETS,
        in_bucket(ns, b as int),
{
    let us: u64 = ns / NS_PER_US;
    if us < 1 {
        0
    } else if us < 2 {
        1
    } else if us < 4 {
        2
    } else if us < 8 {
        3
    } else if us < 16 {
        4
    } else if us < 32 {
        5
    } else if us < 64 {
        6
    } else if us < 128 {
        7
    } else {
        8
    }
}

impl Histogram {
    /// The counts add up to the total.
    pub open spec fn wf(self) -> bool {
        bucket_sum(self.buckets@) == self.total
    }

    /// The histogram of the samples `s`.
    pub open spec fn describes(self, s: Seq<u64>) -> bool {
        &&& self.total == s.len()
        &&& forall|b: int| 0 <= b < NUM_BUCKETS ==> self.buckets@[b] == tally(s, b)
    }

    /// A histogram of no samples.
    pub fn new() -> (h: Histogram)
        ensures
            h.describes(Seq::empty()),
            h.wf(),
            h.total == 0,
    {
        Histogram { buckets: [0, 0, 0, 0, 0, 0, 0, 0, 0], total: 0 }
    }

    /// Buckets nanosecond samples by their whole microseconds.
    pub fn from_samples(samples: &[u64]) -> (h: Histogram)
        ensures
            h.describes(samples@),
            h.wf(),
    {
        let mut h = Histogram::new();
        let mut i: usize = 0;
        while i < samples.len()
            invariant
                i <= samples.len(),
                h.describes(samples@.take(i as int)),
            decreases samples.len() - i,
        {
            let b: usize = bucket_index(samples[i]);
            proof {
                assert(samples@.take(i + 1).drop_last() =~= samples@.take(i as int));
                tallies_add_up(samples@.take(i as int));
            }
            let count: usize = h.buckets[b];
            h.buckets[b] = count + 1;
            h.total = h.total + 1;
            i = i + 1;
        }
        proof {
            assert(samples@.take(samples.len() as int) =~= samples@);
            tallies_add_up(samples@);
        }
        h
    }

    /// Share of the samples that fell into bucket `b`, as numerator and
    /// denominator: the bucket's count over the total, and `0 / 1` in an
    /// empty histogram.
    pub open spec fn share(self, b: int) -> (usize, usize) {
        if self.total == 0 {
            (0usize, 1usize)
        } else {
            (self.buckets@[b], self.total)
        }
    }

    /// Share of the samples that fell into `bucket`; see [`Self::share`].
    /// The denominator is never zero.
    pub fn fraction(&self, bucket: usize) -> (share: (usize, usize))
        requires
            bucket < NUM_BUCKETS,
        ensures
            share == self.share(bucket as int),
            share.1 > 0,
    {
        if self.total == 0 {
            (0, 1)
        } else {
            (self.buckets[bucket], self.total)
        }
    }
}

/// The shares of a non-empty histogram have one denominator, and their
/// numerators add up to it: the fractions sum to one. Every share of an
/// empty histogram is zero.
pub proof fn fractions_sum_to_one(h: Histogram)
    requires
        h.wf(),
    ensures
        forall|b: int| 0 <= b < NUM_BUCKETS ==> (#[trigger] h.share(b)).1 == h.share(0).1,
        h.total > 0 ==> h.share(0).0 + h.share(1).0 + h.share(2).0 + h.share(3).0 + h.share(4).0
            + h.share(5).0 + h.share(6).0 + h.share(7).0 + h.share(8).0 == h.share(0).1,
        h.total == 0 ==> forall|b: int| 0 <= b < NUM_BUCKETS ==> (#[trigger] h.share(b)).0 == 0,
{
}

} // verus!
