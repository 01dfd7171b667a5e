use poc_bench::histogram::{bucket_index, bucket_label, Histogram, NUM_BUCKETS};

#[test]
fn bucket_boundaries() {
    assert_eq!(bucket_index(0), 0);
    assert_eq!(bucket_index(999), 0);
    assert_eq!(bucket_index(1_000), 1);
    assert_eq!(bucket_index(1_999), 1);
    assert_eq!(bucket_index(2_000), 2);
    assert_eq!(bucket_index(3_999), 2);
    assert_eq!(bucket_index(4_000), 3);
    assert_eq!(bucket_index(7_999), 3);
    assert_eq!(bucket_index(8_000), 4);
    assert_eq!(bucket_index(15_999), 4);
    assert_eq!(bucket_index(16_000), 5);
    assert_eq!(bucket_index(31_999), 5);
    assert_eq!(bucket_index(32_000), 6);
    assert_eq!(bucket_index(63_999), 6);
    assert_eq!(bucket_index(64_000), 7);
    assert_eq!(bucket_index(127_999), 7);
    assert_eq!(bucket_index(128_000), 8);
    assert_eq!(bucket_index(u64::MAX), 8);
}

#[test]
fn every_sample_lands_in_one_bucket() {
    let mut ns: u64 = 0;
    while ns < 300_000 {
        assert!(bucket_index(ns) < NUM_BUCKETS);
        ns += 37;
    }
}

#[test]
fn histogram_counts_samples_per_bucket() {
    let samples: Vec<u64> = vec![0, 999, 1_000, 2_500, 2_500, 5_000, 200_000, 64_000, 127_999];
    let h: Histogram = Histogram::from_samples(&samples);
    assert_eq!(h.buckets, [2, 1, 2, 1, 0, 0, 0, 2, 1]);
    assert_eq!(h.total, 9);
}

#[test]
fn histogram_of_no_samples_is_empty() {
    let none: Vec<u64> = Vec::new();
    let h: Histogram = Histogram::from_samples(&none);
    assert_eq!(h, Histogram::new());
    assert_eq!(h.total, 0);
    let mut b: usize = 0;
    while b < NUM_BUCKETS {
        assert_eq!(h.fraction(b), (0, 1));
        b += 1;
    }
}

#[test]
fn fractions_share_the_total_and_add_up_to_it() {
    let samples: Vec<u64> = vec![500, 1_500, 1_600, 9_000, 9_100, 9_200, 1_000_000];
    let h: Histogram = Histogram::from_samples(&samples);
    let mut sum: usize = 0;
    let mut b: usize = 0;
    while b < NUM_BUCKETS {
        let (num, den): (usize, usize) = h.fraction(b);
        assert_eq!(den, 7);
        sum += num;
        b += 1;
    }
    assert_eq!(sum, 7);
    assert_eq!(h.fraction(4), (3, 7));
    assert_eq!(h.fraction(1), (2, 7));
    assert_eq!(h.fraction(2), (0, 7));
}

#[test]
fn bucket_labels_name_the_lower_bounds() {
    let labels: [&str; 9] = [" <1 ", "  1 ", "  2 ", "  4 ", "  8 ", " 16 ", " 32 ", " 64 ", "128+"];
    let mut b: usize = 0;
    while b < NUM_BUCKETS {
        assert_eq!(bucket_label(b), labels[b]);
        b += 1;
    }
}

#[test]
fn histogram_of_a_pool_is_the_sum_of_its_parts() {
    let first: Vec<u64> = vec![100, 1_100, 2_100, 130_000];
    let second: Vec<u64> = vec![900, 1_900, 70_000, 70_001, 999_999];
    let mut pool: Vec<u64> = first.clone();
    pool.extend_from_slice(&second);
    let a: Histogram = Histogram::from_samples(&first);
    let b: Histogram = Histogram::from_samples(&second);
    let joined: Histogram = Histogram::from_samples(&pool);
    let mut k: usize = 0;
    while k < NUM_BUCKETS {
        assert_eq!(joined.buckets[k], a.buckets[k] + b.buckets[k]);
        k += 1;
    }
    assert_eq!(joined.total, a.total + b.total);
}
