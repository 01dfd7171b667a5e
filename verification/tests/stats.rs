use poc_bench::stats::StatResult;

fn hundred_steps() -> Vec<u64> {
    let mut v: Vec<u64> = Vec::new();
    let mut k: u64 = 1;
    while k <= 100 {
        v.push(k * 100);
        k += 1;
    }
    v
}

#[test]
fn compute_of_hundred_even_steps() {
    let mut samples: Vec<u64> = hundred_steps();
    let r: StatResult = StatResult::compute(&mut samples);
    assert_eq!(r.min, 100);
    assert_eq!(r.max, 10_000);
    assert_eq!(r.p50, 5_100);
    assert_eq!(r.p99, 9_900);
    assert_eq!(r.count, 100);
    assert_eq!(r.mean, 5_050);
    // index 0 and index 99 are dropped: 200..=9900 remain
    assert_eq!(r.trimmed_mean, 5_050);
    // variance 8_332_500, whose root lies between 2886 and 2887
    assert_eq!(r.stddev, 2_886);
}

#[test]
fn compute_sorts_the_samples_in_place() {
    let mut samples: Vec<u64> = vec![5, 3, 9, 1];
    let r: StatResult = StatResult::compute(&mut samples);
    assert_eq!(samples, vec![1, 3, 5, 9]);
    assert_eq!(r.min, 1);
    assert_eq!(r.max, 9);
    assert_eq!(r.p50, 5);
    assert_eq!(r.p99, 5);
    assert_eq!(r.mean, 4);
    assert_eq!(r.stddev, 3);
    assert_eq!(r.trimmed_mean, 4);
    assert_eq!(r.count, 4);
}

#[test]
fn compute_of_no_samples_is_all_zero() {
    let mut samples: Vec<u64> = Vec::new();
    let r: StatResult = StatResult::compute(&mut samples);
    assert_eq!(r, StatResult::default());
    assert_eq!(r.count, 0);
    assert_eq!(r.mean, 0);
    assert_eq!(r.max, 0);
}

#[test]
fn compute_of_one_sample() {
    let mut samples: Vec<u64> = vec![42];
    let r: StatResult = StatResult::compute(&mut samples);
    assert_eq!(
        r,
        StatResult {
            mean: 42,
            trimmed_mean: 42,
            stddev: 0,
            min: 42,
            max: 42,
            p50: 42,
            p99: 42,
            count: 1
        }
    );
}

#[test]
fn compute_of_two_differing_samples_puts_median_above_p99() {
    let mut samples: Vec<u64> = vec![20, 10];
    let r: StatResult = StatResult::compute(&mut samples);
    assert_eq!(r.p50, 20);
    assert_eq!(r.p99, 10);
    assert_eq!(r.mean, 15);
    assert_eq!(r.stddev, 5);
    assert_eq!(r.min, 10);
    assert_eq!(r.max, 20);
}

#[test]
fn percentiles_are_ordered_for_three_and_more() {
    let mut n: usize = 3;
    while n <= 250 {
        let mut samples: Vec<u64> = Vec::new();
        let mut i: usize = 0;
        while i < n {
            samples.push(((i * 7919 + 13) % 1000) as u64);
            i += 1;
        }
        let r: StatResult = StatResult::compute(&mut samples);
        assert!(r.min <= r.p50 && r.p50 <= r.p99 && r.p99 <= r.max, "n = {}", n);
        assert!(r.min <= r.mean && r.mean <= r.max);
        assert!(r.min <= r.trimmed_mean && r.trimmed_mean <= r.max);
        assert_eq!(r.count, n);
        if n < 100 {
            assert_eq!(r.trimmed_mean, r.mean);
        }
        n += 1;
    }
}

#[test]
fn compute_ignores_the_order_of_samples() {
    let mut a: Vec<u64> = vec![700, 100, 400, 900, 300, 300, 50];
    let mut b: Vec<u64> = vec![300, 50, 900, 300, 700, 400, 100];
    let mut c: Vec<u64> = vec![900, 700, 400, 300, 300, 100, 50];
    let ra: StatResult = StatResult::compute(&mut a);
    let rb: StatResult = StatResult::compute(&mut b);
    let rc: StatResult = StatResult::compute(&mut c);
    assert_eq!(ra, rb);
    assert_eq!(ra, rc);
    assert_eq!(a, b);
    assert_eq!(ra.p50, 300);
    assert_eq!(ra.mean, 392);
}

#[test]
fn trimmed_mean_drops_one_percent_at_each_end() {
    let mut samples: Vec<u64> = vec![1_000; 198];
    samples.push(1_000_000);
    samples.push(0);
    let r: StatResult = StatResult::compute(&mut samples);
    assert_eq!(r.count, 200);
    assert_eq!(r.min, 0);
    assert_eq!(r.max, 1_000_000);
    assert_eq!(r.mean, 5_990);
    assert_eq!(r.trimmed_mean, 1_000);
    assert_eq!(r.p50, 1_000);
    assert_eq!(r.p99, 1_000);
}

#[test]
fn compute_does_not_overflow_on_the_largest_samples() {
    let mut all_max: Vec<u64> = vec![u64::MAX; 3];
    let r: StatResult = StatResult::compute(&mut all_max);
    assert_eq!(r.mean, u64::MAX);
    assert_eq!(r.trimmed_mean, u64::MAX);
    assert_eq!(r.stddev, 0);
    assert_eq!(r.min, u64::MAX);

    let mut ends: Vec<u64> = vec![u64::MAX, 0];
    let e: StatResult = StatResult::compute(&mut ends);
    assert_eq!(e.mean, 9_223_372_036_854_775_807);
    assert_eq!(e.stddev, 9_223_372_036_854_775_807);
    assert_eq!(e.min, 0);
    assert_eq!(e.max, u64::MAX);
}

#[test]
fn stddev_is_the_rounded_down_root() {
    // mean 3, squared distances 4 + 1 + 0 + 1 + 4 = 10, variance 2, root 1
    let mut samples: Vec<u64> = vec![1, 2, 3, 4, 5];
    let r: StatResult = StatResult::compute(&mut samples);
    assert_eq!(r.mean, 3);
    assert_eq!(r.stddev, 1);
    // mean 50, squared distances 2 * 2500, variance 2500, root 50
    let mut wide: Vec<u64> = vec![0, 100];
    let w: StatResult = StatResult::compute(&mut wide);
    assert_eq!(w.stddev, 50);
}

#[test]
fn merge_of_nothing_is_all_zero() {
    let none: Vec<StatResult> = Vec::new();
    assert_eq!(StatResult::merge(&none), StatResult::default());
}

#[test]
fn merge_of_one_result_gives_it_back() {
    let r: StatResult = StatResult {
        mean: 1_234,
        trimmed_mean: 1_200,
        stddev: 77,
        min: 900,
        max: 5_000,
        p50: 1_100,
        p99: 4_000,
        count: 321,
    };
    assert_eq!(StatResult::merge(&[r]), r);
    let big: StatResult = StatResult {
        mean: u64::MAX,
        trimmed_mean: u64::MAX,
        stddev: u64::MAX,
        min: u64::MAX,
        max: u64::MAX,
        p50: u64::MAX,
        p99: u64::MAX,
        count: usize::MAX,
    };
    assert_eq!(StatResult::merge(&[big]), big);
}

#[test]
fn merge_counts_each_round_as_one_unit() {
    let a: StatResult = StatResult {
        mean: 500,
        trimmed_mean: 500,
        stddev: 3,
        min: 400,
        max: 600,
        p50: 500,
        p99: 590,
        count: 10,
    };
    let b: StatResult = StatResult {
        mean: 1_001,
        trimmed_mean: 900,
        stddev: 4,
        min: 300,
        max: 700,
        p50: 601,
        p99: 601,
        count: 20,
    };
    let m: StatResult = StatResult::merge(&[a, b]);
    assert_eq!(m.mean, 750);
    assert_eq!(m.trimmed_mean, 700);
    assert_eq!(m.stddev, 3);
    assert_eq!(m.min, 300);
    assert_eq!(m.max, 700);
    assert_eq!(m.p50, 550);
    assert_eq!(m.p99, 595);
    assert_eq!(m.count, 30);
}

#[test]
fn merge_takes_the_root_mean_square_of_deviations() {
    let mut a: StatResult = StatResult::default();
    let mut b: StatResult = StatResult::default();
    a.stddev = 30;
    b.stddev = 40;
    // (900 + 1600) / 2 = 1250, whose root lies between 35 and 36
    assert_eq!(StatResult::merge(&[a, b]).stddev, 35);
    a.stddev = u64::MAX;
    b.stddev = u64::MAX;
    assert_eq!(StatResult::merge(&[a, b, a]).stddev, u64::MAX);
}

#[test]
fn ops_per_sec_is_a_billion_over_the_mean() {
    let mut r: StatResult = StatResult::default();
    assert_eq!(r.ops_per_sec(), 0);
    r.mean = 500;
    assert_eq!(r.ops_per_sec(), 2_000_000);
    r.mean = 3;
    assert_eq!(r.ops_per_sec(), 333_333_333);
    r.mean = 2_000_000_000;
    assert_eq!(r.ops_per_sec(), 0);
}

fn next_random(state: &mut u64) -> u64 {
    *state = state.wrapping_mul(6_364_136_223_846_793_005).wrapping_add(1_442_695_040_888_963_407);
    *state >> 33
}

fn root_rounded_down(x: u128) -> u128 {
    let mut r: u128 = (x as f64).sqrt() as u128;
    while r * r > x {
        r -= 1;
    }
    while (r + 1) * (r + 1) <= x {
        r += 1;
    }
    r
}

#[test]
fn compute_agrees_with_direct_arithmetic() {
    let sizes: [usize; 12] = [1, 2, 3, 7, 50, 99, 100, 101, 199, 200, 1_000, 4_321];
    let mut state: u64 = 2_024;
    for n in sizes {
        let mut samples: Vec<u64> = Vec::new();
        let mut i: usize = 0;
        while i < n {
            samples.push(next_random(&mut state) % 5_000_000);
            i += 1;
        }
        let mut sorted: Vec<u64> = samples.clone();
        sorted.sort();
        let sum: u128 = sorted.iter().map(|v| *v as u128).sum();
        let mean: u128 = sum / n as u128;
        let squares: u128 =
            sorted.iter().map(|v| (*v as u128).abs_diff(mean) * (*v as u128).abs_diff(mean)).sum();
        let cut: usize = n / 100;
        let kept: &[u64] = &sorted[cut..n - cut];
        let kept_sum: u128 = kept.iter().map(|v| *v as u128).sum();

        let r: StatResult = StatResult::compute(&mut samples);
        assert_eq!(samples, sorted);
        assert_eq!(r.count, n);
        assert_eq!(r.min, sorted[0]);
        assert_eq!(r.max, sorted[n - 1]);
        assert_eq!(r.p50, sorted[n / 2]);
        assert_eq!(r.p99, sorted[(n - 1) * 99 / 100]);
        assert_eq!(r.mean as u128, mean);
        assert_eq!(r.trimmed_mean as u128, kept_sum / kept.len() as u128);
        assert_eq!(r.stddev as u128, root_rounded_down(squares / n as u128));
    }
}

#[test]
fn merge_agrees_with_direct_arithmetic() {
    let mut state: u64 = 77;
    let mut rounds: Vec<StatResult> = Vec::new();
    let mut k: usize = 0;
    while k < 9 {
        rounds.push(StatResult {
            mean: next_random(&mut state),
            trimmed_mean: next_random(&mut state),
            stddev: next_random(&mut state) % 100_000,
            min: next_random(&mut state),
            max: next_random(&mut state),
            p50: next_random(&mut state),
            p99: next_random(&mut state),
            count: (next_random(&mut state) % 1_000_000) as usize,
        });
        k += 1;
        let n: u128 = rounds.len() as u128;
        let m: StatResult = StatResult::merge(&rounds);
        assert_eq!(m.mean as u128, rounds.iter().map(|r| r.mean as u128).sum::<u128>() / n);
        assert_eq!(
            m.trimmed_mean as u128,
            rounds.iter().map(|r| r.trimmed_mean as u128).sum::<u128>() / n
        );
        assert_eq!(m.p50 as u128, rounds.iter().map(|r| r.p50 as u128).sum::<u128>() / n);
        assert_eq!(m.p99 as u128, rounds.iter().map(|r| r.p99 as u128).sum::<u128>() / n);
        assert_eq!(m.min, rounds.iter().map(|r| r.min).min().unwrap());
        assert_eq!(m.max, rounds.iter().map(|r| r.max).max().unwrap());
        assert_eq!(m.count, rounds.iter().map(|r| r.count).sum::<usize>());
        let squares: u128 = rounds.iter().map(|r| r.stddev as u128 * r.stddev as u128).sum();
        assert_eq!(m.stddev as u128, root_rounded_down(squares / n));
    }
}
