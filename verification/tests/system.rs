use poc_bench::system::{count_physical_cores, cpu_model_in, BenchParams, HwFeatures};

fn accounted(p: &BenchParams) -> usize {
    1 + p.n_background + p.n_workers * (1 + p.shadows_per_worker) + p.n_idle
}

#[test]
fn calculate_takes_three_quarters_of_the_cores_as_background() {
    let p: BenchParams = BenchParams::calculate(16, 8);
    assert_eq!(
        p,
        BenchParams { n_workers: 3, n_background: 6, n_idle: 0, shadows_per_worker: 2 }
    );
    let q: BenchParams = BenchParams::calculate(8, 4);
    assert_eq!(
        q,
        BenchParams { n_workers: 1, n_background: 3, n_idle: 1, shadows_per_worker: 2 }
    );
    let huge: BenchParams = BenchParams::calculate(4, usize::MAX);
    assert_eq!(huge.n_background, 2);
}

#[test]
fn overrides_replace_the_defaults() {
    let p: BenchParams = BenchParams::with_overrides(16, 8, Some(2), Some(4));
    assert_eq!(
        p,
        BenchParams { n_workers: 2, n_background: 4, n_idle: 5, shadows_per_worker: 2 }
    );
    let clamped: BenchParams = BenchParams::with_overrides(16, 8, Some(100), Some(4));
    assert_eq!(clamped.n_workers, 3);
    assert_eq!(clamped.n_idle, 2);
    let zero: BenchParams = BenchParams::with_overrides(8, 4, Some(0), None);
    assert_eq!(zero.n_workers, 1);
    assert_eq!(zero.n_background, 3);
    assert_eq!(zero.n_idle, 1);
    let same: BenchParams = BenchParams::with_overrides(16, 8, None, None);
    assert_eq!(same, BenchParams::calculate(16, 8));
}

#[test]
fn background_is_capped_to_leave_two_cpus() {
    let p: BenchParams = BenchParams::compute(8, 100, None);
    assert_eq!(p.n_background, 6);
    assert_eq!(p.shadows_per_worker, 1);
    assert_eq!(p.n_workers, 1);
    assert_eq!(p.n_idle, 0);
    let tiny: BenchParams = BenchParams::compute(1, 5, None);
    assert_eq!(
        tiny,
        BenchParams { n_workers: 1, n_background: 0, n_idle: 0, shadows_per_worker: 1 }
    );
    let none: BenchParams = BenchParams::compute(0, 0, Some(7));
    assert_eq!(none.n_workers, 1);
    assert_eq!(none.n_background, 0);
}

#[test]
fn two_shadows_from_three_free_cpus_on() {
    assert_eq!(BenchParams::compute(4, 1, None).shadows_per_worker, 1);
    assert_eq!(BenchParams::compute(4, 0, None).shadows_per_worker, 2);
    assert_eq!(BenchParams::compute(4, 0, None).n_workers, 1);
    assert_eq!(BenchParams::compute(4, 0, None).n_idle, 0);
    assert_eq!(BenchParams::compute(6, 0, None).n_idle, 2);
}

#[test]
fn every_cpu_is_accounted_for() {
    let mut ncpus: usize = 4;
    while ncpus <= 48 {
        let mut background: usize = 0;
        while background + 3 <= ncpus {
            let auto: BenchParams = BenchParams::compute(ncpus, background, None);
            assert_eq!(accounted(&auto), ncpus);
            assert!(auto.n_workers >= 1);
            let mut w: usize = 0;
            while w <= 20 {
                let p: BenchParams = BenchParams::compute(ncpus, background, Some(w));
                assert_eq!(accounted(&p), ncpus, "{} {} {}", ncpus, background, w);
                assert!(p.n_workers >= 1);
                assert!(p.n_background + p.n_workers * (1 + p.shadows_per_worker) <= ncpus - 1);
                w += 1;
            }
            background += 1;
        }
        ncpus += 1;
    }
}

#[test]
fn one_free_cpu_still_gets_a_worker_and_its_shadow() {
    let p: BenchParams = BenchParams::compute(4, 2, None);
    assert_eq!(
        p,
        BenchParams { n_workers: 1, n_background: 2, n_idle: 0, shadows_per_worker: 1 }
    );
    assert_eq!(accounted(&p), 5);
}

#[test]
fn physical_cores_are_the_distinct_pairs() {
    let ids: Vec<(i32, i32)> = vec![(0, 0), (0, 1), (0, 0), (1, 0), (0, 1), (1, 0), (1, 1)];
    assert_eq!(count_physical_cores(8, &ids), 4);
    let none: Vec<(i32, i32)> = Vec::new();
    assert_eq!(count_physical_cores(8, &none), 8);
    assert_eq!(count_physical_cores(2, &[(3, 9)]), 1);
}

#[test]
fn hardware_features_follow_the_cpuid_bits() {
    let all: HwFeatures = HwFeatures::from_cpuid(1 << 23, (1 << 3) | (1 << 8));
    assert_eq!((all.popcnt, all.ctz, all.ptselect), ("yes", "TZCNT", "PDEP"));
    let none: HwFeatures = HwFeatures::from_cpuid(!(1 << 23), !((1 << 3) | (1 << 8)));
    assert_eq!((none.popcnt, none.ctz, none.ptselect), ("no", "BSF", "SW"));
    let bmi1: HwFeatures = HwFeatures::from_cpuid(0, 1 << 3);
    assert_eq!((bmi1.popcnt, bmi1.ctz, bmi1.ptselect), ("no", "TZCNT", "SW"));
    let arm: HwFeatures = HwFeatures::aarch64();
    assert_eq!((arm.popcnt, arm.ctz, arm.ptselect), ("CNT", "RBIT+CLZ", "SW"));
    let other: HwFeatures = HwFeatures::unknown();
    assert_eq!((other.popcnt, other.ctz, other.ptselect), ("?", "?", "?"));
}

fn model(text: &[u8]) -> Option<String> {
    cpu_model_in(text).map(|m| String::from_utf8(m).unwrap())
}

#[test]
fn cpu_model_is_read_from_its_line() {
    let text: &[u8] =
        b"processor\t: 0\nvendor_id\t: GenuineIntel\nmodel\t\t: 85\nmodel name\t: Intel(R) Xeon(R) CPU @ 2.20GHz\nflags\t\t: fpu vme\n";
    assert_eq!(model(text), Some("Intel(R) Xeon(R) CPU @ 2.20GHz".to_string()));
}

#[test]
fn cpu_model_is_the_first_of_several() {
    let text: &[u8] = b"model name : first\nmodel name : second\n";
    assert_eq!(model(text), Some("first".to_string()));
    assert_eq!(model(b"model name\t: A\r\nmodel name\t: B"), Some("A".to_string()));
}

#[test]
fn cpu_model_ends_at_a_second_colon() {
    assert_eq!(model(b"model name\t: AMD: EPYC 7B13\n"), Some("AMD".to_string()));
    assert_eq!(model(b"model name:\n"), Some(String::new()));
    assert_eq!(model(b"model name:   \t"), Some(String::new()));
    assert_eq!(model(b"model name::x"), Some(String::new()));
}

#[test]
fn cpu_model_needs_the_key_at_the_start_and_a_colon() {
    assert_eq!(model(b""), None);
    assert_eq!(model(b"\n\n"), None);
    assert_eq!(model(b"processor : 0\nmodel : 85\n"), None);
    assert_eq!(model(b"the model name: x\n"), None);
    assert_eq!(model(b"model nam: x\n"), None);
    assert_eq!(model(b"model name without colon\n"), None);
    assert_eq!(
        model(b"model name without colon\nmodel name : found\n"),
        Some("found".to_string())
    );
    assert_eq!(model(b"Model Name: x\n"), None);
}
