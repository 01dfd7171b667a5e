use poc_bench::comparison::{single_run, Comparison, Leg, Phase, Stage};
use poc_bench::histogram::Histogram;
use poc_bench::report::{row, Metric, Row};
use poc_bench::stats::StatResult;

/// Runs a whole comparison against a harness that returns `n` samples of
/// 500 ns with the feature on and of 1000 ns with it off.
fn run_uniform(c: &mut Comparison, n: usize) -> Vec<i32> {
    let mut settings: Vec<i32> = Vec::new();
    loop {
        match c.leg() {
            Leg::Run { setting, .. } => {
                settings.push(setting);
                let latency: u64 = if setting == 1 { 500 } else { 1_000 };
                c.record(vec![latency; n]);
            }
            Leg::Restore { setting } => {
                settings.push(setting);
                return settings;
            }
        }
    }
}

#[test]
fn two_round_comparison_of_uniform_arms() {
    let mut c: Comparison = Comparison::new(1_000, 200, 2, 7);
    let settings: Vec<i32> = run_uniform(&mut c, 50);
    assert_eq!(settings, vec![1, 0, 1, 0, 0, 1, 7]);
    let on: StatResult = c.final_on().unwrap();
    let off: StatResult = c.final_off().unwrap();
    assert_eq!(on.mean, 500);
    assert_eq!(off.mean, 1_000);
    assert_eq!(on.count, 100);
    assert_eq!(off.count, 100);
    let mean: Row = row(Metric::Mean, &on, &off);
    assert_eq!(mean.delta.tenths, -500);
    assert!(mean.delta.better);
    assert!(mean.delta.falling);
    let ops: Row = row(Metric::OpsPerSec, &on, &off);
    assert_eq!((ops.on, ops.off), (2_000_000, 1_000_000));
    assert_eq!(ops.delta.tenths, 1_000);
    assert!(ops.delta.better);
    let hist_on: Histogram = c.hist_on().unwrap();
    let hist_off: Histogram = c.hist_off().unwrap();
    assert_eq!(hist_on.buckets[0], 100);
    assert_eq!(hist_off.buckets[1], 100);
    assert_eq!(hist_on.total, 100);
}

#[test]
fn rounds_alternate_which_arm_goes_first() {
    let mut c: Comparison = Comparison::new(5_000, 1_000, 3, 0);
    let settings: Vec<i32> = run_uniform(&mut c, 1);
    assert_eq!(settings, vec![1, 0, 1, 0, 0, 1, 1, 0, 0]);
    assert_eq!(c.results_on.len(), 3);
    assert_eq!(c.results_off.len(), 3);
}

#[test]
fn discard_runs_are_a_fifth_with_floors() {
    let mut c: Comparison = Comparison::new(10_000, 2_000, 1, 1);
    assert_eq!(c.stage, Stage::DiscardOn);
    assert_eq!(c.phase(), Phase::Discard);
    assert_eq!(
        c.leg(),
        Leg::Run { setting: 1, iterations: 2_000, warmup: 400, discard: true }
    );
    c.record(vec![1, 2, 3]);
    assert_eq!(c.stage, Stage::DiscardOff);
    assert_eq!(
        c.leg(),
        Leg::Run { setting: 0, iterations: 2_000, warmup: 400, discard: true }
    );
    c.record(vec![4, 5, 6]);
    assert!(c.all_on.is_empty() && c.all_off.is_empty());
    assert!(c.final_on().is_none() && c.hist_off().is_none());
    assert_eq!(
        c.leg(),
        Leg::Run { setting: 1, iterations: 10_000, warmup: 2_000, discard: false }
    );
    assert_eq!(c.phase(), Phase::Running { round: 1, total_rounds: 1, poc_on: true });

    let small: Comparison = Comparison::new(1_000, 200, 1, 1);
    assert_eq!(
        small.leg(),
        Leg::Run { setting: 1, iterations: 500, warmup: 100, discard: true }
    );
}

#[test]
fn measured_samples_go_to_their_arm() {
    let mut c: Comparison = Comparison::new(1_000, 200, 2, 1);
    c.record(Vec::new());
    c.record(Vec::new());
    c.record(vec![30, 10, 20]);
    assert_eq!(c.all_on, vec![30, 10, 20]);
    assert_eq!(c.results_on.len(), 1);
    assert_eq!(c.results_on[0].p50, 20);
    assert_eq!(c.stage, Stage::Measure { round: 0, second: true });
    assert_eq!(c.phase(), Phase::Running { round: 1, total_rounds: 2, poc_on: false });
    c.record(vec![2_000]);
    assert_eq!(c.all_off, vec![2_000]);
    assert_eq!(c.stage, Stage::Measure { round: 1, second: false });
    assert_eq!(c.phase(), Phase::Running { round: 2, total_rounds: 2, poc_on: false });
    c.record(vec![4_000, 6_000]);
    assert_eq!(c.all_off, vec![2_000, 4_000, 6_000]);
    assert_eq!(c.final_off().unwrap().mean, 3_500);
    assert_eq!(c.final_off().unwrap().count, 3);
    assert_eq!(c.hist_off().unwrap().buckets, [0, 0, 1, 2, 0, 0, 0, 0, 0]);
}

#[test]
fn a_run_without_samples_leaves_no_result() {
    let mut c: Comparison = Comparison::new(1_000, 200, 1, 1);
    c.record(Vec::new());
    c.record(Vec::new());
    c.record(Vec::new());
    assert!(c.results_on.is_empty());
    assert!(c.final_on().is_none());
    assert!(c.hist_on().is_none());
    assert_eq!(c.stage, Stage::Measure { round: 0, second: true });
    c.record(vec![1_500]);
    assert_eq!(c.stage, Stage::Finished);
    assert_eq!(c.leg(), Leg::Restore { setting: 1 });
    assert_eq!(c.phase(), Phase::Done);
    c.record(vec![9]);
    assert_eq!(c.stage, Stage::Finished);
    assert_eq!(c.all_off, vec![1_500]);
    assert_eq!(c.all_on, Vec::<u64>::new());
}

#[test]
fn cancelling_leaves_only_the_restore() {
    let mut c: Comparison = Comparison::new(1_000, 200, 4, -1);
    c.record(Vec::new());
    c.cancel();
    assert_eq!(c.stage, Stage::Finished);
    assert_eq!(c.leg(), Leg::Restore { setting: -1 });
    let mut d: Comparison = Comparison::new(1_000, 200, 4, 3);
    d.record(Vec::new());
    d.record(Vec::new());
    d.record(vec![100]);
    d.cancel();
    assert_eq!(d.leg(), Leg::Restore { setting: 3 });
    assert_eq!(d.final_on().unwrap().mean, 100);
}

#[test]
fn no_rounds_means_discards_then_restore() {
    let mut c: Comparison = Comparison::new(1_000, 200, 0, 5);
    let settings: Vec<i32> = run_uniform(&mut c, 3);
    assert_eq!(settings, vec![1, 0, 5]);
    assert!(c.final_on().is_none() && c.final_off().is_none());
}

#[test]
fn a_single_run_gives_aggregates_and_histogram() {
    let mut samples: Vec<u64> = vec![3_000, 1_000, 2_000];
    let (stats, hist): (StatResult, Histogram) = single_run(&mut samples).unwrap();
    assert_eq!(samples, vec![1_000, 2_000, 3_000]);
    assert_eq!(stats.mean, 2_000);
    assert_eq!(stats.p50, 2_000);
    assert_eq!(hist.buckets, [0, 1, 2, 0, 0, 0, 0, 0, 0]);
    let mut none: Vec<u64> = Vec::new();
    assert!(single_run(&mut none).is_none());
}
