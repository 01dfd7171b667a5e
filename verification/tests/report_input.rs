use poc_bench::input::{is_quit_event, InputEvent, Key, KeyKind};
use poc_bench::report::{compare_values, row, Delta, Metric, Row};
use poc_bench::stats::StatResult;

#[test]
fn halved_latency_is_an_improvement_of_fifty_percent() {
    let d: Delta = compare_values(500, 1_000, true);
    assert_eq!(d, Delta { tenths: -500, falling: true, better: true });
}

#[test]
fn doubled_latency_is_no_improvement() {
    let d: Delta = compare_values(1_000, 500, true);
    assert_eq!(d, Delta { tenths: 1_000, falling: false, better: false });
}

#[test]
fn higher_throughput_is_an_improvement() {
    assert_eq!(
        compare_values(2_000_000, 1_000_000, false),
        Delta { tenths: 1_000, falling: false, better: true }
    );
    assert_eq!(
        compare_values(1_000_000, 2_000_000, false),
        Delta { tenths: -500, falling: true, better: false }
    );
}

#[test]
fn equal_or_missing_values_show_no_change() {
    assert_eq!(compare_values(700, 700, true), Delta { tenths: 0, falling: false, better: false });
    assert_eq!(compare_values(700, 0, true), Delta { tenths: 0, falling: false, better: false });
    assert_eq!(compare_values(0, 0, false), Delta { tenths: 0, falling: false, better: false });
}

#[test]
fn change_is_rounded_to_the_nearest_tenth() {
    assert_eq!(compare_values(1_001, 1_000, true).tenths, 1);
    assert_eq!(compare_values(10_005, 10_000, true).tenths, 1);
    assert_eq!(compare_values(10_004, 10_000, true).tenths, 0);
    assert_eq!(compare_values(9_995, 10_000, true).tenths, -1);
    assert_eq!(compare_values(9_996, 10_000, true).tenths, 0);
    assert!(compare_values(9_996, 10_000, true).better);
    assert_eq!(compare_values(0, 3, true).tenths, -1_000);
    assert_eq!(compare_values(u64::MAX, 1, true).tenths, (u64::MAX as i128 - 1) * 1_000);
    assert_eq!(compare_values(1, 3, true).tenths, -667);
}

#[test]
fn rows_pick_their_figure() {
    let on: StatResult = StatResult {
        mean: 500,
        trimmed_mean: 480,
        stddev: 20,
        min: 400,
        max: 900,
        p50: 490,
        p99: 800,
        count: 10,
    };
    let off: StatResult = StatResult {
        mean: 1_000,
        trimmed_mean: 960,
        stddev: 10,
        min: 800,
        max: 900,
        p50: 980,
        p99: 1_600,
        count: 10,
    };
    let mean: Row = row(Metric::Mean, &on, &off);
    assert_eq!((mean.on, mean.off, mean.delta.tenths), (500, 1_000, -500));
    assert!(mean.delta.better);
    let trimmed: Row = row(Metric::Trimmed, &on, &off);
    assert_eq!((trimmed.on, trimmed.off, trimmed.delta.tenths), (480, 960, -500));
    let p50: Row = row(Metric::Median, &on, &off);
    assert_eq!((p50.on, p50.off), (490, 980));
    let p99: Row = row(Metric::Tail, &on, &off);
    assert_eq!((p99.on, p99.off), (800, 1_600));
    let min: Row = row(Metric::Min, &on, &off);
    assert_eq!((min.on, min.off), (400, 800));
    let max: Row = row(Metric::Max, &on, &off);
    assert_eq!((max.on, max.off, max.delta.tenths), (900, 900, 0));
    assert!(!max.delta.better);
    let stddev: Row = row(Metric::Stddev, &on, &off);
    assert_eq!((stddev.on, stddev.off, stddev.delta.tenths), (20, 10, 1_000));
    assert!(!stddev.delta.better);
    let ops: Row = row(Metric::OpsPerSec, &on, &off);
    assert_eq!((ops.on, ops.off, ops.delta.tenths), (2_000_000, 1_000_000, 1_000));
    assert!(ops.delta.better);
    assert_eq!(ops.metric, Metric::OpsPerSec);
}

fn key(kind: KeyKind, c: char, ctrl: bool) -> InputEvent {
    InputEvent::Key { kind, key: Key::Char(c), ctrl }
}

#[test]
fn q_and_control_c_quit() {
    assert!(is_quit_event(&key(KeyKind::Press, 'q', false)));
    assert!(is_quit_event(&key(KeyKind::Press, 'q', true)));
    assert!(is_quit_event(&key(KeyKind::Press, 'c', true)));
}

#[test]
fn other_events_do_not_quit() {
    assert!(!is_quit_event(&key(KeyKind::Press, 'c', false)));
    assert!(!is_quit_event(&key(KeyKind::Press, 'Q', false)));
    assert!(!is_quit_event(&key(KeyKind::Press, 'x', true)));
    assert!(!is_quit_event(&key(KeyKind::Release, 'q', false)));
    assert!(!is_quit_event(&key(KeyKind::Repeat, 'q', false)));
    assert!(!is_quit_event(&key(KeyKind::Release, 'c', true)));
    assert!(!is_quit_event(&InputEvent::Key { kind: KeyKind::Press, key: Key::Other, ctrl: true }));
    assert!(!is_quit_event(&InputEvent::Other));
}
