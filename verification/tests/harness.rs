use poc_bench::harness::{
    bounded_spin_wait, collect_latencies, decide_shadow, relax, synthetic_work, DispatchAction,
    DispatchPhase, Dispatcher, RunPlan, ShadowCtx, ShadowOrder, Worker, BACKGROUND_SPINS,
    SHADOW_POLL_SPINS,
};
use poc_bench::system::BenchParams;

fn params(workers: usize, background: usize, shadows: usize) -> BenchParams {
    BenchParams {
        n_workers: workers,
        n_background: background,
        n_idle: 0,
        shadows_per_worker: shadows,
    }
}

#[test]
fn plan_lays_out_threads_and_rounds() {
    let plan: RunPlan = RunPlan::new(&params(3, 6, 2), 16, 1_000, 200);
    assert_eq!(plan.total, 1_200);
    assert_eq!(plan.total_shadows, 6);
    assert_eq!(plan.n_background, 6);
    assert_eq!(plan.progress_total(), 1_200);
    assert_eq!(plan.shadow_index(0, 0), 0);
    assert_eq!(plan.shadow_index(0, 1), 1);
    assert_eq!(plan.shadow_index(2, 1), 5);
    assert_eq!(plan.background_cpu(0), 1);
    assert_eq!(plan.background_cpu(5), 6);
}

#[test]
fn plan_caps_background_below_the_cpu_count() {
    let plan: RunPlan = RunPlan::new(&params(1, 9, 1), 4, 10, 0);
    assert_eq!(plan.n_background, 3);
    assert_eq!(plan.background_cpu(2), 3);
    let lone: RunPlan = RunPlan::new(&params(1, 9, 1), 1, 10, 0);
    assert_eq!(lone.n_background, 0);
}

#[test]
fn dispatcher_waits_for_all_workers_before_each_round() {
    let plan: RunPlan = RunPlan::new(&params(2, 0, 1), 8, 1, 1);
    let mut d: Dispatcher = Dispatcher::new(&plan);
    assert_eq!(d.phase, DispatchPhase::Priming);
    assert_eq!(d.step(0), DispatchAction::Spin);
    assert_eq!(d.step(1), DispatchAction::Spin);
    assert_eq!(d.step(2), DispatchAction::Settle { nanos: 200_000, busy: false });
    assert_eq!(d.step(0), DispatchAction::Signal { round: 0, progress: 1 });
    assert_eq!(d.phase, DispatchPhase::Await);
    assert_eq!(d.step(0), DispatchAction::Spin);
    assert_eq!(d.step(1), DispatchAction::Spin);
    assert_eq!(d.round, 1);
    assert_eq!(d.step(3), DispatchAction::Settle { nanos: 10_000, busy: true });
    assert_eq!(d.step(0), DispatchAction::Signal { round: 1, progress: 2 });
    assert_eq!(d.phase, DispatchPhase::Done);
    assert_eq!(d.step(0), DispatchAction::Shutdown);
    assert_eq!(d.step(2), DispatchAction::Shutdown);
}

#[test]
fn dispatcher_without_rounds_still_waits_for_priming() {
    let plan: RunPlan = RunPlan::new(&params(1, 0, 1), 2, 0, 0);
    let mut d: Dispatcher = Dispatcher::new(&plan);
    assert_eq!(d.step(0), DispatchAction::Spin);
    assert_eq!(d.step(1), DispatchAction::Settle { nanos: 200_000, busy: false });
    assert_eq!(d.step(0), DispatchAction::Shutdown);
}

#[test]
fn dispatcher_signals_every_round_once_and_in_order() {
    let plan: RunPlan = RunPlan::new(&params(4, 0, 2), 16, 30, 7);
    let mut d: Dispatcher = Dispatcher::new(&plan);
    let mut signalled: Vec<usize> = Vec::new();
    let mut passed_barrier: bool = false;
    let mut polls: u32 = 0;
    loop {
        // the counter reads one more at every poll, up to the worker count
        let done: u32 = polls % 5;
        polls += 1;
        match d.step(done) {
            DispatchAction::Spin => assert!(done < 4),
            DispatchAction::Settle { .. } => {
                assert_eq!(done, 4);
                passed_barrier = true;
            }
            DispatchAction::Signal { round, progress } => {
                assert!(passed_barrier);
                passed_barrier = false;
                assert_eq!(progress as usize, round + 1);
                signalled.push(round);
            }
            DispatchAction::Shutdown => break,
        }
    }
    let expected: Vec<usize> = (0..37).collect();
    assert_eq!(signalled, expected);
}

#[test]
fn worker_discards_warmup_and_records_the_rest() {
    let mut w: Worker = Worker::new(2, 3, 2);
    assert_eq!(w.latencies, vec![0, 0, 0]);
    assert!(w.active());
    assert_eq!(w.on_wake(100, 150), 0);
    assert_eq!(w.on_wake(200, 260), 1);
    assert_eq!(w.latencies, vec![0, 0, 0]);
    assert_eq!(w.on_wake(1_000, 1_500), 0);
    assert_eq!(w.latencies, vec![500, 0, 0]);
    assert_eq!(w.on_wake(2_000, 2_007), 1);
    assert!(w.active());
    assert_eq!(w.on_wake(3_000, 3_900), 0);
    assert!(!w.active());
    assert_eq!(w.round, 5);
    assert_eq!(w.into_latencies(), vec![500, 7, 900]);
}

#[test]
fn worker_with_one_shadow_always_commands_it() {
    let mut w: Worker = Worker::new(0, 4, 1);
    assert_eq!(w.on_wake(0, 1), 0);
    assert_eq!(w.on_wake(0, 2), 0);
    assert_eq!(w.on_wake(0, 3), 0);
    assert_eq!(w.on_wake(0, 4), 0);
    assert_eq!(w.into_latencies(), vec![1, 2, 3, 4]);
}

#[test]
fn worker_latency_wraps_around() {
    let mut w: Worker = Worker::new(0, 2, 2);
    w.on_wake(10, 5);
    w.on_wake(u64::MAX, 0);
    assert_eq!(w.into_latencies(), vec![u64::MAX - 4, 1]);
}

#[test]
fn worker_stopped_early_keeps_zeros() {
    let mut w: Worker = Worker::new(1, 3, 2);
    w.on_wake(0, 10);
    w.on_wake(0, 20);
    assert_eq!(w.into_latencies(), vec![20, 0, 0]);
}

#[test]
fn synthetic_work_sums_the_turns() {
    assert_eq!(synthetic_work(), 4_950);
}

#[test]
fn shadow_follows_a_pending_command() {
    let moved: ShadowOrder = decide_shadow(-1, 0, 3);
    assert_eq!(moved, ShadowOrder { migrate_to: Some(3), acknowledge: true });
    let stays: ShadowOrder = decide_shadow(3, 0, 3);
    assert_eq!(stays, ShadowOrder { migrate_to: None, acknowledge: true });
    let idle: ShadowOrder = decide_shadow(3, 1, 5);
    assert_eq!(idle, ShadowOrder { migrate_to: None, acknowledge: false });
    let no_target: ShadowOrder = decide_shadow(3, 0, -1);
    assert_eq!(no_target, ShadowOrder { migrate_to: None, acknowledge: false });
    let to_zero: ShadowOrder = decide_shadow(3, 0, 0);
    assert_eq!(to_zero, ShadowOrder { migrate_to: Some(0), acknowledge: true });
}

#[test]
fn shadow_control_block_hands_commands_over() {
    let ctx: ShadowCtx = ShadowCtx::new();
    assert!(!ctx.stopped());
    assert_eq!(ctx.poll(-1), ShadowOrder { migrate_to: None, acknowledge: false });
    ctx.request(5);
    assert_eq!(ctx.poll(-1), ShadowOrder { migrate_to: Some(5), acknowledge: true });
    assert_eq!(ctx.poll(5), ShadowOrder { migrate_to: None, acknowledge: true });
    ctx.acknowledge();
    assert_eq!(ctx.poll(5), ShadowOrder { migrate_to: None, acknowledge: false });
    ctx.halt();
    assert!(ctx.stopped());
}

#[test]
fn spin_wait_returns_with_or_without_acknowledgment() {
    let ctx: ShadowCtx = ShadowCtx::new();
    bounded_spin_wait(&ctx.ack);
    ctx.request(2);
    bounded_spin_wait(&ctx.ack);
    assert_eq!(ctx.poll(0), ShadowOrder { migrate_to: Some(2), acknowledge: true });
}

#[test]
fn relaxing_returns() {
    relax(0);
    relax(SHADOW_POLL_SPINS);
    relax(BACKGROUND_SPINS);
}

#[test]
fn samples_are_collected_worker_by_worker() {
    let per_worker: Vec<Vec<u64>> = vec![vec![1, 2, 3], vec![10, 20, 30], vec![100, 200, 300]];
    let all: Vec<u64> = collect_latencies(&per_worker);
    assert_eq!(all, vec![1, 2, 3, 10, 20, 30, 100, 200, 300]);
    let iterations: usize = 3;
    let mut w: usize = 0;
    while w < 3 {
        let mut i: usize = 0;
        while i < iterations {
            assert_eq!(all[w * iterations + i], per_worker[w][i]);
            i += 1;
        }
        w += 1;
    }
    let none: Vec<Vec<u64>> = Vec::new();
    assert!(collect_latencies(&none).is_empty());
}
