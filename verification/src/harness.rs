//! The round protocol of one timed run: who runs where, when the dispatcher
//! may signal, what a worker records on each wake, and how a shadow follows
//! its worker.
//!
//! Threads, CPU pinning, wake descriptors and clocks belong to the caller.
//! This module holds the shared control blocks and every decision of the
//! protocol, so that the caller's loops only perform what they are told.

use std::sync::atomic::{AtomicBool, AtomicI32, Ordering};
use vstd::prelude::*;

use crate::system::BenchParams;

verus! {

/// Polls of an acknowledgment flag before a waiter gives up.
pub const SPIN_LIMIT: u32 = 2000;

/// Busy-wait between two rounds, in nanoseconds: lets shadows settle and
/// workers re-enter their blocking wait.
pub const ROUND_SETTLE_NS: u64 = 10_000;

/// Sleep after the priming handshake, in nanoseconds.
pub const PRIME_SETTLE_NS: u64 = 200_000;

/// Sleep after the dispatcher has pinned and elevated itself, in
/// milliseconds.
pub const DISPATCHER_START_MS: u64 = 50;

/// CPU that the dispatcher pins itself to; no other thread of the run is
/// placed there.
pub const DISPATCHER_CPU: usize = 0;

/// Fixed real-time priority of the dispatcher for the duration of the run.
pub const DISPATCHER_PRIORITY: i32 = 1;

/// Spin hints between two polls of a shadow's control block.
pub const SHADOW_POLL_SPINS: u32 = 1000;

/// Spin hints between two looks of a background thread at its stop flag.
pub const BACKGROUND_SPINS: u32 = 10_000;

/// Turns of the synthetic computation a worker performs after each wake.
pub const WORK_TURNS: u32 = 100;

/// `target_cpu` of a shadow that has not been commanded yet.
pub const CPU_NONE: i32 = -1;

/// `ack` while a command is pending.
pub const ACK_PENDING: i32 = 0;

/// `ack` once the shadow has carried the command out.
pub const ACK_DONE: i32 = 1;

/// `core::hint::spin_loop` only hints the processor; it returns nothing and
/// changes nothing the program can observe.
pub assume_specification[ core::hint::spin_loop ]();

// ---------------------------------------------------------------------------
// Layout of one run
// ---------------------------------------------------------------------------

/// Thread and round counts of one run, fixed before any thread starts.
#[derive(Clone, Copy, Debug, PartialEq, Eq, Structural)]
pub struct RunPlan {
    pub ncpus: usize,
    pub n_workers: usize,
    pub n_background: usize,
    pub shadows_per_worker: usize,
    pub total_shadows: usize,
    pub warmup: usize,
    pub iterations: usize,
    pub total: usize,
}

impl RunPlan {
    /// What a plan must satisfy for the run to be laid out.
    pub open spec fn wf(self) -> bool {
        &&& self.ncpus >= 1
        &&& self.n_background <= self.ncpus - 1
        &&& self.shadows_per_worker >= 1
        &&& self.total_shadows == self.n_workers * self.shadows_per_worker
        &&& self.total == self.warmup + self.iterations
        &&& self.total <= u32::MAX
    }

    /// The plan that `new` lays out.
    pub open spec fn planned(params: BenchParams, ncpus: usize, iterations: usize, warmup: usize)
        -> RunPlan {
        RunPlan {
            ncpus,
            n_workers: params.n_workers,
            n_background: if params.n_background <= ncpus - 1 {
                params.n_background
            } else {
                (ncpus - 1) as usize
            },
            shadows_per_worker: params.shadows_per_worker,
            total_shadows: (params.n_workers * params.shadows_per_worker) as usize,
            warmup,
            iterations,
            total: (warmup + iterations) as usize,
        }
    }

    /// Lays out a run of `warmup + iterations` rounds on `ncpus` CPUs.
    ///
    /// Background threads are capped at `ncpus - 1`, since CPU 0 belongs to
    /// the dispatcher. The round count must fit the 32-bit progress counter.
    pub fn new(params: &BenchParams, ncpus: usize, iterations: usize, warmup: usize) -> (plan:
        RunPlan)
        requires
            ncpus >= 1,
            params.shadows_per_worker >= 1,
            params.n_workers * params.shadows_per_worker <= usize::MAX,
            warmup + iterations <= u32::MAX,
        ensures
            plan == Self::planned(*params, ncpus, iterations, warmup),
            plan.wf(),
    {
        let cap: usize = ncpus - 1;
        RunPlan {
            ncpus,
            n_workers: params.n_workers,
            n_background: if params.n_background <= cap { params.n_background } else { cap },
            shadows_per_worker: params.shadows_per_worker,
            total_shadows: params.n_workers * params.shadows_per_worker,
            warmup,
            iterations,
            total: warmup + iterations,
        }
    }

    /// Index, among all shadows of the run, of shadow `slot` of worker
    /// `worker`. Each worker owns a contiguous block of shadows.
    pub fn shadow_index(&self, worker: usize, slot: usize) -> (idx: usize)
        requires
            self.wf(),
            worker < self.n_workers,
            slot < self.shadows_per_worker,
        ensures
            idx == worker * self.shadows_per_worker + slot,
            idx < self.total_shadows,
    {
        assert(worker * self.shadows_per_worker + slot < self.n_workers * self.shadows_per_worker)
            by (nonlinear_arith)
            requires
                worker < self.n_workers,
                slot < self.shadows_per_worker,
        ;
        worker * self.shadows_per_worker + slot
    }

    /// CPU that background thread `i` is pinned to: never CPU 0, and always
    /// a CPU of the machine.
    pub fn background_cpu(&self, i: usize) -> (cpu: usize)
        requires
            self.wf(),
            i < self.n_background,
        ensures
            cpu == i + 1,
            1 <= cpu < self.ncpus,
    {
        i + 1
    }

    /// Value of the progress counter when the run is complete.
    pub fn progress_total(&self) -> (t: u32)
        requires
            self.wf(),
        ensures
            t == self.total,
    {
        self.total as u32
    }
}

/// Two distinct (worker, slot) pairs never share a shadow.
pub proof fn shadow_blocks_are_disjoint(spw: int, w1: int, s1: int, w2: int, s2: int)
    requires
        0 <= s1 < spw,
        0 <= s2 < spw,
        0 <= w1,
        0 <= w2,
        w1 * spw + s1 == w2 * spw + s2,
    ensures
        w1 == w2 && s1 == s2,
{
    assert(w1 == w2) by (nonlinear_arith)
        requires
            0 <= s1 < spw,
            0 <= s2 < spw,
            0 <= w1,
            0 <= w2,
            w1 * spw + s1 == w2 * spw + s2,
    ;
}

// ---------------------------------------------------------------------------
// Dispatcher
// ---------------------------------------------------------------------------

/// Where the dispatcher stands between two polls of the completion counter.
#[derive(Clone, Copy, Debug, PartialEq, Eq, Structural)]
pub enum DispatchPhase {
    /// Waiting for every worker to have pinned its first shadow.
    Priming,
    /// The barrier for the current round has been passed: signal next.
    Ready,
    /// Waiting for every worker to have reported the previous round.
    Await,
    /// Every round has been signalled.
    Done,
}

/// What the dispatcher must do next.
#[derive(Clone, Copy, Debug, PartialEq, Eq, Structural)]
pub enum DispatchAction {
    /// The barrier is not complete: poll the completion counter again.
    Spin,
    /// The barrier is complete: reset the completion counter to zero, then
    /// pause for `nanos` nanoseconds, busy-waiting if `busy` and sleeping
    /// otherwise.
    Settle { nanos: u64, busy: bool },
    /// For every worker, stamp the send time of `round` and signal its wake
    /// descriptor; then publish `progress`.
    Signal { round: usize, progress: u32 },
    /// Join the workers, stop and join background and shadow threads, and
    /// restore what was saved.
    Shutdown,
}

/// The dispatcher's side of the per-round barrier.
#[derive(Clone, Copy, Debug, PartialEq, Eq, Structural)]
pub struct Dispatcher {
    pub phase: DispatchPhase,
    pub round: usize,
    pub total: usize,
    pub n_workers: usize,
}

impl Dispatcher {
    /// The round lies within the run and the phase fits it: priming comes
    /// before round 0, a round is awaited or ready only while one is left,
    /// and the dispatcher is done only when none is.
    pub open spec fn wf(self) -> bool {
        &&& self.round <= self.total
        &&& self.total <= u32::MAX
        &&& self.phase == DispatchPhase::Priming ==> self.round == 0
        &&& (self.phase == DispatchPhase::Ready || self.phase == DispatchPhase::Await)
            ==> self.round < self.total
        &&& self.phase == DispatchPhase::Done ==> self.round == self.total
    }

    /// State and action that follow a poll in which the completion counter
    /// read `done`.
    pub open spec fn after(self, done: u32) -> (Dispatcher, DispatchAction) {
        match self.phase {
            DispatchPhase::Priming => if done < self.n_workers {
                (self, DispatchAction::Spin)
            } else {
                (
                    Dispatcher {
                        phase: if self.total == 0 {
                            DispatchPhase::Done
                        } else {
                            DispatchPhase::Ready
                        },
                        ..self
                    },
                    DispatchAction::Settle { nanos: PRIME_SETTLE_NS, busy: false },
                )
            },
            DispatchPhase::Await => if done < self.n_workers {
                (self, DispatchAction::Spin)
            } else {
                (
                    Dispatcher { phase: DispatchPhase::Ready, ..self },
                    DispatchAction::Settle { nanos: ROUND_SETTLE_NS, busy: true },
                )
            },
            DispatchPhase::Ready => (
                Dispatcher {
                    phase: if self.round + 1 == self.total {
                        DispatchPhase::Done
                    } else {
                        DispatchPhase::Await
                    },
                    round: (self.round + 1) as usize,
                    ..self
                },
                DispatchAction::Signal { round: self.round, progress: (self.round + 1) as u32 },
            ),
            DispatchPhase::Done => (self, DispatchAction::Shutdown),
        }
    }

    /// A dispatcher for `plan`, waiting for the priming handshake.
    pub fn new(plan: &RunPlan) -> (d: Dispatcher)
        requires
            plan.wf(),
        ensures
            d == Dispatcher::start(plan.total, plan.n_workers),
            d.wf(),
    {
        Dispatcher {
            phase: DispatchPhase::Priming,
            round: 0,
            total: plan.total,
            n_workers: plan.n_workers,
        }
    }

    /// Advances the dispatcher by one poll. `done` is the value just read
    /// from the completion counter.
    pub fn step(&mut self, done: u32) -> (action: DispatchAction)
        requires
            old(self).wf(),
        ensures
            final(self).wf(),
            (*final(self), action) == old(self).after(done),
    {
        match self.phase {
            DispatchPhase::Priming => {
                if (done as usize) < self.n_workers {
                    DispatchAction::Spin
                } else {
                    self.phase = if self.total == 0 {
                        DispatchPhase::Done
                    } else {
                        DispatchPhase::Ready
                    };
                    DispatchAction::Settle { nanos: PRIME_SETTLE_NS, busy: false }
                }
            },
            DispatchPhase::Await => {
                if (done as usize) < self.n_workers {
                    DispatchAction::Spin
                } else {
                    self.phase = DispatchPhase::Ready;
                    DispatchAction::Settle { nanos: ROUND_SETTLE_NS, busy: true }
                }
            },
            DispatchPhase::Ready => {
                let round: usize = self.round;
                self.round = round + 1;
                self.phase = if self.round == self.total {
                    DispatchPhase::Done
                } else {
                    DispatchPhase::Await
                };
                DispatchAction::Signal { round, progress: (round + 1) as u32 }
            },
            DispatchPhase::Done => DispatchAction::Shutdown,
        }
    }
}

/// Number of rounds signalled among `actions`.
pub open spec fn signals(actions: Seq<DispatchAction>) -> nat
    decreases actions.len(),
{
    if actions.len() == 0 {
        0
    } else {
        signals(actions.drop_last()) + if actions.last() is Signal { 1nat } else { 0nat }
    }
}

impl Dispatcher {
    /// The dispatcher for `total` rounds and `n_workers` workers, before
    /// its first poll.
    pub open spec fn start(total: usize, n_workers: usize) -> Dispatcher {
        Dispatcher { phase: DispatchPhase::Priming, round: 0, total, n_workers }
    }

    /// State and actions of a dispatcher over a sequence of polls, each
    /// given by what the completion counter read.
    pub open spec fn run(self, polls: Seq<u32>) -> (Dispatcher, Seq<DispatchAction>)
        decreases polls.len(),
    {
        if polls.len() == 0 {
            (self, Seq::empty())
        } else {
            let (d, actions) = self.run(polls.drop_last());
            let (next, action) = d.after(polls.last());
            (next, actions.push(action))
        }
    }
}

/// Action `j` of a trace, if it is a signal, signals the round that is due
/// after the signals before it, with the progress counter one ahead, and
/// follows directly on a settle.
pub open spec fn signal_in_order(actions: Seq<DispatchAction>, j: int, total: usize) -> bool {
    actions[j] is Signal ==> {
        &&& actions[j] == (DispatchAction::Signal {
            round: signals(actions.take(j)) as usize,
            progress: (signals(actions.take(j)) + 1) as u32,
        })
        &&& signals(actions.take(j)) < total
        &&& j > 0
        &&& actions[j - 1] is Settle
    }
}

/// Action `j` of a trace, if it is a settle, was granted by a poll that saw
/// every worker report.
pub open spec fn settle_after_barrier(
    actions: Seq<DispatchAction>,
    polls: Seq<u32>,
    j: int,
    n_workers: usize,
) -> bool {
    actions[j] is Settle ==> polls[j] >= n_workers
}

/// Action `j` of a trace, if it is the shutdown, comes after all rounds
/// have been signalled.
pub open spec fn shutdown_at_end(actions: Seq<DispatchAction>, j: int, total: usize) -> bool {
    actions[j] is Shutdown ==> signals(actions.take(j)) == total
}

/// What holds of a dispatcher and its actions after any sequence of polls.
pub open spec fn trace_in_order(
    total: usize,
    n_workers: usize,
    polls: Seq<u32>,
    d: Dispatcher,
    actions: Seq<DispatchAction>,
) -> bool {
    &&& d.wf()
    &&& d.total == total
    &&& d.n_workers == n_workers
    &&& actions.len() == polls.len()
    &&& d.round == signals(actions)
    &&& d.phase == DispatchPhase::Ready ==> actions.len() > 0 && actions.last() is Settle
    &&& forall|j: int| 0 <= j < actions.len() ==> #[trigger] signal_in_order(actions, j, total)
    &&& forall|j: int|
        0 <= j < actions.len() ==> #[trigger] settle_after_barrier(actions, polls, j, n_workers)
    &&& forall|j: int| 0 <= j < actions.len() ==> #[trigger] shutdown_at_end(actions, j, total)
}

/// One more poll keeps a trace in order.
proof fn trace_stays_in_order(
    total: usize,
    n_workers: usize,
    polls: Seq<u32>,
    d: Dispatcher,
    actions: Seq<DispatchAction>,
    done: u32,
)
    requires
        trace_in_order(total, n_workers, polls, d, actions),
    ensures
        trace_in_order(
            total,
            n_workers,
            polls.push(done),
            d.after(done).0,
            actions.push(d.after(done).1),
        ),
{
    let next = d.after(done).0;
    let action = d.after(done).1;
    let longer = actions.push(action);
    let asked = polls.push(done);
    let n = actions.len() as int;
    assert(longer.drop_last() =~= actions);
    assert(longer.take(n) =~= actions);
    assert(next.round == signals(longer));
    assert forall|j: int| 0 <= j < longer.len() implies #[trigger] signal_in_order(
        longer,
        j,
        total,
    ) by {
        if j < n {
            assert(signal_in_order(actions, j, total));
            assert(longer.take(j) =~= actions.take(j));
        }
    }
    assert forall|j: int| 0 <= j < longer.len() implies #[trigger] settle_after_barrier(
        longer,
        asked,
        j,
        n_workers,
    ) by {
        if j < n {
            assert(settle_after_barrier(actions, polls, j, n_workers));
        }
    }
    assert forall|j: int| 0 <= j < longer.len() implies #[trigger] shutdown_at_end(
        longer,
        j,
        total,
    ) by {
        if j < n {
            assert(shutdown_at_end(actions, j, total));
            assert(longer.take(j) =~= actions.take(j));
        }
    }
}

/// Whatever the completion counter reads, over any number of polls: the
/// rounds are signalled in order and each once, with the progress counter
/// one ahead of the round; every signal follows directly on a settle,
/// which was granted by a poll that saw every worker report; and shutdown
/// comes only when all rounds have been signalled.
pub proof fn dispatcher_signals_rounds_in_order(total: usize, n_workers: usize, polls: Seq<u32>)
    requires
        total <= u32::MAX,
    ensures
        trace_in_order(
            total,
            n_workers,
            polls,
            Dispatcher::start(total, n_workers).run(polls).0,
            Dispatcher::start(total, n_workers).run(polls).1,
        ),
    decreases polls.len(),
{
    let start = Dispatcher::start(total, n_workers);
    if polls.len() > 0 {
        let earlier = polls.drop_last();
        dispatcher_signals_rounds_in_order(total, n_workers, earlier);
        trace_stays_in_order(
            total,
            n_workers,
            earlier,
            start.run(earlier).0,
            start.run(earlier).1,
            polls.last(),
        );
        assert(earlier.push(polls.last()) =~= polls);
    }
}

/// The barrier: a round is signalled only from `Ready`, and `Ready` is
/// entered only by a poll that saw every worker report. So round `i + 1` is
/// never signalled before all workers have acknowledged round `i`. Rounds
/// are signalled in order, the progress counter grows by one with each, and
/// shutdown comes only after the last round.
pub proof fn dispatcher_respects_barrier(d: Dispatcher, done: u32)
    requires
        d.wf(),
    ensures
        d.after(done).0.wf(),
        d.after(done).0.phase == DispatchPhase::Ready ==> d.phase != DispatchPhase::Ready && done
            >= d.n_workers,
        d.after(done).1 is Signal ==> d.phase == DispatchPhase::Ready && d.after(done).1
            == (DispatchAction::Signal { round: d.round, progress: (d.round + 1) as u32 })
            && d.after(done).0.round == d.round + 1 && d.after(done).0.phase
            != DispatchPhase::Ready,
        !(d.after(done).1 is Signal) ==> d.after(done).0.round == d.round,
        d.after(done).1 is Shutdown <==> d.round == d.total && d.phase == DispatchPhase::Done,
        d.after(done).1 is Spin ==> d.after(done).0 == d && done < d.n_workers,
{
}

// ---------------------------------------------------------------------------
// Worker
// ---------------------------------------------------------------------------

/// A worker's private bookkeeping over the rounds of one run.
///
/// The latency array has one slot per measured round; warmup rounds are
/// woken and timed like the others but leave no sample.
pub struct Worker {
    /// Rounds at the start of the run that leave no sample.
    pub warmup: usize,
    /// Rounds in all, warmup included.
    pub total: usize,
    /// Shadows that this worker drives: one or two.
    pub n_shadows: usize,
    /// The round whose wake is awaited; `total` once the run is over.
    pub round: usize,
    /// The shadow to command after the next wake.
    pub slot: usize,
    /// One sample per measured round, zero until the round has been woken.
    pub latencies: Vec<u64>,
}

/// Latency of one wake: receive time minus send time, modulo 2^64.
pub open spec fn wake_latency(sent_ns: u64, woke_ns: u64) -> u64 {
    if woke_ns >= sent_ns {
        (woke_ns - sent_ns) as u64
    } else {
        (woke_ns - sent_ns + 0x1_0000_0000_0000_0000) as u64
    }
}

/// The samples of a worker that has not been woken yet: one zero for each
/// measured round.
pub open spec fn unrecorded(iterations: nat) -> Seq<u64> {
    Seq::new(iterations, |i: int| 0u64)
}

/// The samples of a worker after one more wake, in `round`: a warmup round
/// leaves them as they are, measured round `r` fills slot `r - warmup`.
pub open spec fn woken(latencies: Seq<u64>, warmup: int, round: int, sent_ns: u64, woke_ns: u64)
    -> Seq<u64> {
    if round >= warmup {
        latencies.update(round - warmup, wake_latency(sent_ns, woke_ns))
    } else {
        latencies
    }
}

/// The samples of a worker of `iterations` measured rounds after the wakes
/// `wakes`, each given by its send and its receive time.
pub open spec fn after_wakes(warmup: nat, iterations: nat, wakes: Seq<(u64, u64)>) -> Seq<u64>
    decreases wakes.len(),
{
    if wakes.len() == 0 {
        unrecorded(iterations)
    } else {
        woken(
            after_wakes(warmup, iterations, wakes.drop_last()),
            warmup as int,
            wakes.len() - 1,
            wakes.last().0,
            wakes.last().1,
        )
    }
}

/// A worker's samples are the latencies of its measured rounds, in round
/// order: the wakes of the warmup rounds leave no trace, and rounds that
/// have not been woken yet read zero.
pub proof fn worker_records_measured_rounds(
    warmup: nat,
    iterations: nat,
    wakes: Seq<(u64, u64)>,
)
    requires
        wakes.len() <= warmup + iterations,
    ensures
        after_wakes(warmup, iterations, wakes).len() == iterations,
        forall|i: int|
            0 <= i < iterations ==> #[trigger] after_wakes(warmup, iterations, wakes)[i] == if warmup
                + i < wakes.len() {
                wake_latency(wakes[warmup + i].0, wakes[warmup + i].1)
            } else {
                0
            },
    decreases wakes.len(),
{
    if wakes.len() > 0 {
        let earlier = wakes.drop_last();
        worker_records_measured_rounds(warmup, iterations, earlier);
        let before = after_wakes(warmup, iterations, earlier);
        assert forall|i: int| 0 <= i < iterations implies #[trigger] after_wakes(
            warmup,
            iterations,
            wakes,
        )[i] == if warmup + i < wakes.len() {
            wake_latency(wakes[warmup + i].0, wakes[warmup + i].1)
        } else {
            0
        } by {
            assert(before[i] == if warmup + i < earlier.len() {
                wake_latency(earlier[warmup + i].0, earlier[warmup + i].1)
            } else {
                0
            });
            if warmup + i < earlier.len() {
                assert(earlier[warmup + i] == wakes[warmup + i]);
            }
        }
    }
}

/// Shadow slot that a worker with `n_shadows` shadows commands after its
/// wake in `round`: the two slots alternate where there are two.
pub open spec fn slot_of_round(n_shadows: usize, round: int) -> int {
    if n_shadows > 1 { round % 2 } else { 0 }
}

impl Worker {
    /// The round lies within the run, the slot is the one that the round
    /// gives, and there is one sample slot for each measured round.
    pub open spec fn wf(self) -> bool {
        &&& self.warmup <= self.total
        &&& self.round <= self.total
        &&& self.n_shadows >= 1
        &&& self.slot == slot_of_round(self.n_shadows, self.round as int)
        &&& self.latencies@.len() == self.total - self.warmup
    }

    /// A worker before its first wake: round 0, first shadow, every sample
    /// slot zero.
    pub fn new(warmup: usize, iterations: usize, n_shadows: usize) -> (w: Worker)
        requires
            n_shadows >= 1,
            warmup + iterations <= usize::MAX,
        ensures
            w.wf(),
            w.warmup == warmup,
            w.total == warmup + iterations,
            w.n_shadows == n_shadows,
            w.round == 0,
            w.slot == 0,
            w.latencies@ == unrecorded(iterations as nat),
    {
        let mut latencies: Vec<u64> = Vec::new();
        let mut i: usize = 0;
        while i < iterations
            invariant
                i <= iterations,
                latencies@ == unrecorded(i as nat),
            decreases iterations - i,
        {
            latencies.push(0);
            i = i + 1;
            assert(latencies@ =~= unrecorded(i as nat));
        }
        Worker { warmup, total: warmup + iterations, n_shadows, round: 0, slot: 0, latencies }
    }

    /// Whether another wake is expected.
    pub fn active(&self) -> (b: bool)
        ensures
            b == (self.round < self.total),
    {
        self.round < self.total
    }

    /// Records one wake. `sent_ns` is the dispatcher's stamp for this round,
    /// `woke_ns` the worker's own clock reading on return from its blocking
    /// wait. Returns the shadow slot to command next.
    ///
    /// A warmup round leaves the samples untouched; measured round `r`
    /// fills slot `r - warmup`.
    pub fn on_wake(&mut self, sent_ns: u64, woke_ns: u64) -> (slot: usize)
        requires
            old(self).wf(),
            old(self).round < old(self).total,
        ensures
            final(self).wf(),
            slot == old(self).slot,
            slot < old(self).n_shadows,
            final(self).round == old(self).round + 1,
            final(self).warmup == old(self).warmup,
            final(self).total == old(self).total,
            final(self).n_shadows == old(self).n_shadows,
            final(self).latencies@ == woken(
                old(self).latencies@,
                old(self).warmup as int,
                old(self).round as int,
                sent_ns,
                woke_ns,
            ),
    {
        let slot: usize = self.slot;
        if self.round >= self.warmup {
            let latency: u64 = woke_ns.wrapping_sub(sent_ns);
            self.latencies.set(self.round - self.warmup, latency);
        }
        if self.n_shadows > 1 {
            self.slot = 1 - self.slot;
        }
        self.round = self.round + 1;
        slot
    }

    /// The samples, one per measured round, in round order.
    pub fn into_latencies(self) -> (v: Vec<u64>)
        ensures
            v@ == self.latencies@,
    {
        self.latencies
    }
}

/// The fixed computation a worker performs after each wake, standing for
/// the work a real thread would do: the sum of the turn numbers.
pub fn synthetic_work() -> (x: u32)
    ensures
        x == 4950,
{
    let mut x: u32 = 0;
    let mut j: u32 = 0;
    while j < WORK_TURNS
        invariant
            j <= WORK_TURNS,
            2 * x == j * (j - 1),
        decreases WORK_TURNS - j,
    {
        assert(2 * (x + j) == (j + 1) * j) by (nonlinear_arith)
            requires
                2 * x == j * (j - 1),
        ;
        assert(j * (j - 1) <= 100 * 100) by (nonlinear_arith)
            requires
                0 <= j <= 100,
        ;
        x = x.wrapping_add(j);
        j = j + 1;
    }
    assert(100 * 99 == 9900) by (nonlinear_arith);
    x
}

// ---------------------------------------------------------------------------
// Shadow
// ---------------------------------------------------------------------------

/// Control block shared by a shadow thread and the worker that drives it.
///
/// The worker publishes `target_cpu` and clears `ack`; the shadow alone sets
/// `ack` back. All accesses are release/acquire, so a command is seen only
/// once it is fully written, and an acknowledgment only once the migration
/// has happened.
pub struct ShadowCtx {
    pub target_cpu: AtomicI32,
    pub ack: AtomicI32,
    pub stop: AtomicBool,
}

/// What a shadow does with a pending command.
#[derive(Clone, Copy, Debug, PartialEq, Eq, Structural)]
pub struct ShadowOrder {
    /// CPU to move to, where it differs from the current one.
    pub migrate_to: Option<i32>,
    /// Whether the command is then acknowledged.
    pub acknowledge: bool,
}

/// The order for a shadow on `cur_cpu` that sees `ack` and `target`.
pub open spec fn shadow_order(cur_cpu: i32, ack: i32, target: i32) -> ShadowOrder {
    if ack == ACK_PENDING && target >= 0 {
        ShadowOrder {
            migrate_to: if target != cur_cpu { Some(target) } else { None },
            acknowledge: true,
        }
    } else {
        ShadowOrder { migrate_to: None, acknowledge: false }
    }
}

impl ShadowCtx {
    /// An idle shadow: no target, nothing pending, not stopped.
    ///
    /// The three values are handed to atomics, whose content the proofs
    /// cannot see; so no clause can speak of them.
    pub fn new() -> ShadowCtx {
        ShadowCtx {
            target_cpu: AtomicI32::new(CPU_NONE),
            ack: AtomicI32::new(ACK_DONE),
            stop: AtomicBool::new(false),
        }
    }

    /// Worker side: commands the shadow to follow to `cpu`.
    pub fn request(&self, cpu: i32) {
        self.ack.store(ACK_PENDING, Ordering::Release);
        self.target_cpu.store(cpu, Ordering::Release);
    }

    /// Shadow side: one poll of the control block. The target is read only
    /// while a command is pending.
    pub fn poll(&self, cur_cpu: i32) -> (order: ShadowOrder)
        ensures
            exists|ack: i32, target: i32| order == shadow_order(cur_cpu, ack, target),
    {
        let ack: i32 = self.ack.load(Ordering::Acquire);
        if ack == ACK_PENDING {
            let target: i32 = self.target_cpu.load(Ordering::Acquire);
            let order = decide_shadow(cur_cpu, ack, target);
            assert(order == shadow_order(cur_cpu, ack, target));
            order
        } else {
            let order = decide_shadow(cur_cpu, ack, CPU_NONE);
            assert(order == shadow_order(cur_cpu, ack, CPU_NONE));
            order
        }
    }

    /// Shadow side: reports the pending command as carried out.
    pub fn acknowledge(&self) {
        self.ack.store(ACK_DONE, Ordering::Release);
    }

    /// Whether the shadow has been told to stop.
    ///
    /// The flag is read from an atomic that another thread may set at any
    /// time: nothing holds of every outcome, so there is no clause.
    pub fn stopped(&self) -> bool {
        self.stop.load(Ordering::Relaxed)
    }

    /// Tells the shadow to stop.
    pub fn halt(&self) {
        self.stop.store(true, Ordering::Relaxed);
    }
}

/// Decides what a shadow on `cur_cpu` does on seeing `ack` and `target`: a
/// pending command with a valid target is acknowledged, after a migration
/// if the target differs from the current CPU; anything else is left alone.
pub fn decide_shadow(cur_cpu: i32, ack: i32, target: i32) -> (order: ShadowOrder)
    ensures
        order == shadow_order(cur_cpu, ack, target),
{
    if ack == ACK_PENDING && target >= 0 {
        ShadowOrder {
            migrate_to: if target != cur_cpu { Some(target) } else { None },
            acknowledge: true,
        }
    } else {
        ShadowOrder { migrate_to: None, acknowledge: false }
    }
}

/// Spins for `spins` hints to the processor, without giving up the CPU.
pub fn relax(spins: u32) {
    let mut i: u32 = 0;
    while i < spins
        invariant
            i <= spins,
        decreases spins - i,
    {
        core::hint::spin_loop();
        i = i + 1;
    }
}

/// Waits for `ack` to leave the pending state, for at most `SPIN_LIMIT`
/// polls. The bound counts polls, not time: on return the acknowledgment
/// may still be outstanding.
pub fn bounded_spin_wait(ack: &AtomicI32) {
    let mut polls: u32 = 0;
    while polls < SPIN_LIMIT
        invariant
            polls <= SPIN_LIMIT,
        decreases SPIN_LIMIT - polls,
    {
        if ack.load(Ordering::Acquire) != ACK_PENDING {
            return ;
        }
        core::hint::spin_loop();
        polls = polls + 1;
    }
}

// ---------------------------------------------------------------------------
// Collecting the samples
// ---------------------------------------------------------------------------

/// The samples of all workers as one sequence: worker 0's first, each
/// worker's in round order.
pub open spec fn flattened(per_worker: Seq<Vec<u64>>) -> Seq<u64>
    decreases per_worker.len(),
{
    if per_worker.len() == 0 {
        Seq::empty()
    } else {
        flattened(per_worker.drop_last()) + per_worker.last()@
    }
}

/// Concatenates the per-worker samples into the result of the run.
pub fn collect_latencies(per_worker: &Vec<Vec<u64>>) -> (all: Vec<u64>)
    ensures
        all@ == flattened(per_worker@),
{
    let mut all: Vec<u64> = Vec::new();
    let mut w: usize = 0;
    while w < per_worker.len()
        invariant
            w <= per_worker.len(),
            all@ == flattened(per_worker@.take(w as int)),
        decreases per_worker.len() - w,
    {
        let row = &per_worker[w];
        let ghost before = all@;
        let mut i: usize = 0;
        while i < row.len()
            invariant
                i <= row.len(),
                all@ == before + row@.take(i as int),
            decreases row.len() - i,
        {
            all.push(row[i]);
            i = i + 1;
            assert(row@.take(i as int) =~= row@.take(i - 1).push(row@[i - 1]));
        }
        assert(row@.take(row.len() as int) =~= row@);
        assert(per_worker@.take(w + 1).drop_last() =~= per_worker@.take(w as int));
        w = w + 1;
    }
    assert(per_worker@.take(per_worker.len() as int) =~= per_worker@);
    all
}

/// Position in the result of sample `i` of worker `w`, where every worker
/// holds `iterations` samples.
pub open spec fn sample_position(w: int, iterations: nat, i: int) -> int {
    w * iterations + i
}

/// With `n` workers of `iterations` samples each, the result is
/// `iterations * n` long and sample `i` of worker `w` stands at
/// `w * iterations + i`.
pub proof fn flattened_layout(per_worker: Seq<Vec<u64>>, iterations: nat)
    requires
        forall|w: int| 0 <= w < per_worker.len() ==> (#[trigger] per_worker[w])@.len() == iterations,
    ensures
        flattened(per_worker).len() == iterations * per_worker.len(),
        forall|w: int, i: int|
            0 <= w < per_worker.len() && 0 <= i < iterations ==> {
                let k = #[trigger] sample_position(w, iterations, i);
                &&& 0 <= k < flattened(per_worker).len()
                &&& flattened(per_worker)[k] == per_worker[w]@[i]
            },
    decreases per_worker.len(),
{
    if per_worker.len() > 0 {
        let head = per_worker.drop_last();
        let n = head.len() as int;
        let flat = flattened(head);
        flattened_layout(head, iterations);
        assert(flattened(per_worker) == flat + per_worker.last()@);
        assert(iterations * per_worker.len() == iterations * n + iterations) by (nonlinear_arith)
            requires
                per_worker.len() == n + 1,
        ;
        assert forall|w: int, i: int|
            0 <= w < per_worker.len() && 0 <= i < iterations implies {
                let k = #[trigger] sample_position(w, iterations, i);
                &&& 0 <= k < flattened(per_worker).len()
                &&& flattened(per_worker)[k] == per_worker[w]@[i]
            } by {
            let k = sample_position(w, iterations, i);
            assert(0 <= k < iterations * n + iterations && (w < n ==> k < iterations * n) && (w
                == n ==> k == iterations * n + i)) by (nonlinear_arith)
                requires
                    0 <= w <= n,
                    0 <= i < iterations,
                    k == w * iterations + i,
            ;
            if w < n {
                assert(head[w] == per_worker[w]);
                assert(sample_position(w, iterations, i) == k);
                assert(flat[k] == head[w]@[i]);
            }
        }
    }
}

} // verus!
