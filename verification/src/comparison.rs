//! Sequencing of an on/off comparison: two discard runs, then measured
//! rounds in alternating order, then restoring the initial setting.
//!
//! The caller toggles the feature, runs the harness and draws; this module
//! decides what comes next and accumulates what the runs return.

use vstd::prelude::*;

use crate::histogram::Histogram;
use crate::stats::{count_total, merged, stats_of, StatResult};

verus! {

/// Setting that switches the feature under test on.
pub const FEATURE_ON: i32 = 1;

/// Setting that switches the feature under test off.
pub const FEATURE_OFF: i32 = 0;

/// Fewest measured iterations of a discard run.
pub const DISCARD_MIN_ITERATIONS: usize = 500;

/// Fewest warmup iterations of a discard run.
pub const DISCARD_MIN_WARMUP: usize = 100;

/// What the dashboard shows the session to be doing.
#[derive(Clone, Debug, PartialEq, Eq)]
pub enum Phase {
    Calibrating,
    Discard,
    Running { round: usize, total_rounds: usize, poc_on: bool },
    Error(String),
    Done,
}

/// Where a comparison stands.
#[derive(Clone, Copy, Debug, PartialEq, Eq, Structural)]
pub enum Stage {
    /// Discard run with the feature forced on.
    DiscardOn,
    /// Discard run with the feature forced off.
    DiscardOff,
    /// Measured round `round`, its first or its second half.
    Measure { round: usize, second: bool },
    /// Nothing is left but to restore the initial setting.
    Finished,
}

/// What the caller does next.
#[derive(Clone, Copy, Debug, PartialEq, Eq, Structural)]
pub enum Leg {
    /// Write `setting` to the feature toggle, run the harness with these
    /// counts, and hand the samples to `record`. The samples of a discard
    /// run are ignored.
    Run { setting: i32, iterations: usize, warmup: usize, discard: bool },
    /// Write the initial `setting` back; the comparison is over.
    Restore { setting: i32 },
}

/// Whether the feature is on in the given half of a measured round: even
/// rounds measure "on" first, odd rounds "off" first, so that a drift over
/// the session weighs on both arms alike.
pub open spec fn arm_on(round: int, second: bool) -> bool {
    (round % 2 == 0) != second
}

/// The setting for an arm.
pub open spec fn setting_of(on: bool) -> i32 {
    if on { FEATURE_ON } else { FEATURE_OFF }
}

/// Iterations of a discard run: a fifth of a measured run's, at least 500.
pub open spec fn discard_iterations(iterations: usize) -> usize {
    if iterations / 5 >= DISCARD_MIN_ITERATIONS { iterations / 5 } else { DISCARD_MIN_ITERATIONS }
}

/// Warmup of a discard run: a fifth of a measured run's, at least 100.
pub open spec fn discard_warmup(warmup: usize) -> usize {
    if warmup / 5 >= DISCARD_MIN_WARMUP { warmup / 5 } else { DISCARD_MIN_WARMUP }
}

/// The stage that follows `stage` in a comparison of `rounds` rounds.
pub open spec fn stage_after(stage: Stage, rounds: usize) -> Stage {
    match stage {
        Stage::DiscardOn => Stage::DiscardOff,
        Stage::DiscardOff => if rounds > 0 {
            Stage::Measure { round: 0, second: false }
        } else {
            Stage::Finished
        },
        Stage::Measure { round, second } => if !second {
            Stage::Measure { round, second: true }
        } else if round + 1 < rounds {
            Stage::Measure { round: (round + 1) as usize, second: false }
        } else {
            Stage::Finished
        },
        Stage::Finished => Stage::Finished,
    }
}

/// Two sample pools are the halves of every measured round: each round
/// measures the feature on exactly once and off exactly once.
pub proof fn each_round_measures_both_arms(round: int)
    ensures
        arm_on(round, false) != arm_on(round, true),
        arm_on(round, false) == (round % 2 == 0),
        arm_on(round, false) != arm_on(round + 1, false),
{
}

/// The stage of a comparison of `rounds` rounds once `k` runs have been
/// recorded: the two discard runs come first, then the two halves of each
/// round in turn.
pub open spec fn stage_at(k: nat, rounds: usize) -> Stage {
    if k == 0 {
        Stage::DiscardOn
    } else if k == 1 {
        Stage::DiscardOff
    } else if k < 2 + 2 * rounds {
        Stage::Measure { round: ((k - 2) / 2) as usize, second: (k - 2) % 2 == 1 }
    } else {
        Stage::Finished
    }
}

/// The setting of run `k` of a comparison, for `k` below `2 + 2 * rounds`:
/// on, off, then for each round on and off in the order that its parity
/// gives.
pub open spec fn setting_at(k: nat) -> i32 {
    if k == 0 {
        FEATURE_ON
    } else if k == 1 {
        FEATURE_OFF
    } else {
        setting_of(arm_on((k - 2) / 2, (k - 2) % 2 == 1))
    }
}

/// Recording a run moves a comparison from the stage of run `k` to that of
/// run `k + 1`: the stages follow the schedule whatever the runs return. The
/// schedule starts with the first discard run, and is finished after
/// `2 + 2 * rounds` runs and not before.
pub proof fn stages_follow_the_schedule(k: nat, rounds: usize)
    ensures
        stage_at(0, rounds) == Stage::DiscardOn,
        stage_after(stage_at(k, rounds), rounds) == stage_at(k + 1, rounds),
        stage_at(k, rounds) == Stage::Finished <==> k >= 2 + 2 * rounds,
        stage_at(k, rounds) matches Stage::Measure { round, .. } ==> round < rounds,
        runs_left(stage_at(k, rounds), rounds) == if k <= 2 + 2 * rounds {
            2 + 2 * rounds - k
        } else {
            0
        },
{
}

/// Runs that are still due from `stage` on in a comparison of `rounds`
/// rounds.
pub open spec fn runs_left(stage: Stage, rounds: usize) -> int {
    match stage {
        Stage::DiscardOn => 2 + 2 * rounds,
        Stage::DiscardOff => 1 + 2 * rounds,
        Stage::Measure { round, second } => 2 * (rounds - round) - if second { 1int } else { 0int },
        Stage::Finished => 0,
    }
}

/// Every recorded run brings the comparison one run closer to its end: a
/// comparison of `rounds` rounds consists of two discard runs and two runs
/// per round, and is finished exactly when none is left.
pub proof fn comparison_takes_two_runs_per_round(stage: Stage, rounds: usize)
    requires
        stage matches Stage::Measure { round, .. } ==> round < rounds,
    ensures
        stage != Stage::Finished ==> runs_left(stage_after(stage, rounds), rounds) == runs_left(
            stage,
            rounds,
        ) - 1,
        runs_left(stage, rounds) == 0 <==> stage == Stage::Finished,
        stage_after(stage, rounds) matches Stage::Measure { round, .. } ==> round < rounds,
        runs_left(Stage::DiscardOn, rounds) == 2 + 2 * rounds,
{
}

/// An on/off comparison in progress.
pub struct Comparison {
    /// Measured iterations of each measured run.
    pub iterations: usize,
    /// Warmup iterations of each measured run.
    pub warmup: usize,
    /// Measured rounds; each has an "on" and an "off" half.
    pub rounds: usize,
    /// The setting found at the start, written back at the end.
    pub initial: i32,
    /// The run that is due.
    pub stage: Stage,
    /// Aggregates of each measured "on" run that returned samples.
    pub results_on: Vec<StatResult>,
    /// Aggregates of each measured "off" run that returned samples.
    pub results_off: Vec<StatResult>,
    /// All samples of the measured "on" runs, in the order they came.
    pub all_on: Vec<u64>,
    /// All samples of the measured "off" runs, in the order they came.
    pub all_off: Vec<u64>,
}

impl Comparison {
    /// Rounds lie within the session, and each arm's pool holds exactly the
    /// samples that its per-round results count.
    pub open spec fn wf(self) -> bool {
        &&& self.stage matches Stage::Measure { round, .. } ==> round < self.rounds
        &&& count_total(self.results_on@) == self.all_on@.len()
        &&& count_total(self.results_off@) == self.all_off@.len()
        &&& self.results_on@.len() == 0 <==> self.all_on@.len() == 0
        &&& self.results_off@.len() == 0 <==> self.all_off@.len() == 0
    }

    /// What is due at the current stage.
    pub open spec fn due(self) -> Leg {
        match self.stage {
            Stage::DiscardOn => Leg::Run {
                setting: FEATURE_ON,
                iterations: discard_iterations(self.iterations),
                warmup: discard_warmup(self.warmup),
                discard: true,
            },
            Stage::DiscardOff => Leg::Run {
                setting: FEATURE_OFF,
                iterations: discard_iterations(self.iterations),
                warmup: discard_warmup(self.warmup),
                discard: true,
            },
            Stage::Measure { round, second } => Leg::Run {
                setting: setting_of(arm_on(round as int, second)),
                iterations: self.iterations,
                warmup: self.warmup,
                discard: false,
            },
            Stage::Finished => Leg::Restore { setting: self.initial },
        }
    }

    /// At the stage of run `k`, the run that is due has the setting of run
    /// `k`, full counts if it is measured and discard counts if it is not;
    /// once the schedule is finished, the restore is due.
    pub proof fn due_follows_the_schedule(self, k: nat)
        requires
            self.stage == stage_at(k, self.rounds),
        ensures
            k < 2 ==> self.due() == (Leg::Run {
                setting: setting_at(k),
                iterations: discard_iterations(self.iterations),
                warmup: discard_warmup(self.warmup),
                discard: true,
            }),
            2 <= k < 2 + 2 * self.rounds ==> self.due() == (Leg::Run {
                setting: setting_at(k),
                iterations: self.iterations,
                warmup: self.warmup,
                discard: false,
            }),
            k >= 2 + 2 * self.rounds ==> self.due() == (Leg::Restore { setting: self.initial }),
    {
    }

    /// Whether samples recorded at the current stage go to the "on" arm
    /// (`Some(true)`), the "off" arm (`Some(false)`) or nowhere.
    pub open spec fn arm(self) -> Option<bool> {
        match self.stage {
            Stage::Measure { round, second } => Some(arm_on(round as int, second)),
            _ => None,
        }
    }

    /// A comparison of `rounds` measured rounds of `iterations` measured
    /// and `warmup` warmup iterations each, which restores `initial` when
    /// it is over.
    pub fn new(iterations: usize, warmup: usize, rounds: usize, initial: i32) -> (c: Comparison)
        ensures
            c.wf(),
            c.iterations == iterations,
            c.warmup == warmup,
            c.rounds == rounds,
            c.initial == initial,
            c.stage == Stage::DiscardOn,
            c.results_on@.len() == 0,
            c.results_off@.len() == 0,
            c.all_on@.len() == 0,
            c.all_off@.len() == 0,
    {
        Comparison {
            iterations,
            warmup,
            rounds,
            initial,
            stage: Stage::DiscardOn,
            results_on: Vec::new(),
            results_off: Vec::new(),
            all_on: Vec::new(),
            all_off: Vec::new(),
        }
    }

    /// What the caller does next.
    pub fn leg(&self) -> (leg: Leg)
        ensures
            leg == self.due(),
    {
        match self.stage {
            Stage::DiscardOn => Leg::Run {
                setting: FEATURE_ON,
                iterations: at_least(self.iterations / 5, DISCARD_MIN_ITERATIONS),
                warmup: at_least(self.warmup / 5, DISCARD_MIN_WARMUP),
                discard: true,
            },
            Stage::DiscardOff => Leg::Run {
                setting: FEATURE_OFF,
                iterations: at_least(self.iterations / 5, DISCARD_MIN_ITERATIONS),
                warmup: at_least(self.warmup / 5, DISCARD_MIN_WARMUP),
                discard: true,
            },
            Stage::Measure { round, second } => {
                let on: bool = (round % 2 == 0) != second;
                Leg::Run {
                    setting: if on { FEATURE_ON } else { FEATURE_OFF },
                    iterations: self.iterations,
                    warmup: self.warmup,
                    discard: false,
                }
            },
            Stage::Finished => Leg::Restore { setting: self.initial },
        }
    }

    /// What the dashboard shows for the current stage. Rounds are shown
    /// counting from one.
    pub fn phase(&self) -> (p: Phase)
        requires
            self.wf(),
        ensures
            p == match self.stage {
                Stage::DiscardOn => Phase::Discard,
                Stage::DiscardOff => Phase::Discard,
                Stage::Measure { round, second } => Phase::Running {
                    round: (round + 1) as usize,
                    total_rounds: self.rounds,
                    poc_on: arm_on(round as int, second),
                },
                Stage::Finished => Phase::Done,
            },
    {
        match self.stage {
            Stage::DiscardOn => Phase::Discard,
            Stage::DiscardOff => Phase::Discard,
            Stage::Measure { round, second } => Phase::Running {
                round: round + 1,
                total_rounds: self.rounds,
                poc_on: (round % 2 == 0) != second,
            },
            Stage::Finished => Phase::Done,
        }
    }

    /// Takes the samples of the run that `leg` asked for and moves on.
    ///
    /// Samples of a discard run are dropped. Samples of a measured half
    /// round, unless there are none, are appended to that arm's pool, and
    /// their aggregates to that arm's results.
    pub fn record(&mut self, samples: Vec<u64>)
        requires
            old(self).wf(),
        ensures
            final(self).wf(),
            final(self).stage == stage_after(old(self).stage, old(self).rounds),
            final(self).iterations == old(self).iterations,
            final(self).warmup == old(self).warmup,
            final(self).rounds == old(self).rounds,
            final(self).initial == old(self).initial,
            final(self).all_on@ == if old(self).arm() == Some(true) {
                old(self).all_on@ + samples@
            } else {
                old(self).all_on@
            },
            final(self).all_off@ == if old(self).arm() == Some(false) {
                old(self).all_off@ + samples@
            } else {
                old(self).all_off@
            },
            final(self).results_on@ == if old(self).arm() == Some(true) && samples@.len() > 0 {
                old(self).results_on@.push(stats_of(samples@))
            } else {
                old(self).results_on@
            },
            final(self).results_off@ == if old(self).arm() == Some(false) && samples@.len() > 0 {
                old(self).results_off@.push(stats_of(samples@))
            } else {
                old(self).results_off@
            },
    {
        let mut samples = samples;
        let ghost given = samples@;
        match self.stage {
            Stage::DiscardOn => {
                self.stage = Stage::DiscardOff;
            },
            Stage::DiscardOff => {
                self.stage = if self.rounds > 0 {
                    Stage::Measure { round: 0, second: false }
                } else {
                    Stage::Finished
                };
            },
            Stage::Measure { round, second } => {
                let on: bool = (round % 2 == 0) != second;
                if samples.len() > 0 {
                    if on {
                        append_samples(&mut self.all_on, samples.as_slice());
                    } else {
                        append_samples(&mut self.all_off, samples.as_slice());
                    }
                    let stats: StatResult = StatResult::compute(samples.as_mut_slice());
                    if on {
                        proof {
                            count_total_after_push(self.results_on@, stats);
                        }
                        self.results_on.push(stats);
                    } else {
                        proof {
                            count_total_after_push(self.results_off@, stats);
                        }
                        self.results_off.push(stats);
                    }
                } else {
                    assert(self.all_on@ + given =~= self.all_on@);
                    assert(self.all_off@ + given =~= self.all_off@);
                }
                self.stage = if !second {
                    Stage::Measure { round, second: true }
                } else if round + 1 < self.rounds {
                    Stage::Measure { round: round + 1, second: false }
                } else {
                    Stage::Finished
                };
            },
            Stage::Finished => {},
        }
    }

    /// Ends the comparison early: only the restore is left.
    pub fn cancel(&mut self)
        requires
            old(self).wf(),
        ensures
            final(self).wf(),
            final(self).stage == Stage::Finished,
            final(self).due() == (Leg::Restore { setting: old(self).initial }),
            final(self).iterations == old(self).iterations,
            final(self).warmup == old(self).warmup,
            final(self).rounds == old(self).rounds,
            final(self).initial == old(self).initial,
            final(self).all_on@ == old(self).all_on@,
            final(self).all_off@ == old(self).all_off@,
            final(self).results_on@ == old(self).results_on@,
            final(self).results_off@ == old(self).results_off@,
    {
        self.stage = Stage::Finished;
    }

    /// Merged results of the "on" arm so far, once it has any.
    pub fn final_on(&self) -> (r: Option<StatResult>)
        requires
            self.wf(),
        ensures
            r == if self.results_on@.len() > 0 {
                Some(merged(self.results_on@))
            } else {
                None
            },
    {
        if self.results_on.len() > 0 {
            assert(self.all_on.len() == self.all_on@.len());
            Some(StatResult::merge(self.results_on.as_slice()))
        } else {
            None
        }
    }

    /// Merged results of the "off" arm so far, once it has any.
    pub fn final_off(&self) -> (r: Option<StatResult>)
        requires
            self.wf(),
        ensures
            r == if self.results_off@.len() > 0 {
                Some(merged(self.results_off@))
            } else {
                None
            },
    {
        if self.results_off.len() > 0 {
            assert(self.all_off.len() == self.all_off@.len());
            Some(StatResult::merge(self.results_off.as_slice()))
        } else {
            None
        }
    }

    /// Histogram of all "on" samples so far, once there are any.
    pub fn hist_on(&self) -> (h: Option<Histogram>)
        ensures
            h is Some <==> self.all_on@.len() > 0,
            h matches Some(hist) ==> hist.describes(self.all_on@) && hist.wf(),
    {
        if self.all_on.len() > 0 {
            Some(Histogram::from_samples(self.all_on.as_slice()))
        } else {
            None
        }
    }

    /// Histogram of all "off" samples so far, once there are any.
    pub fn hist_off(&self) -> (h: Option<Histogram>)
        ensures
            h is Some <==> self.all_off@.len() > 0,
            h matches Some(hist) ==> hist.describes(self.all_off@) && hist.wf(),
    {
        if self.all_off.len() > 0 {
            Some(Histogram::from_samples(self.all_off.as_slice()))
        } else {
            None
        }
    }
}

/// Appending one result adds its count to the total.
pub proof fn count_total_after_push(rs: Seq<StatResult>, r: StatResult)
    ensures
        count_total(rs.push(r)) == count_total(rs) + r.count,
{
    assert(rs.push(r).drop_last() =~= rs);
}

/// The larger of `value` and `floor`.
fn at_least(value: usize, floor: usize) -> (r: usize)
    ensures
        r == if value >= floor { value } else { floor },
{
    if value >= floor {
        value
    } else {
        floor
    }
}

/// Appends `samples` to `pool`.
fn append_samples(pool: &mut Vec<u64>, samples: &[u64])
    ensures
        final(pool)@ == old(pool)@ + samples@,
{
    let ghost before = pool@;
    let mut i: usize = 0;
    while i < samples.len()
        invariant
            i <= samples.len(),
            pool@ == before + samples@.take(i as int),
        decreases samples.len() - i,
    {
        pool.push(samples[i]);
        i = i + 1;
        assert(samples@.take(i as int) =~= samples@.take(i - 1).push(samples@[i - 1]));
    }
    assert(samples@.take(samples.len() as int) =~= samples@);
}

/// Aggregates and histogram of a single run without comparison; nothing
/// where the run returned no samples. Sorts the samples in place.
pub fn single_run(samples: &mut [u64]) -> (r: Option<(StatResult, Histogram)>)
    ensures
        r is Some <==> old(samples)@.len() > 0,
        r matches Some((stats, hist)) ==> stats == stats_of(old(samples)@) && hist.describes(
            final(samples)@,
        ) && hist.wf(),
        final(samples)@ == crate::stats::ascending(old(samples)@),
{
    if samples.len() == 0 {
        proof {
            crate::stats::ascending_is_sorted_permutation(samples@);
            assert(samples@ =~= crate::stats::ascending(samples@));
        }
        return None;
    }
    let stats: StatResult = StatResult::compute(samples);
    let hist: Histogram = Histogram::from_samples(samples);
    Some((stats, hist))
}

} // verus!
