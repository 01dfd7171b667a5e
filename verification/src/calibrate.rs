//! Sizing a run to a target duration.
//!
//! Probing grows the iteration count geometrically until one probe takes a
//! second; the final count then follows in closed form from that probe's
//! cost per iteration. The caller runs the probes and measures their
//! wall-clock time; every decision is taken here.

use vstd::prelude::*;

use crate::stats::StatResult;

verus! {

/// A probe this long, in nanoseconds, ends the probing.
pub const PROBE_MIN_NS: u64 = 1_000_000_000;

/// Iterations of the first probe.
pub const PROBE_START_N: usize = 50;

/// Fewest measured iterations of a calibrated run.
pub const MIN_N: usize = 500;

/// Most measured iterations of a calibrated run, and the probe count at
/// which probing stops however fast the probe was.
pub const MAX_N: usize = 500_000;

/// Target duration of a run, warmup included, in nanoseconds.
pub const TARGET_PHASE_NS: u64 = 5_000_000_000;

/// Fewest warmup iterations of a probe.
pub const PROBE_MIN_WARMUP: usize = 10;

/// Fewest warmup iterations of a calibrated or explicitly sized run.
pub const RUN_MIN_WARMUP: usize = 100;

/// Outcome of a calibration.
#[derive(Clone, Copy, Debug, PartialEq, Eq, Structural)]
pub struct CalibrationResult {
    /// Measured iterations of each run.
    pub iterations: usize,
    /// Warmup iterations of each run.
    pub warmup: usize,
    /// Trimmed mean latency of the final probe, in nanoseconds.
    pub probe_mean_ns: u64,
    /// Standard deviation of the final probe, in nanoseconds.
    pub probe_stddev_ns: u64,
}

/// Warmup of a probe of `n` iterations: a fifth of them, at least 10.
pub open spec fn probe_warmup(n: int) -> int {
    if n / 5 >= PROBE_MIN_WARMUP { n / 5 } else { PROBE_MIN_WARMUP as int }
}

/// Warmup of a run of `n` measured iterations: a fifth of them, at least
/// 100.
pub open spec fn run_warmup(n: int) -> int {
    if n / 5 >= RUN_MIN_WARMUP { n / 5 } else { RUN_MIN_WARMUP as int }
}

/// Whether a probe of `probe_n` iterations that took `elapsed_ns` is the
/// last one.
pub open spec fn probe_is_final(probe_n: usize, elapsed_ns: u64) -> bool {
    elapsed_ns >= PROBE_MIN_NS || probe_n >= MAX_N
}

/// Iterations of the probe after one of `probe_n` iterations that took
/// `elapsed_ns`: the count estimated to take one and a half seconds, at
/// least twice the last count, and no more than a `usize` holds. A probe
/// that took no measurable time gives the largest count.
pub open spec fn scaled_probe(probe_n: usize, elapsed_ns: u64) -> int {
    if elapsed_ns == 0 {
        usize::MAX as int
    } else {
        let estimate = probe_n * 3_000_000_000 / (2 * elapsed_ns);
        let grown = if estimate >= 2 * probe_n { estimate } else { 2 * probe_n };
        if grown <= usize::MAX { grown } else { usize::MAX as int }
    }
}

/// Iterations that fill the target duration at the final probe's cost per
/// iteration, a fifth of them added as warmup:
/// `N * (1 + 1/5) * (elapsed / probed) = target`, solved for `N` and
/// rounded down. A probe that took no measurable time gives the minimum.
pub open spec fn raw_iterations(probe_n: usize, elapsed_ns: u64) -> int {
    if elapsed_ns == 0 {
        MIN_N as int
    } else {
        TARGET_PHASE_NS * 5 * (probe_n + probe_warmup(probe_n as int)) / (6 * elapsed_ns)
    }
}

/// `n` brought into `[MIN_N, MAX_N]`.
pub open spec fn clamped(n: int) -> int {
    if n < MIN_N {
        MIN_N as int
    } else if n > MAX_N {
        MAX_N as int
    } else {
        n
    }
}

/// `n` rounded to the nearest hundred, halves up.
pub open spec fn rounded(n: int) -> int {
    (n + 50) / 100 * 100
}

/// The calibrated iteration count.
pub open spec fn chosen_iterations(probe_n: usize, elapsed_ns: u64) -> int {
    rounded(clamped(raw_iterations(probe_n, elapsed_ns)))
}

/// How far a run of `n` iterations is from the target at the final probe's
/// cost per iteration, scaled by `6 * elapsed_ns / probed` so that it is an
/// integer: `6 * elapsed * n - 5 * target * probed`.
pub open spec fn target_error(n: int, probe_n: usize, elapsed_ns: u64) -> int {
    6 * elapsed_ns * n - TARGET_PHASE_NS * 5 * (probe_n + probe_warmup(probe_n as int))
}

/// The probing state: the iteration count of the probe that is due.
#[derive(Clone, Copy, Debug, PartialEq, Eq, Structural)]
pub struct Calibrator {
    pub probe_n: usize,
}

impl Calibrator {
    /// Starts probing at `PROBE_START_N` iterations.
    pub fn new() -> (c: Calibrator)
        ensures
            c.probe_n == PROBE_START_N,
    {
        Calibrator { probe_n: PROBE_START_N }
    }

    /// Measured and warmup iterations of the probe that is due.
    pub fn probe(&self) -> (counts: (usize, usize))
        ensures
            counts.0 == self.probe_n,
            counts.1 == probe_warmup(self.probe_n as int),
    {
        let fifth: usize = self.probe_n / 5;
        (self.probe_n, if fifth >= PROBE_MIN_WARMUP { fifth } else { PROBE_MIN_WARMUP })
    }

    /// Takes the wall-clock time of the probe that was due. Returns whether
    /// another probe follows; if so, its count is at least twice the last.
    /// Otherwise the state is left as it is for `finish`.
    pub fn observe(&mut self, elapsed_ns: u64) -> (again: bool)
        ensures
            again == !probe_is_final(old(self).probe_n, elapsed_ns),
            again ==> final(self).probe_n == scaled_probe(old(self).probe_n, elapsed_ns),
            again ==> old(self).probe_n < MAX_N && final(self).probe_n >= 2 * old(self).probe_n,
            !again ==> *final(self) == *old(self),
    {
        if elapsed_ns >= PROBE_MIN_NS || self.probe_n >= MAX_N {
            return false;
        }
        if elapsed_ns == 0 {
            self.probe_n = usize::MAX;
            return true;
        }
        let n: u128 = self.probe_n as u128;
        let estimate: u128 = n * 3_000_000_000 / (2 * elapsed_ns as u128);
        let grown: u128 = if estimate >= 2 * n { estimate } else { 2 * n };
        self.probe_n = if grown <= usize::MAX as u128 { grown as usize } else { usize::MAX };
        true
    }

    /// Sizes the runs from the final probe: see [`calibrate`].
    pub fn finish(&self, elapsed_ns: u64, probe: &StatResult) -> (r: CalibrationResult)
        ensures
            r == calibrated(self.probe_n, elapsed_ns, *probe),
    {
        calibrate(self.probe_n, elapsed_ns, probe)
    }
}

/// Whether `counts` are the iteration counts of successive probes that
/// took `elapsed`: the first is `PROBE_START_N`, none but the last is
/// final, and each follows from the one before by scaling.
pub open spec fn is_probing(counts: Seq<usize>, elapsed: Seq<u64>) -> bool {
    &&& counts.len() >= 1
    &&& elapsed.len() + 1 == counts.len()
    &&& counts[0] == PROBE_START_N
    &&& forall|i: int|
        0 <= i < elapsed.len() ==> !probe_is_final(#[trigger] counts[i], elapsed[i]) && counts[i
            + 1] == scaled_probe(counts[i], elapsed[i])
}

/// The least count that probe `i` can have: the first count doubled `i`
/// times.
pub open spec fn least_probe(i: nat) -> nat
    decreases i,
{
    if i == 0 {
        PROBE_START_N as nat
    } else {
        2 * least_probe((i - 1) as nat)
    }
}

/// Probing ends: every probe has at least twice the iterations of the one
/// before, so the fifteenth probe at the latest reaches the ceiling and is
/// final, however short the probes were.
pub proof fn probing_ends(counts: Seq<usize>, elapsed: Seq<u64>)
    requires
        is_probing(counts, elapsed),
    ensures
        counts.len() <= 15,
        forall|i: int| 0 <= i < counts.len() ==> #[trigger] counts[i] >= least_probe(i as nat),
{
    assert forall|i: int| 0 <= i < counts.len() implies #[trigger] counts[i] >= least_probe(
        i as nat,
    ) by {
        probes_at_least_double(counts, elapsed, i);
    }
    if counts.len() > 15 {
        probes_at_least_double(counts, elapsed, 14);
        reveal_with_fuel(least_probe, 15);
        assert(least_probe(14) == 819_200);
        assert(probe_is_final(counts[14], elapsed[14]));
    }
}

proof fn probes_at_least_double(counts: Seq<usize>, elapsed: Seq<u64>, i: int)
    requires
        is_probing(counts, elapsed),
        0 <= i < counts.len(),
    ensures
        counts[i] >= least_probe(i as nat),
    decreases i,
{
    if i > 0 {
        probes_at_least_double(counts, elapsed, i - 1);
        let n = counts[i - 1];
        let e = elapsed[i - 1];
        assert(!probe_is_final(n, e) && counts[i] == scaled_probe(n, e));
        assert(scaled_probe(n, e) >= 2 * n);
    }
}

/// The result of a calibration whose final probe had `probe_n` iterations,
/// took `elapsed_ns` and gave the aggregates `probe`.
pub open spec fn calibrated(probe_n: usize, elapsed_ns: u64, probe: StatResult)
    -> CalibrationResult {
    CalibrationResult {
        iterations: chosen_iterations(probe_n, elapsed_ns) as usize,
        warmup: run_warmup(chosen_iterations(probe_n, elapsed_ns)) as usize,
        probe_mean_ns: probe.trimmed_mean,
        probe_stddev_ns: probe.stddev,
    }
}

/// Sizes the runs from the final probe of `probe_n` iterations that took
/// `elapsed_ns` nanoseconds of wall-clock time, warmup included.
///
/// The count is a multiple of 100 within `[MIN_N, MAX_N]`. Where the
/// solution of the sizing equation lies within that range, a run of the
/// chosen count misses the target duration by at most the cost of 50
/// measured iterations and their share of warmup.
pub fn calibrate(probe_n: usize, elapsed_ns: u64, probe: &StatResult) -> (r: CalibrationResult)
    ensures
        r == calibrated(probe_n, elapsed_ns, *probe),
        r.iterations % 100 == 0,
        MIN_N <= r.iterations <= MAX_N,
        r.warmup == run_warmup(r.iterations as int),
        elapsed_ns > 0 && MIN_N <= raw_iterations(probe_n, elapsed_ns) <= MAX_N ==> -300
            * elapsed_ns <= target_error(r.iterations as int, probe_n, elapsed_ns) <= 300
            * elapsed_ns,
{
    let fifth: usize = probe_n / 5;
    let probe_warmup: usize = if fifth >= PROBE_MIN_WARMUP { fifth } else { PROBE_MIN_WARMUP };
    let probed: u128 = probe_n as u128 + probe_warmup as u128;
    let raw: u128 = if elapsed_ns == 0 {
        MIN_N as u128
    } else {
        TARGET_PHASE_NS as u128 * 5 * probed / (6 * elapsed_ns as u128)
    };
    let clamped: usize = if raw < MIN_N as u128 {
        MIN_N
    } else if raw > MAX_N as u128 {
        MAX_N
    } else {
        raw as usize
    };
    let iterations: usize = (clamped + 50) / 100 * 100;
    let run_fifth: usize = iterations / 5;
    let warmup: usize = if run_fifth >= RUN_MIN_WARMUP { run_fifth } else { RUN_MIN_WARMUP };
    proof {
        calibration_hits_target(probe_n, elapsed_ns);
    }
    CalibrationResult {
        iterations,
        warmup,
        probe_mean_ns: probe.trimmed_mean,
        probe_stddev_ns: probe.stddev,
    }
}

/// The explicit sizing: `iterations` as given, and a fifth of them as
/// warmup, at least 100.
pub fn explicit_run(iterations: usize) -> (counts: (usize, usize))
    ensures
        counts.0 == iterations,
        counts.1 == run_warmup(iterations as int),
{
    let fifth: usize = iterations / 5;
    (iterations, if fifth >= RUN_MIN_WARMUP { fifth } else { RUN_MIN_WARMUP })
}

/// The calibrated count is always a multiple of 100 within `[MIN_N,
/// MAX_N]`; and where the sizing equation has its solution within that
/// range, `N * 1.2 * cost` is within `60 * cost` of the target, `cost`
/// being the final probe's wall-clock time per iteration.
pub proof fn calibration_hits_target(probe_n: usize, elapsed_ns: u64)
    ensures
        chosen_iterations(probe_n, elapsed_ns) % 100 == 0,
        MIN_N <= chosen_iterations(probe_n, elapsed_ns) <= MAX_N,
        elapsed_ns > 0 && MIN_N <= raw_iterations(probe_n, elapsed_ns) <= MAX_N ==> -300
            * elapsed_ns <= target_error(
            chosen_iterations(probe_n, elapsed_ns),
            probe_n,
            elapsed_ns,
        ) <= 300 * elapsed_ns,
{
    let raw = raw_iterations(probe_n, elapsed_ns);
    let n = chosen_iterations(probe_n, elapsed_ns);
    if elapsed_ns > 0 && MIN_N <= raw <= MAX_N {
        let x = TARGET_PHASE_NS * 5 * (probe_n + probe_warmup(probe_n as int));
        let d = 6 * elapsed_ns;
        vstd::arithmetic::div_mod::lemma_fundamental_div_mod(x, d);
        vstd::arithmetic::div_mod::lemma_mod_bound(x, d);
        assert(raw - 49 <= n <= raw + 50);
        assert(-50 * d <= d * n - x <= 50 * d) by (nonlinear_arith)
            requires
                d > 0,
                x == d * raw + x % d,
                0 <= x % d < d,
                raw - 49 <= n <= raw + 50,
        ;
        assert(d * n == 6 * elapsed_ns * n) by (nonlinear_arith)
            requires
                d == 6 * elapsed_ns,
        ;
    }
}

} // verus!
