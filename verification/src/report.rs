//! Comparing the two arms: relative change and which way is better.

use vstd::prelude::*;

use crate::stats::{ops_of, StatResult};

verus! {

/// A figure of the summary.
#[derive(Clone, Copy, Debug, PartialEq, Eq, Structural)]
pub enum Metric {
    Mean,
    Trimmed,
    /// The 50th percentile.
    Median,
    /// The 99th percentile.
    Tail,
    Min,
    Max,
    Stddev,
    OpsPerSec,
}

/// Change of a figure from the "off" arm to the "on" arm.
#[derive(Clone, Copy, Debug, PartialEq, Eq, Structural)]
pub struct Delta {
    /// The change in tenths of a percent of the "off" value, rounded to the
    /// nearest, halves away from zero; 0 where the "off" value is 0.
    pub tenths: i128,
    /// The "on" value is below the "off" value.
    pub falling: bool,
    /// The change is an improvement.
    pub better: bool,
}

/// One line of the summary.
#[derive(Clone, Copy, Debug, PartialEq, Eq, Structural)]
pub struct Row {
    pub metric: Metric,
    pub on: u64,
    pub off: u64,
    pub delta: Delta,
}

/// `(on - off) / off` in tenths of a percent, rounded to the nearest,
/// halves away from zero; 0 where `off` is 0.
pub open spec fn delta_tenths(on: u64, off: u64) -> int {
    if off == 0 {
        0
    } else if on >= off {
        (2 * ((on - off) * 1000) + off) / (2 * off)
    } else {
        -((2 * ((off - on) * 1000) + off) / (2 * off))
    }
}

/// The change from `off` to `on` of a figure for which lower values are
/// better, or higher ones.
pub open spec fn delta_of(on: u64, off: u64, lower_is_better: bool) -> Delta {
    Delta {
        tenths: delta_tenths(on, off) as i128,
        falling: off != 0 && on < off,
        better: off != 0 && if lower_is_better { on < off } else { on > off },
    }
}

/// Whether lower values of `metric` are better: true of every latency,
/// false of the throughput.
pub open spec fn lower_is_better(metric: Metric) -> bool {
    metric != Metric::OpsPerSec
}

/// The value of `metric` in `stats`: nanoseconds, but for the throughput.
pub open spec fn figure(metric: Metric, stats: StatResult) -> u64 {
    match metric {
        Metric::Mean => stats.mean,
        Metric::Trimmed => stats.trimmed_mean,
        Metric::Median => stats.p50,
        Metric::Tail => stats.p99,
        Metric::Min => stats.min,
        Metric::Max => stats.max,
        Metric::Stddev => stats.stddev,
        Metric::OpsPerSec => ops_of(stats.mean),
    }
}

/// Compares `on` with `off`; see [`delta_of`].
pub fn compare_values(on: u64, off: u64, lower_is_better: bool) -> (d: Delta)
    ensures
        d == delta_of(on, off, lower_is_better),
{
    if off == 0 {
        return Delta { tenths: 0, falling: false, better: false };
    }
    let gap: u128 = if on >= off { (on - off) as u128 } else { (off - on) as u128 };
    let quotient: u128 = (2 * (gap * 1000) + off as u128) / (2 * off as u128);
    assert(quotient <= 2 * (gap * 1000) + off) by (nonlinear_arith)
        requires
            quotient == (2 * (gap * 1000) + off) / (2 * off),
            off > 0,
            gap >= 0,
    ;
    let tenths: i128 = if on >= off { quotient as i128 } else { -(quotient as i128) };
    Delta {
        tenths,
        falling: on < off,
        better: if lower_is_better { on < off } else { on > off },
    }
}

/// The line of the summary for `metric`.
pub fn row(metric: Metric, on: &StatResult, off: &StatResult) -> (r: Row)
    ensures
        r.metric == metric,
        r.on == figure(metric, *on),
        r.off == figure(metric, *off),
        r.delta == delta_of(r.on, r.off, lower_is_better(metric)),
{
    let (v_on, v_off, lower): (u64, u64, bool) = match metric {
        Metric::Mean => (on.mean, off.mean, true),
        Metric::Trimmed => (on.trimmed_mean, off.trimmed_mean, true),
        Metric::Median => (on.p50, off.p50, true),
        Metric::Tail => (on.p99, off.p99, true),
        Metric::Min => (on.min, off.min, true),
        Metric::Max => (on.max, off.max, true),
        Metric::Stddev => (on.stddev, off.stddev, true),
        Metric::OpsPerSec => (on.ops_per_sec(), off.ops_per_sec(), false),
    };
    Row { metric, on: v_on, off: v_off, delta: compare_values(v_on, v_off, lower) }
}

/// A lower latency is an improvement and shows as a negative change; equal
/// values are no improvement either way.
pub proof fn lower_latency_is_better(on: u64, off: u64)
    requires
        off > 0,
    ensures
        delta_of(on, off, true).better <==> on < off,
        delta_of(on, off, false).better <==> on > off,
        on < off ==> delta_tenths(on, off) <= 0,
        on >= off ==> delta_tenths(on, off) >= 0,
        on == off ==> delta_tenths(on, off) == 0,
{
    if on >= off {
        assert((2 * ((on - off) * 1000) + off) / (2 * off) >= 0) by (nonlinear_arith)
            requires
                on >= off,
                off > 0,
        ;
    } else {
        assert((2 * ((off - on) * 1000) + off) / (2 * off) >= 0) by (nonlinear_arith)
            requires
                on < off,
                off > 0,
        ;
    }
    if on == off {
        assert((2 * ((on - off) * 1000) + off) / (2 * off) == 0) by (nonlinear_arith)
            requires
                on == off,
                off > 0,
        ;
    }
}

} // verus!
