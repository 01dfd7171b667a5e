//! The feature toggle: what is written to it, how its content is read, and
//! what its accessibility means for the session.
//!
//! The toggle is a single integer setting behind a kernel tunable. Reading
//! and writing the file is the caller's part.

use vstd::prelude::*;

use crate::text::{
    digits_of,
    digits_write_their_number,
    integer_in,
    is_digit,
    is_space,
    push_decimal,
    trim_end,
    trim_start,
    LINE_FEED,
    MINUS,
};

verus! {

/// Time for a written setting to take effect, in milliseconds.
pub const SETTLE_MS: u64 = 50;

/// `initial` of a session whose toggle cannot be read.
pub const SETTING_UNKNOWN: i32 = -1;

// ---------------------------------------------------------------------------
// Writing
// ---------------------------------------------------------------------------

/// What is written for `val`: its decimal value and a line feed, as one
/// buffer for a single write.
pub open spec fn payload_of(val: i32) -> Seq<u8> {
    if val < 0 {
        seq![MINUS] + digits_of((-val) as nat) + seq![LINE_FEED]
    } else {
        digits_of(val as nat) + seq![LINE_FEED]
    }
}

/// The bytes to write for `val`, to be handed to the file in one write.
pub fn setting_payload(val: i32) -> (out: Vec<u8>)
    ensures
        out@ == payload_of(val),
{
    let mut out: Vec<u8> = Vec::new();
    if val < 0 {
        out.push(MINUS);
        let magnitude: u64 = (-(val as i64)) as u64;
        push_decimal(&mut out, magnitude);
    } else {
        push_decimal(&mut out, val as u64);
    }
    out.push(LINE_FEED);
    assert(out@ =~= payload_of(val));
    out
}

// ---------------------------------------------------------------------------
// Reading back
// ---------------------------------------------------------------------------

/// What is written for a setting reads back as that setting.
pub proof fn payload_reads_back(val: i32)
    ensures
        integer_in(payload_of(val)) == Some(val),
{
    let p = payload_of(val);
    let magnitude: nat = if val < 0 { (-val) as nat } else { val as nat };
    let d = digits_of(magnitude);
    digits_write_their_number(magnitude);
    let core = if val < 0 { seq![MINUS] + d } else { d };
    assert(is_digit(d[0]));
    assert(is_digit(d[d.len() - 1]));
    assert(p =~= core + seq![LINE_FEED]);
    assert(!is_space(p[0]));
    assert(trim_start(p) == p);
    assert(p.drop_last() =~= core);
    assert(!is_space(core.last()));
    assert(trim_end(core) == core);
    assert(trim_end(p) == core);
    if val < 0 {
        assert(core.drop_first() =~= d);
    }
}

// ---------------------------------------------------------------------------
// What the toggle's accessibility means for the session
// ---------------------------------------------------------------------------

/// How a session runs, given what the toggle allows.
#[derive(Clone, Copy, Debug, PartialEq, Eq, Structural)]
pub struct SessionPlan {
    /// Run the on/off comparison; otherwise a single run.
    pub compare: bool,
    /// The toggle can be read but not written: warn, then run once.
    pub read_only: bool,
    /// The setting found, or `SETTING_UNKNOWN` where it cannot be read.
    pub initial: i32,
    /// Write `initial` back when the session ends.
    pub restore: bool,
    /// Whether a single run measures with the feature on.
    pub feature_on: bool,
}

/// The plan for a session. `current` is what reading the toggle gave,
/// `write_ok` whether writing that same value back succeeded (it is not
/// tried on a toggle that cannot be read), and `no_compare` the user's wish
/// to skip the comparison.
pub open spec fn session_plan(no_compare: bool, current: Option<i32>, write_ok: bool)
    -> SessionPlan {
    match current {
        None => SessionPlan {
            compare: false,
            read_only: false,
            initial: SETTING_UNKNOWN,
            restore: false,
            feature_on: false,
        },
        Some(value) => SessionPlan {
            compare: !no_compare && write_ok,
            read_only: !write_ok,
            initial: value,
            restore: write_ok && value >= 0,
            feature_on: value > 0,
        },
    }
}

/// Plans the session; see [`session_plan`]. An unreadable or read-only
/// toggle never stops the session: it degrades to a single run.
pub fn plan_session(no_compare: bool, current: Option<i32>, write_ok: bool) -> (plan: SessionPlan)
    ensures
        plan == session_plan(no_compare, current, write_ok),
        plan.compare ==> current is Some && write_ok && !no_compare,
        plan.restore ==> write_ok,
{
    match current {
        None => SessionPlan {
            compare: false,
            read_only: false,
            initial: SETTING_UNKNOWN,
            restore: false,
            feature_on: false,
        },
        Some(value) => SessionPlan {
            compare: !no_compare && write_ok,
            read_only: !write_ok,
            initial: value,
            restore: write_ok && value >= 0,
            feature_on: value > 0,
        },
    }
}

} // verus!
