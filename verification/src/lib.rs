//! Core of a wake-up latency benchmark for a scheduler feature that is
//! compared against the baseline scheduler.
//!
//! The crate holds what the benchmark decides and computes, verified with
//! Verus; threads, CPU pinning, clocks, the kernel tunable and the terminal
//! are the caller's business.
//!
//! - [`system`]: how the CPUs are divided between dispatcher, background
//!   load, workers, shadows and idle CPUs; what the machine is.
//! - [`harness`]: the dispatch/wake/shadow round protocol of one timed run.
//! - [`calibrate`]: sizing a run to a target duration from timed probes.
//! - [`comparison`]: the sequence of discard and measured on/off runs.
//! - [`stats`], [`histogram`], [`numeric`]: aggregates of latency samples in
//!   whole nanoseconds, free of overflow.
//! - [`report`], [`text`]: relative change between the arms, and the plain
//!   text of numbers.
//! - [`toggle`], [`input`]: the feature toggle's content and what its
//!   accessibility allows; which key events ask to quit.

pub mod calibrate;
pub mod comparison;
pub mod harness;
pub mod histogram;
pub mod input;
pub mod numeric;
pub mod report;
pub mod stats;
pub mod system;
pub mod text;
pub mod toggle;
