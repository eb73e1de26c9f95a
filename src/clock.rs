//! Wall-clock instants and the cooldown gate between sweeps.
//!
//! Instants are milliseconds since the Unix epoch, held in an `i64`.
use vstd::prelude::*;

verus! {

/// Minimum time between two sweeps: thirty days, in milliseconds.
pub const COOLDOWN_MILLIS: i64 = 30 * 24 * 60 * 60 * 1000;

/// What the run gate decides for a new sweep.
#[derive(Debug, Clone, Copy, PartialEq, Eq, Structural)]
pub enum RunGate {
    /// No sweep is recorded, or the last one is old enough: run now.
    Run,
    /// The last sweep is too recent: come back at this instant.
    DeferUntil(i64),
}

/// `x`, clamped to the range of `i64`.
pub open spec fn clamp_i64(x: int) -> i64 {
    if x > i64::MAX {
        i64::MAX
    } else if x < i64::MIN {
        i64::MIN
    } else {
        x as i64
    }
}

/// The decision of the run gate, given the instant of the last completed sweep
/// (if any) and the current instant.
pub open spec fn gate_spec(last_run: Option<i64>, now: i64) -> RunGate {
    match last_run {
        None => RunGate::Run,
        Some(last) => if now - last >= COOLDOWN_MILLIS {
            RunGate::Run
        } else {
            RunGate::DeferUntil(clamp_i64(last + COOLDOWN_MILLIS))
        },
    }
}

/// Decides whether a new sweep may start at `now`.
pub fn run_gate(last_run: Option<i64>, now: i64) -> (r: RunGate)
    ensures
        r == gate_spec(last_run, now),
{
    match last_run {
        None => RunGate::Run,
        Some(last) => {
            if (now as i128) - (last as i128) >= COOLDOWN_MILLIS as i128 {
                RunGate::Run
            } else if last > i64::MAX - COOLDOWN_MILLIS {
                RunGate::DeferUntil(i64::MAX)
            } else {
                RunGate::DeferUntil(last + COOLDOWN_MILLIS)
            }
        },
    }
}

/// The instant `wait_ms` milliseconds after `now`, clamped to the range of
/// `i64`.
pub fn instant_after(now: i64, wait_ms: u128) -> (r: i64)
    ensures
        r == clamp_i64(now + wait_ms),
{
    if wait_ms >= 0x1_0000_0000_0000_0000u128 {
        i64::MAX
    } else {
        let sum: i128 = now as i128 + wait_ms as i128;
        if sum > i64::MAX as i128 {
            i64::MAX
        } else {
            sum as i64
        }
    }
}

/// Relies on chrono::Utc::now and DateTime::timestamp_millis: the current
/// wall-clock instant in milliseconds. Nothing is promised of its value.
#[verifier::external_body]
fn now_millis() -> (r: i64) {
    chrono::Utc::now().timestamp_millis()
}

/// Consults the run gate at the current instant.
pub fn run_gate_now(last_run: Option<i64>) -> (r: RunGate)
    ensures
        last_run is None ==> r == RunGate::Run,
        last_run matches Some(last) ==> (r == RunGate::Run || r == RunGate::DeferUntil(
            clamp_i64(last + COOLDOWN_MILLIS),
        )),
{
    let now = now_millis();
    run_gate(last_run, now)
}

/// Watermarks increase: once the cooldown since `last_run` has passed at
/// `admitted_at`, any instant from then on lies after `last_run`.
pub proof fn lemma_watermark_monotone(last_run: i64, admitted_at: i64, recorded_at: i64)
    requires
        gate_spec(Some(last_run), admitted_at) == RunGate::Run,
        admitted_at <= recorded_at,
    ensures
        last_run < recorded_at,
{
}

} // verus!
