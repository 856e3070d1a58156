//! When to pull a new snapshot, and how the operator moves the refresh interval.
use vstd::prelude::*;

verus! {

/// Shortest refresh interval, in milliseconds.
pub const MIN_INTERVAL_MS: u64 = 200;

/// Longest refresh interval, in milliseconds.
pub const MAX_INTERVAL_MS: u64 = 5000;

/// How far one "faster" or "slower" step moves the interval, in milliseconds.
pub const INTERVAL_STEP_MS: u64 = 200;

/// Interval a monitor starts with, in milliseconds.
pub const DEFAULT_INTERVAL_MS: u64 = 1000;

/// `x` held inside `MIN_INTERVAL_MS..=MAX_INTERVAL_MS`.
pub open spec fn clamp_interval(x: int) -> u64 {
    if x < MIN_INTERVAL_MS {
        MIN_INTERVAL_MS
    } else if x > MAX_INTERVAL_MS {
        MAX_INTERVAL_MS
    } else {
        x as u64
    }
}

/// A tick pulls a snapshot when sampling is not paused and a full interval has
/// passed since the last one.
pub fn refresh_due(elapsed_ms: u64, interval_ms: u64, paused: bool) -> (r: bool)
    ensures
        r == (!paused && elapsed_ms >= interval_ms),
{
    !paused && elapsed_ms >= interval_ms
}

/// How long the loop may wait for input before the next refresh is due.
pub fn poll_timeout(elapsed_ms: u64, interval_ms: u64) -> (r: u64)
    ensures
        r == if elapsed_ms >= interval_ms { 0 } else { (interval_ms - elapsed_ms) as u64 },
{
    if elapsed_ms >= interval_ms {
        0
    } else {
        interval_ms - elapsed_ms
    }
}

/// One step shorter, held inside the bounds.
pub fn faster_interval(current_ms: u64) -> (r: u64)
    ensures
        r == clamp_interval(current_ms - INTERVAL_STEP_MS),
{
    if current_ms < MIN_INTERVAL_MS + INTERVAL_STEP_MS {
        MIN_INTERVAL_MS
    } else if current_ms - INTERVAL_STEP_MS > MAX_INTERVAL_MS {
        MAX_INTERVAL_MS
    } else {
        current_ms - INTERVAL_STEP_MS
    }
}

/// One step longer, held inside the bounds.
pub fn slower_interval(current_ms: u64) -> (r: u64)
    ensures
        r == clamp_interval(current_ms + INTERVAL_STEP_MS),
{
    if current_ms >= MAX_INTERVAL_MS {
        MAX_INTERVAL_MS
    } else if current_ms + INTERVAL_STEP_MS < MIN_INTERVAL_MS {
        MIN_INTERVAL_MS
    } else if current_ms + INTERVAL_STEP_MS > MAX_INTERVAL_MS {
        MAX_INTERVAL_MS
    } else {
        current_ms + INTERVAL_STEP_MS
    }
}

/// Share of memory in use, in whole percent, at most 100; zero when the total is
/// unknown.
pub fn memory_percent(used_kb: u64, total_kb: u64) -> (r: u64)
    ensures
        r == if total_kb == 0 {
            0
        } else if (used_kb as int) * 100 / (total_kb as int) > 100 {
            100
        } else {
            ((used_kb as int) * 100 / (total_kb as int)) as u64
        },
{
    if total_kb == 0 {
        0
    } else {
        let scaled: u128 = (used_kb as u128) * 100;
        let p: u128 = scaled / (total_kb as u128);
        if p > 100 {
            100
        } else {
            p as u64
        }
    }
}

/// Whole percent of a CPU reading kept in hundredths, at most 100.
pub fn cpu_percent(cpu: u32) -> (r: u64)
    ensures
        r == if cpu / 100 > 100 { 100 } else { cpu / 100 },
{
    let p: u32 = cpu / 100;
    if p > 100 {
        100
    } else {
        p as u64
    }
}

} // verus!
