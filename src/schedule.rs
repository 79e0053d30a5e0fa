//! Adaptive polling: the fixed interval, or a longer back-off sleep after a
//! cycle in which some window scan was abnormally slow.
use vstd::prelude::*;

verus! {

/// A window scan slower than this (in milliseconds) marks the cycle as high load.
pub const SLOW_SCAN_MS: u64 = 1000;

/// The shortest back-off sleep, in milliseconds.
pub const BACKOFF_FLOOR_MS: u64 = 2000;

/// Some scan of the cycle was slower than `SLOW_SCAN_MS`.
pub open spec fn any_slow(durations: Seq<u64>) -> bool {
    exists|i: int| 0 <= i < durations.len() && #[trigger] durations[i] > SLOW_SCAN_MS
}

/// The sleep after a cycle: the interval, or under high load twice the
/// interval but at least `BACKOFF_FLOOR_MS`.
pub open spec fn sleep_spec(interval_ms: nat, high_load: bool) -> nat {
    if high_load {
        if 2 * interval_ms < BACKOFF_FLOOR_MS {
            BACKOFF_FLOOR_MS as nat
        } else {
            2 * interval_ms
        }
    } else {
        interval_ms
    }
}

/// Whether one scan duration counts as slow.
pub fn is_slow_scan(ms: u64) -> (r: bool)
    ensures
        r == (ms > SLOW_SCAN_MS),
{
    ms > SLOW_SCAN_MS
}

/// Whether a cycle with these scan durations ran under high load.
pub fn high_load(durations: &Vec<u64>) -> (r: bool)
    ensures
        r == any_slow(durations@),
{
    let mut i: usize = 0;
    while i < durations.len()
        invariant
            i <= durations@.len(),
            forall|k: int| 0 <= k < i ==> !(#[trigger] durations@[k] > SLOW_SCAN_MS),
        decreases durations@.len() - i,
    {
        if is_slow_scan(durations[i]) {
            return true;
        }
        i += 1;
    }
    false
}

/// How long to sleep after a cycle, in milliseconds (saturating at the
/// largest `u64`).
pub fn next_sleep_ms(interval_ms: u64, high_load: bool) -> (r: u64)
    ensures
        r == (if sleep_spec(interval_ms as nat, high_load) > u64::MAX {
            u64::MAX as nat
        } else {
            sleep_spec(interval_ms as nat, high_load)
        }),
{
    if !high_load {
        interval_ms
    } else if interval_ms > u64::MAX / 2 {
        u64::MAX
    } else if 2 * interval_ms < BACKOFF_FLOOR_MS {
        BACKOFF_FLOOR_MS
    } else {
        2 * interval_ms
    }
}

/// Back-off law: after a cycle in which any window scan took longer than
/// `SLOW_SCAN_MS`, the next sleep lasts at least twice the interval and at
/// least `BACKOFF_FLOOR_MS`; after a cycle with no slow scan it lasts exactly
/// the interval.
pub proof fn lemma_backoff(durations: Seq<u64>, interval_ms: u64)
    requires
        2 * interval_ms <= u64::MAX,
    ensures
        ({
            let hl = any_slow(durations);
            let r = if sleep_spec(interval_ms as nat, hl) > u64::MAX {
                u64::MAX as nat
            } else {
                sleep_spec(interval_ms as nat, hl)
            };
            &&& hl ==> r >= 2 * interval_ms && r >= BACKOFF_FLOOR_MS
            &&& !hl ==> r == interval_ms
        }),
{
}

} // verus!
