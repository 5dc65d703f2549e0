//! The caller-side throttle protecting a physical link from back-to-back
//! transactions: each call waits until the monitor's next-allowed-time
//! marker, then advances the marker by a fixed interval.

use vstd::prelude::*;

verus! {

/// The fixed pacing interval, in milliseconds.
pub const PACING_INTERVAL_MS: u64 = 200;

/// When a call begins: at `now`, or at the marker if that is later.
pub open spec fn spec_call_start(marker: u64, now: u64) -> u64 {
    if marker >= now {
        marker
    } else {
        now
    }
}

/// The marker a call leaves behind: its own start plus the interval.
pub open spec fn spec_next_marker(marker: u64, now: u64) -> int {
    spec_call_start(marker, now) + PACING_INTERVAL_MS
}

/// Waits out the marker and advances it. Returns the start time of the
/// call and the new marker.
pub fn pace(marker: u64, now: u64) -> (r: (u64, u64))
    requires
        marker <= 0xffff_ffff_ffff_0000u64,
        now <= 0xffff_ffff_ffff_0000u64,
    ensures
        r.0 == spec_call_start(marker, now),
        r.1 == spec_next_marker(marker, now),
        r.0 >= now,
        r.0 >= marker,
{
    let start = if marker >= now {
        marker
    } else {
        now
    };
    (start, start + PACING_INTERVAL_MS)
}

/// Two consecutive paced calls on one monitor start at least the pacing
/// interval apart, whatever the second caller's clock reads.
pub proof fn lemma_pacing_interval(marker: u64, now1: u64, now2: u64)
    requires
        spec_next_marker(marker, now1) <= u64::MAX,
    ensures
        spec_call_start(spec_next_marker(marker, now1) as u64, now2) >= spec_call_start(
            marker,
            now1,
        ) + PACING_INTERVAL_MS,
{
}

} // verus!
