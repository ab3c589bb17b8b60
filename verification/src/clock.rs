//! Readings of a monotonic clock.

use vstd::prelude::*;

verus! {

/// Nanoseconds on a monotonic clock, or between two of its readings.
pub type Nanos = u128;

/// The time from `earlier` to `now`, which is none if `earlier` lies ahead.
pub open spec fn elapsed(earlier: Nanos, now: Nanos) -> Nanos {
    if now >= earlier {
        (now - earlier) as u128
    } else {
        0
    }
}

/// Nanoseconds in a second.
pub const SECOND: Nanos = 1_000_000_000;

/// The time `secs` seconds after `now`.
pub open spec fn seconds_after(now: Nanos, secs: u64) -> int {
    now + secs * SECOND
}

/// The time `secs` seconds after `now`.
pub fn add_seconds(now: Nanos, secs: u64) -> (then: Nanos)
    requires
        seconds_after(now, secs) <= Nanos::MAX,
    ensures
        then == seconds_after(now, secs),
        then - now == 1_000_000_000 * secs,
{
    now + (secs as u128) * SECOND
}

/// The time from `earlier` to `now`, which is none if `earlier` lies ahead.
pub fn time_since(earlier: Nanos, now: Nanos) -> (time: Nanos)
    ensures
        time == elapsed(earlier, now),
        earlier <= now ==> earlier + time == now,
        earlier > now ==> time == 0,
{
    if now >= earlier {
        now - earlier
    } else {
        0
    }
}

} // verus!
