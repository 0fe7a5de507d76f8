//! Timers and the stall check of the daemon.

use vstd::prelude::*;

verus! {

/// Nanoseconds in a millisecond.
pub const NSEC_PER_MSEC: u64 = 1_000_000;

/// A timer interval in nanoseconds.
pub fn timer_ns(ms: u64) -> (r: u64)
    requires
        ms * NSEC_PER_MSEC <= u64::MAX,
    ensures
        r == ms * NSEC_PER_MSEC,
{
    ms * NSEC_PER_MSEC
}

/// Has the daemon stalled? Before the first tick it has not.
pub fn stalled(last_tick: u64, now: u64, deadline_ns: u64) -> (r: bool)
    ensures
        r == (last_tick > 0 && now >= last_tick && now - last_tick > deadline_ns),
{
    last_tick > 0 && now.saturating_sub(last_tick) > deadline_ns
}

} // verus!
