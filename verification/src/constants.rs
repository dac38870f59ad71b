//! Legacy timer constants kept alongside the per-phase countdown lengths.

use vstd::prelude::*;

verus! {

/// Build-wide debug switch; never set in production builds.
pub const DEBUG_MODE: bool = false;

/// Seconds granted to submit an acronym under the single-timer scheme.
pub const TIMER_DURATION_SECS: u64 = 60;

/// Effectively unlimited time, for unhurried debugging sessions.
pub const DEBUG_DURATION_SECS: u64 = 1000000;

/// The round timer's length in seconds: generous in debug mode, a minute
/// otherwise.
pub fn timer_duration() -> (d: u64)
    ensures
        d == if DEBUG_MODE {
            DEBUG_DURATION_SECS
        } else {
            TIMER_DURATION_SECS
        },
{
    if DEBUG_MODE {
        DEBUG_DURATION_SECS
    } else {
        TIMER_DURATION_SECS
    }
}

} // verus!
