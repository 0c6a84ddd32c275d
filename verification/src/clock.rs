//! Time as the library sees it: milliseconds on one monotonic clock, read by the
//! caller.

use vstd::prelude::*;

verus! {

/// The milliseconds from `then` to `now`; none where `then` lies ahead.
pub open spec fn since(now: u64, then: u64) -> u64 {
    if now >= then {
        (now - then) as u64
    } else {
        0
    }
}

/// The milliseconds from `then` to `now`; none where `then` lies ahead.
pub fn elapsed(now: u64, then: u64) -> (ms: u64)
    ensures
        ms == since(now, then),
{
    now.saturating_sub(then)
}

/// The time from one moment to a later one is their distance; to an earlier one it is
/// none.
pub proof fn time_does_not_run_backwards(now: u64, then: u64)
    ensures
        now >= then ==> then + since(now, then) == now,
        now <= then ==> since(now, then) == 0,
{
}

} // verus!
