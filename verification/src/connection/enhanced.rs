//! Window growth of enhanced mode as functions of the values they read: growth
//! as in classic mode, and a recovery by time that also lifts links which never
//! saw a NAK. Links take their recovery from here; on an ACK they grow as
//! `CongestionControl::handle_srtla_ack_enhanced` says.

use crate::clock::{elapsed, since};
use crate::connection::congestion::{
    cap_window, capped, window_ceiling, FAST_INCREMENT_WAIT_MS, FAST_MIN_WAIT_MS,
    FAST_RECOVERY_DISABLE_WINDOW, NAK_BURST_WINDOW_MS, NORMAL_INCREMENT_WAIT_MS,
    NORMAL_MIN_WAIT_MS,
};
use crate::protocol::constants::{WINDOW_INCR, WINDOW_MAX, WINDOW_MULT};
use vstd::prelude::*;

verus! {

/// The window that an ACK leaves.
pub open spec fn acked_window(window: int, in_flight: int) -> int {
    if in_flight * WINDOW_MULT > window {
        capped(window + WINDOW_INCR - 1)
    } else {
        window
    }
}

/// Whether fast recovery goes on with the given window.
pub open spec fn stays_fast(fast: bool, window: int) -> bool {
    fast && window < FAST_RECOVERY_DISABLE_WINDOW
}

/// Takes in an SRTLA ACK: the window grows as in classic mode, and fast recovery
/// ends once the window is back.
pub fn handle_srtla_ack(
    window: &mut i32,
    in_flight_packets: i32,
    fast_recovery_mode: &mut bool,
    _fast_recovery_start_ms: u64,
    _label: &str,
)
    requires
        i32::MIN <= in_flight_packets * WINDOW_MULT <= i32::MAX,
        *old(window) <= i32::MAX - WINDOW_INCR,
    ensures
        *final(window) == acked_window(*old(window) as int, in_flight_packets as int),
        *final(fast_recovery_mode) == stays_fast(*old(fast_recovery_mode), *final(window) as int),
{
    if in_flight_packets * WINDOW_MULT > *window {
        *window = cap_window(*window + WINDOW_INCR - 1);
    }
    if *fast_recovery_mode && *window >= FAST_RECOVERY_DISABLE_WINDOW {
        *fast_recovery_mode = false;
    }
}

/// The quiet time since the last NAK; a link that never saw one counts as quiet
/// for ever.
pub open spec fn quiet_time(last_nak_time_ms: u64, now_ms: u64) -> u64 {
    if last_nak_time_ms > 0 {
        since(now_ms, last_nak_time_ms)
    } else {
        u64::MAX
    }
}

/// Whether a recovery step is due.
pub open spec fn recovery_due(
    window: int,
    connected: bool,
    quiet_ms: u64,
    last_window_increase_ms: u64,
    fast: bool,
    now_ms: u64,
) -> bool {
    &&& connected
    &&& window < window_ceiling()
    &&& quiet_ms > if fast {
        FAST_MIN_WAIT_MS
    } else {
        NORMAL_MIN_WAIT_MS
    }
    &&& since(now_ms, last_window_increase_ms) > if fast {
        FAST_INCREMENT_WAIT_MS
    } else {
        NORMAL_INCREMENT_WAIT_MS
    }
}

/// The size of a recovery step: 200 % of `WINDOW_INCR` after ten quiet seconds,
/// 100 % after seven, 50 % after five and 25 % before; twice that in fast
/// recovery. Halves of a unit are dropped.
pub open spec fn recovery_amount(quiet_ms: u64, fast: bool) -> int {
    let unit = WINDOW_INCR * if fast {
        2int
    } else {
        1int
    };
    if quiet_ms > 10_000 {
        unit * 2
    } else if quiet_ms > 7_000 {
        unit
    } else if quiet_ms > 5_000 {
        unit / 2
    } else {
        unit / 4
    }
}

/// What recovery by time changes of a link.
#[derive(Debug, Clone, Copy, PartialEq, Eq, Structural)]
pub struct RecoveryState {
    pub window: i32,
    pub nak_burst_count: i32,
    pub nak_burst_start_time_ms: u64,
    pub last_window_increase_ms: u64,
    pub fast_recovery_mode: bool,
}

/// Whether recovery by time takes a link from `before` to `after`.
pub open spec fn recovers_by_time(
    before: RecoveryState,
    after: RecoveryState,
    connected: bool,
    last_nak_time_ms: u64,
    now_ms: u64,
) -> bool {
    let quiet = quiet_time(last_nak_time_ms, now_ms);
    let fast = before.fast_recovery_mode;
    let due = recovery_due(
        before.window as int,
        connected,
        quiet,
        before.last_window_increase_ms,
        fast,
        now_ms,
    );
    let burst_over = connected && before.window < window_ceiling() && quiet >= NAK_BURST_WINDOW_MS
        && before.nak_burst_count > 0;
    &&& after.window == if due {
        capped(before.window + recovery_amount(quiet, fast))
    } else {
        before.window as int
    }
    &&& after.last_window_increase_ms == if due {
        now_ms
    } else {
        before.last_window_increase_ms
    }
    &&& after.fast_recovery_mode == (fast && !(due && after.window
        >= FAST_RECOVERY_DISABLE_WINDOW))
    &&& after.nak_burst_count == if burst_over {
        0
    } else {
        before.nak_burst_count
    }
    &&& after.nak_burst_start_time_ms == if burst_over {
        0
    } else {
        before.nak_burst_start_time_ms
    }
}

/// Recovers the window by time, in steps that grow with the time since the last
/// NAK, and forgets a NAK burst that is over.
pub fn perform_window_recovery(
    window: &mut i32,
    connected: bool,
    last_nak_time_ms: u64,
    nak_burst_count: &mut i32,
    nak_burst_start_time_ms: &mut u64,
    last_window_increase_ms: &mut u64,
    fast_recovery_mode: &mut bool,
    _label: &str,
    now_ms: u64,
)
    ensures
        recovers_by_time(
            RecoveryState {
                window: *old(window),
                nak_burst_count: *old(nak_burst_count),
                nak_burst_start_time_ms: *old(nak_burst_start_time_ms),
                last_window_increase_ms: *old(last_window_increase_ms),
                fast_recovery_mode: *old(fast_recovery_mode),
            },
            RecoveryState {
                window: *final(window),
                nak_burst_count: *final(nak_burst_count),
                nak_burst_start_time_ms: *final(nak_burst_start_time_ms),
                last_window_increase_ms: *final(last_window_increase_ms),
                fast_recovery_mode: *final(fast_recovery_mode),
            },
            connected,
            last_nak_time_ms,
            now_ms,
        ),
{
    if !connected || *window >= WINDOW_MAX * WINDOW_MULT {
        return;
    }
    let quiet: u64 = if last_nak_time_ms > 0 {
        elapsed(now_ms, last_nak_time_ms)
    } else {
        u64::MAX
    };
    if quiet >= NAK_BURST_WINDOW_MS && *nak_burst_count > 0 {
        *nak_burst_count = 0;
        *nak_burst_start_time_ms = 0;
    }
    let min_wait: u64 = if *fast_recovery_mode {
        FAST_MIN_WAIT_MS
    } else {
        NORMAL_MIN_WAIT_MS
    };
    let increment_wait: u64 = if *fast_recovery_mode {
        FAST_INCREMENT_WAIT_MS
    } else {
        NORMAL_INCREMENT_WAIT_MS
    };
    if quiet > min_wait && elapsed(now_ms, *last_window_increase_ms) > increment_wait {
        let bonus: i32 = if *fast_recovery_mode {
            2
        } else {
            1
        };
        let unit: i32 = WINDOW_INCR * bonus;
        let step: i32 = if quiet > 10_000 {
            unit * 2
        } else if quiet > 7_000 {
            unit
        } else if quiet > 5_000 {
            unit / 2
        } else {
            unit / 4
        };
        *window = cap_window(*window + step);
        *last_window_increase_ms = now_ms;
        if *fast_recovery_mode && *window >= FAST_RECOVERY_DISABLE_WINDOW {
            *fast_recovery_mode = false;
        }
    }
}

/// The longer a link has been quiet, the larger its recovery step.
pub proof fn recovery_grows_with_quiet_time(shorter: u64, longer: u64, fast: bool)
    requires
        shorter <= longer,
    ensures
        recovery_amount(shorter, fast) <= recovery_amount(longer, fast),
{
}

/// An ACK adds 29 to the window, up to 60000, where a thousand for each packet in flight
/// is more than the window; else nothing. Fast recovery ends at a window of 12000.
pub proof fn ack_grows_a_window_in_use(window: int, in_flight: int, fast: bool)
    requires
        1000 <= window <= 60_000,
    ensures
        in_flight * 1000 > window ==> acked_window(window, in_flight) == if window + 29 < 60_000 {
            window + 29
        } else {
            60_000
        },
        in_flight * 1000 <= window ==> acked_window(window, in_flight) == window,
        stays_fast(fast, window) <==> fast && window < 12_000,
{
}

/// Recovery by time, for a connected link whose window is not full and whose last NAK was
/// more than two seconds ago, 500 milliseconds in fast recovery: once a second, or every
/// 300 milliseconds, the window grows by 7, by 15 after five quiet seconds, 30 after seven
/// and 60 after ten, twice that in fast recovery, up to 60000.
pub proof fn quiet_links_recover(
    before: RecoveryState,
    after: RecoveryState,
    last_nak_time_ms: u64,
    now_ms: u64,
)
    requires
        recovers_by_time(before, after, true, last_nak_time_ms, now_ms),
        1000 <= before.window < 60_000,
        0 < last_nak_time_ms <= now_ms,
        before.last_window_increase_ms <= now_ms,
    ensures
        ({
            let quiet = now_ms - last_nak_time_ms;
            let pause = now_ms - before.last_window_increase_ms;
            let due = if before.fast_recovery_mode {
                quiet > 500 && pause > 300
            } else {
                quiet > 2000 && pause > 1000
            };
            let step: int = if before.fast_recovery_mode {
                if quiet > 10_000 {
                    120
                } else if quiet > 7000 {
                    60
                } else if quiet > 5000 {
                    30
                } else {
                    15
                }
            } else {
                if quiet > 10_000 {
                    60
                } else if quiet > 7000 {
                    30
                } else if quiet > 5000 {
                    15
                } else {
                    7
                }
            };
            &&& due ==> after.window == if before.window + step < 60_000 {
                before.window + step
            } else {
                60_000
            }
            &&& due ==> after.last_window_increase_ms == now_ms
            &&& !due ==> after.window == before.window && after.last_window_increase_ms
                == before.last_window_increase_ms
            &&& quiet >= 1000 ==> after.nak_burst_count <= 0
            &&& quiet < 1000 ==> after.nak_burst_count == before.nak_burst_count
                && after.nak_burst_start_time_ms == before.nak_burst_start_time_ms
            &&& after.fast_recovery_mode ==> before.fast_recovery_mode
            &&& due && after.window >= 12_000 ==> !after.fast_recovery_mode
            &&& before.fast_recovery_mode && after.window < 12_000 ==> after.fast_recovery_mode
        }),
{
}

/// A link that is not connected, or whose window is full, does not recover.
pub proof fn lost_or_full_links_do_not_recover(
    before: RecoveryState,
    after: RecoveryState,
    connected: bool,
    last_nak_time_ms: u64,
    now_ms: u64,
)
    requires
        recovers_by_time(before, after, connected, last_nak_time_ms, now_ms),
        !connected || before.window >= 60_000,
    ensures
        after == before,
{
}

} // verus!
