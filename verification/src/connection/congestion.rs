//! Congestion control of one link: how NAKs shrink its window and how ACKs and
//! quiet time grow it back.

use crate::clock::{elapsed, since};
use crate::protocol::constants::{
    WINDOW_DECR, WINDOW_INCR, WINDOW_MAX, WINDOW_MIN, WINDOW_MULT,
};
use vstd::prelude::*;

verus! {

/// NAKs closer together than this belong to one burst.
pub const NAK_BURST_WINDOW_MS: u64 = 1000;

/// Window at or below which a NAK switches fast recovery on.
pub const FAST_RECOVERY_ENABLE_WINDOW: i32 = 2000;

/// Window at or above which fast recovery is switched off.
pub const FAST_RECOVERY_DISABLE_WINDOW: i32 = 12_000;

/// Share of the window, in percent, below which an ACK counts towards growth.
pub const NORMAL_UTILIZATION_PERCENT: i64 = 85;

/// The same share in fast recovery.
pub const FAST_UTILIZATION_PERCENT: i64 = 95;

/// In-flight packets are held against a percentage of the window: a hundred
/// times `WINDOW_MULT`.
pub const UTILIZATION_SCALE: i64 = 100_000;

/// ACKs without a NAK that grow the window.
pub const NORMAL_ACKS_REQUIRED: i32 = 4;

/// The same number in fast recovery.
pub const FAST_ACKS_REQUIRED: i32 = 2;

/// Pause after one ACK-driven increase of the window.
pub const ACK_INCREASE_PAUSE_MS: u64 = 200;

/// Quiet time after a NAK before the window recovers by time.
pub const NORMAL_MIN_WAIT_MS: u64 = 2000;

/// The same quiet time in fast recovery.
pub const FAST_MIN_WAIT_MS: u64 = 500;

/// Pause after one increase of the window before the next increase by time.
pub const NORMAL_INCREMENT_WAIT_MS: u64 = 1000;

/// The same pause in fast recovery.
pub const FAST_INCREMENT_WAIT_MS: u64 = 300;

/// The smallest window.
pub open spec fn window_floor() -> int {
    WINDOW_MIN * WINDOW_MULT
}

/// The largest window.
pub open spec fn window_ceiling() -> int {
    WINDOW_MAX * WINDOW_MULT
}

/// `window` lowered to the ceiling where it is above.
pub open spec fn capped(window: int) -> int {
    if window < window_ceiling() {
        window
    } else {
        window_ceiling()
    }
}

/// `window` lowered to the ceiling where it is above.
pub(crate) fn cap_window(window: i32) -> (r: i32)
    ensures
        r == capped(window as int),
{
    if window < WINDOW_MAX * WINDOW_MULT {
        window
    } else {
        WINDOW_MAX * WINDOW_MULT
    }
}

/// NAK history and recovery state of a link. A time of 0 means never.
#[derive(Debug, Clone, Copy, PartialEq, Eq, Structural)]
pub struct CongestionControl {
    pub nak_count: i32,
    pub last_nak_time_ms: u64,
    pub last_window_increase_ms: u64,
    pub consecutive_acks_without_nak: i32,
    pub fast_recovery_mode: bool,
    pub fast_recovery_start_ms: u64,
    pub nak_burst_count: i32,
    pub nak_burst_start_time_ms: u64,
}

/// A counter that stops at the top of its range.
pub open spec fn bumped(count: i32) -> i32 {
    if count < i32::MAX {
        (count + 1) as i32
    } else {
        i32::MAX
    }
}

fn bump(count: i32) -> (r: i32)
    ensures
        r == bumped(count),
{
    if count < i32::MAX {
        count + 1
    } else {
        i32::MAX
    }
}

impl CongestionControl {
    /// No NAK seen, normal recovery.
    pub open spec fn spec_new() -> Self {
        CongestionControl {
            nak_count: 0,
            last_nak_time_ms: 0,
            last_window_increase_ms: 0,
            consecutive_acks_without_nak: 0,
            fast_recovery_mode: false,
            fast_recovery_start_ms: 0,
            nak_burst_count: 0,
            nak_burst_start_time_ms: 0,
        }
    }

    /// No NAK seen, normal recovery.
    pub fn new() -> (cc: Self)
        ensures
            cc == Self::spec_new(),
    {
        CongestionControl {
            nak_count: 0,
            last_nak_time_ms: 0,
            last_window_increase_ms: 0,
            consecutive_acks_without_nak: 0,
            fast_recovery_mode: false,
            fast_recovery_start_ms: 0,
            nak_burst_count: 0,
            nak_burst_start_time_ms: 0,
        }
    }

    /// Forgets everything.
    pub fn reset(&mut self)
        ensures
            *final(self) == Self::spec_new(),
    {
        *self = Self::new();
    }

    /// Whether a NAK at `now_ms` follows the last one closely enough to belong to
    /// its burst.
    pub open spec fn continues_burst(&self, now_ms: u64) -> bool {
        self.last_nak_time_ms > 0 && since(now_ms, self.last_nak_time_ms) < NAK_BURST_WINDOW_MS
    }

    /// The window that a NAK leaves.
    pub open spec fn window_after_nak(window: int) -> int {
        if window - WINDOW_DECR > window_floor() {
            window - WINDOW_DECR
        } else {
            window_floor()
        }
    }

    /// The state that a NAK at `now_ms` leaves, where `window` is what it makes
    /// of the window.
    pub open spec fn after_nak(&self, window: int, now_ms: u64) -> Self {
        let starts = !self.fast_recovery_mode && window <= FAST_RECOVERY_ENABLE_WINDOW;
        CongestionControl {
            nak_count: bumped(self.nak_count),
            last_nak_time_ms: now_ms,
            last_window_increase_ms: self.last_window_increase_ms,
            consecutive_acks_without_nak: 0,
            fast_recovery_mode: self.fast_recovery_mode || starts,
            fast_recovery_start_ms: if starts {
                now_ms
            } else {
                self.fast_recovery_start_ms
            },
            nak_burst_count: if !self.continues_burst(now_ms) {
                0
            } else if self.nak_burst_count == 0 {
                2
            } else {
                bumped(self.nak_burst_count)
            },
            nak_burst_start_time_ms: if !self.continues_burst(now_ms) {
                0
            } else if self.nak_burst_count == 0 {
                self.last_nak_time_ms
            } else {
                self.nak_burst_start_time_ms
            },
        }
    }

    /// Takes in a NAK: counts it, tells whether it continues a burst, shrinks the
    /// window down to its floor, and switches fast recovery on where the window
    /// has become very small.
    pub fn handle_nak(
        &mut self,
        window: &mut i32,
        _seq: i32,
        _label: &str,
        now_ms: u64,
    ) -> (handled: bool)
        requires
            *old(window) >= i32::MIN + WINDOW_DECR,
        ensures
            handled,
            *final(window) == Self::window_after_nak(*old(window) as int),
            *final(self) == old(self).after_nak(*final(window) as int, now_ms),
    {
        self.nak_count = bump(self.nak_count);
        let time_since_last_nak: u64 = elapsed(now_ms, self.last_nak_time_ms);
        if self.last_nak_time_ms > 0 && time_since_last_nak < NAK_BURST_WINDOW_MS {
            if self.nak_burst_count == 0 {
                self.nak_burst_count = 2;
                self.nak_burst_start_time_ms = self.last_nak_time_ms;
            } else {
                self.nak_burst_count = bump(self.nak_burst_count);
            }
        } else {
            self.nak_burst_count = 0;
            self.nak_burst_start_time_ms = 0;
        }
        self.last_nak_time_ms = now_ms;
        self.consecutive_acks_without_nak = 0;
        let lowered: i32 = *window - WINDOW_DECR;
        *window = if lowered > WINDOW_MIN * WINDOW_MULT {
            lowered
        } else {
            WINDOW_MIN * WINDOW_MULT
        };
        if *window <= FAST_RECOVERY_ENABLE_WINDOW && !self.fast_recovery_mode {
            self.fast_recovery_mode = true;
            self.fast_recovery_start_ms = now_ms;
        }
        true
    }

    /// The window that an ACK for a packet of this link leaves in classic mode.
    pub open spec fn window_after_classic_ack(window: int, in_flight: int) -> int {
        if in_flight * WINDOW_MULT > window {
            capped(window + WINDOW_INCR - 1)
        } else {
            window
        }
    }

    /// Classic growth: an ACK for a packet of this link raises the window by one
    /// less than `WINDOW_INCR` while the link is used beyond its window.
    pub fn handle_srtla_ack_specific_classic(
        &mut self,
        window: &mut i32,
        in_flight_packets: i32,
        _seq: i32,
        _label: &str,
    )
        requires
            i32::MIN <= in_flight_packets * WINDOW_MULT <= i32::MAX,
            *old(window) <= i32::MAX - WINDOW_INCR,
        ensures
            *final(self) == *old(self),
            *final(window) == Self::window_after_classic_ack(
                *old(window) as int,
                in_flight_packets as int,
            ),
    {
        if in_flight_packets * WINDOW_MULT > *window {
            *window = cap_window(*window + WINDOW_INCR - 1);
        }
    }

    /// Whether the link uses less than the share of its window at which ACKs
    /// count towards growth.
    pub open spec fn under_utilized(&self, window: int, in_flight: int) -> bool {
        in_flight * UTILIZATION_SCALE < window * if self.fast_recovery_mode {
            FAST_UTILIZATION_PERCENT as int
        } else {
            NORMAL_UTILIZATION_PERCENT as int
        }
    }

    /// ACKs without a NAK that grow the window in the present mode.
    pub open spec fn acks_required(&self) -> int {
        if self.fast_recovery_mode {
            FAST_ACKS_REQUIRED as int
        } else {
            NORMAL_ACKS_REQUIRED as int
        }
    }

    /// Whether an ACK at `now_ms` counts towards growth.
    pub open spec fn ack_counts(&self, window: int, in_flight: int, now_ms: u64) -> bool {
        &&& since(now_ms, self.last_window_increase_ms) > ACK_INCREASE_PAUSE_MS
        &&& self.under_utilized(window, in_flight)
    }

    /// Whether an ACK at `now_ms` is the one that grows the window.
    pub open spec fn ack_grows(&self, window: int, in_flight: int, now_ms: u64) -> bool {
        &&& self.ack_counts(window, in_flight, now_ms)
        &&& bumped(self.consecutive_acks_without_nak) >= self.acks_required()
    }

    /// The state that an ACK leaves, where `window` is the window before it and
    /// `grown` the one after it.
    pub open spec fn after_ack(
        &self,
        window: int,
        grown: int,
        in_flight: int,
        now_ms: u64,
    ) -> Self {
        CongestionControl {
            consecutive_acks_without_nak: if self.ack_grows(window, in_flight, now_ms) {
                0
            } else if self.ack_counts(window, in_flight, now_ms) {
                bumped(self.consecutive_acks_without_nak)
            } else {
                self.consecutive_acks_without_nak
            },
            last_window_increase_ms: if self.ack_grows(window, in_flight, now_ms) {
                now_ms
            } else {
                self.last_window_increase_ms
            },
            fast_recovery_mode: self.fast_recovery_mode && grown < FAST_RECOVERY_DISABLE_WINDOW,
            ..*self
        }
    }

    /// Enhanced growth: on a link that is not used to the full, every few ACKs
    /// without a NAK raise the window by `WINDOW_INCR`, at most once in
    /// `ACK_INCREASE_PAUSE_MS`. Fast recovery ends once the window is back.
    pub fn handle_srtla_ack_enhanced(
        &mut self,
        window: &mut i32,
        in_flight_packets: i32,
        _label: &str,
        now_ms: u64,
    )
        requires
            *old(window) <= i32::MAX - WINDOW_INCR,
        ensures
            *final(window) == if old(self).ack_grows(
                *old(window) as int,
                in_flight_packets as int,
                now_ms,
            ) {
                capped(*old(window) + WINDOW_INCR)
            } else {
                *old(window) as int
            },
            *final(self) == old(self).after_ack(
                *old(window) as int,
                *final(window) as int,
                in_flight_packets as int,
                now_ms,
            ),
    {
        if elapsed(now_ms, self.last_window_increase_ms) > ACK_INCREASE_PAUSE_MS {
            let percent: i64 = if self.fast_recovery_mode {
                FAST_UTILIZATION_PERCENT
            } else {
                NORMAL_UTILIZATION_PERCENT
            };
            if (in_flight_packets as i64) * UTILIZATION_SCALE < (*window as i64) * percent {
                self.consecutive_acks_without_nak = bump(self.consecutive_acks_without_nak);
                let required: i32 = if self.fast_recovery_mode {
                    FAST_ACKS_REQUIRED
                } else {
                    NORMAL_ACKS_REQUIRED
                };
                if self.consecutive_acks_without_nak >= required {
                    *window = cap_window(*window + WINDOW_INCR);
                    self.last_window_increase_ms = now_ms;
                    self.consecutive_acks_without_nak = 0;
                }
            }
        }
        if self.fast_recovery_mode && *window >= FAST_RECOVERY_DISABLE_WINDOW {
            self.fast_recovery_mode = false;
        }
    }

    /// Quiet time after which the window recovers in the present mode.
    pub open spec fn min_wait(&self) -> u64 {
        if self.fast_recovery_mode {
            FAST_MIN_WAIT_MS
        } else {
            NORMAL_MIN_WAIT_MS
        }
    }

    /// Pause between two recovery steps in the present mode.
    pub open spec fn increment_wait(&self) -> u64 {
        if self.fast_recovery_mode {
            FAST_INCREMENT_WAIT_MS
        } else {
            NORMAL_INCREMENT_WAIT_MS
        }
    }

    /// Whether the window recovers a step at `now_ms`. A link that never saw a
    /// NAK has nothing to recover from.
    pub open spec fn recovers(&self, window: int, connected: bool, now_ms: u64) -> bool {
        &&& connected
        &&& window < window_ceiling()
        &&& self.last_nak_time_ms > 0
        &&& since(now_ms, self.last_nak_time_ms) > self.min_wait()
        &&& since(now_ms, self.last_window_increase_ms) > self.increment_wait()
    }

    /// The size of a recovery step: twice `WINDOW_INCR` after ten quiet seconds,
    /// `WINDOW_INCR` before, and double that in fast recovery.
    pub open spec fn recovery_step(&self, now_ms: u64) -> int {
        let quiet = if since(now_ms, self.last_nak_time_ms) > 10_000 {
            2int
        } else {
            1int
        };
        WINDOW_INCR * quiet * if self.fast_recovery_mode {
            2int
        } else {
            1int
        }
    }

    /// The window after a recovery pass at `now_ms`.
    pub open spec fn window_after_recovery(
        &self,
        window: int,
        connected: bool,
        now_ms: u64,
    ) -> int {
        if self.recovers(window, connected, now_ms) {
            capped(window + self.recovery_step(now_ms))
        } else {
            window
        }
    }

    /// The state after a recovery pass at `now_ms`.
    pub open spec fn after_recovery(&self, window: int, connected: bool, now_ms: u64) -> Self {
        let burst_over = connected && window < window_ceiling() && self.last_nak_time_ms > 0
            && since(now_ms, self.last_nak_time_ms) >= NAK_BURST_WINDOW_MS && self.nak_burst_count
            > 0;
        let recovered = self.recovers(window, connected, now_ms);
        CongestionControl {
            nak_burst_count: if burst_over {
                0
            } else {
                self.nak_burst_count
            },
            nak_burst_start_time_ms: if burst_over {
                0
            } else {
                self.nak_burst_start_time_ms
            },
            last_window_increase_ms: if recovered {
                now_ms
            } else {
                self.last_window_increase_ms
            },
            fast_recovery_mode: self.fast_recovery_mode && !(recovered
                && self.window_after_recovery(window, connected, now_ms)
                >= FAST_RECOVERY_DISABLE_WINDOW),
            ..*self
        }
    }

    /// Recovery by time: a connected link whose last NAK lies far enough back
    /// gains a step of window, and an old burst is forgotten. Rounds do not take this
    /// rule but that of `enhanced::perform_window_recovery`, under which a link that
    /// never saw a NAK recovers too.
    pub fn perform_window_recovery(
        &mut self,
        window: &mut i32,
        connected: bool,
        _label: &str,
        now_ms: u64,
    )
        ensures
            *final(window) == old(self).window_after_recovery(
                *old(window) as int,
                connected,
                now_ms,
            ),
            *final(self) == old(self).after_recovery(*old(window) as int, connected, now_ms),
    {
        if !connected || *window >= WINDOW_MAX * WINDOW_MULT {
            return;
        }
        if self.last_nak_time_ms > 0 {
            let quiet: u64 = elapsed(now_ms, self.last_nak_time_ms);
            if quiet >= NAK_BURST_WINDOW_MS && self.nak_burst_count > 0 {
                self.nak_burst_count = 0;
                self.nak_burst_start_time_ms = 0;
            }
            let min_wait: u64 = if self.fast_recovery_mode {
                FAST_MIN_WAIT_MS
            } else {
                NORMAL_MIN_WAIT_MS
            };
            let increment_wait: u64 = if self.fast_recovery_mode {
                FAST_INCREMENT_WAIT_MS
            } else {
                NORMAL_INCREMENT_WAIT_MS
            };
            if quiet > min_wait && elapsed(now_ms, self.last_window_increase_ms) > increment_wait {
                let bonus: i32 = if self.fast_recovery_mode {
                    2
                } else {
                    1
                };
                let step: i32 = if quiet > 10_000 {
                    WINDOW_INCR * 2 * bonus
                } else {
                    WINDOW_INCR * bonus
                };
                *window = cap_window(*window + step);
                self.last_window_increase_ms = now_ms;
                if self.fast_recovery_mode && *window >= FAST_RECOVERY_DISABLE_WINDOW {
                    self.fast_recovery_mode = false;
                }
            }
        }
    }

    /// The time since the last NAK, if there was one.
    pub open spec fn nak_age(&self, now_ms: u64) -> Option<u64> {
        if self.last_nak_time_ms == 0 {
            None
        } else {
            Some(since(now_ms, self.last_nak_time_ms))
        }
    }

    /// The time since the last NAK, if there was one.
    pub fn time_since_last_nak_ms(&self, now_ms: u64) -> (ms: Option<u64>)
        ensures
            ms == self.nak_age(now_ms),
    {
        if self.last_nak_time_ms == 0 {
            None
        } else {
            Some(elapsed(now_ms, self.last_nak_time_ms))
        }
    }
}

impl Default for CongestionControl {
    fn default() -> (cc: Self)
        ensures
            cc == Self::spec_new(),
    {
        Self::new()
    }
}

/// The window stays within its bounds whatever comes in: a NAK, an ACK in either
/// mode, or a recovery pass.
pub proof fn window_stays_in_bounds(
    cc: CongestionControl,
    window: int,
    connected: bool,
    now_ms: u64,
)
    requires
        window_floor() <= window <= window_ceiling(),
    ensures
        window_floor() <= CongestionControl::window_after_nak(window) <= window,
        window <= capped(window + WINDOW_INCR - 1) <= window_ceiling(),
        window <= capped(window + WINDOW_INCR) <= window_ceiling(),
        window <= cc.window_after_recovery(window, connected, now_ms) <= window_ceiling(),
{
}

/// The state after NAKs that each left the given window at the given time.
pub open spec fn after_naks(cc: CongestionControl, naks: Seq<(int, u64)>) -> CongestionControl
    decreases naks.len(),
{
    if naks.len() == 0 {
        cc
    } else {
        after_naks(cc, naks.drop_last()).after_nak(naks.last().0, naks.last().1)
    }
}

/// How many NAKs at the end of a list came each within `NAK_BURST_WINDOW_MS` of the
/// one before. A time of zero stands for none.
pub open spec fn nak_run(naks: Seq<(int, u64)>) -> nat
    decreases naks.len(),
{
    if naks.len() == 0 {
        0
    } else {
        let before = naks.drop_last();
        if before.len() > 0 && before.last().1 > 0 && since(naks.last().1, before.last().1)
            < NAK_BURST_WINDOW_MS {
            nak_run(before) + 1
        } else {
            1
        }
    }
}

/// The count of a NAK burst is the length of its run; a single NAK is no burst.
pub proof fn nak_burst_is_a_run(naks: Seq<(int, u64)>)
    requires
        naks.len() <= i32::MAX,
    ensures
        after_naks(CongestionControl::spec_new(), naks).nak_burst_count == if nak_run(naks) >= 2 {
            nak_run(naks)
        } else {
            0
        },
        after_naks(CongestionControl::spec_new(), naks).last_nak_time_ms == if naks.len() == 0 {
            0
        } else {
            naks.last().1
        },
        nak_run(naks) <= naks.len(),
        naks.len() > 0 ==> nak_run(naks) >= 1,
    decreases naks.len(),
{
    if naks.len() > 0 {
        nak_burst_is_a_run(naks.drop_last());
    }
}

/// The state and the window that an ACK in enhanced mode leaves, where `in_flight`
/// packets are left in flight.
pub open spec fn acked(
    cc: CongestionControl,
    window: int,
    in_flight: int,
    now_ms: u64,
) -> (CongestionControl, int) {
    let grown = if cc.ack_grows(window, in_flight, now_ms) {
        capped(window + WINDOW_INCR)
    } else {
        window
    };
    (cc.after_ack(window, grown, in_flight, now_ms), grown)
}

/// The state and the window that several ACKs leave, each with what it leaves in
/// flight and its time.
pub open spec fn acked_over(
    cc: CongestionControl,
    window: int,
    acks: Seq<(int, u64)>,
) -> (CongestionControl, int)
    decreases acks.len(),
{
    if acks.len() == 0 {
        (cc, window)
    } else {
        let before = acked_over(cc, window, acks.drop_last());
        acked(before.0, before.1, acks.last().0, acks.last().1)
    }
}

/// ACKs without a NAK grow the window by 30, up to 60000, with every fourth that
/// leaves less than 85 % of the window in flight; in fast recovery with every second
/// that leaves less than 95 %. Before that they are only counted.
pub proof fn every_few_acks_grow_the_window(
    cc: CongestionControl,
    window: int,
    acks: Seq<(int, u64)>,
)
    requires
        1000 <= window <= 60_000,
        cc.fast_recovery_mode ==> window < 12_000,
        0 <= cc.consecutive_acks_without_nak < if cc.fast_recovery_mode {
            2int
        } else {
            4int
        },
        cc.consecutive_acks_without_nak + acks.len() <= if cc.fast_recovery_mode {
            2int
        } else {
            4int
        },
        forall|i: int|
            0 <= i < acks.len() ==> {
                &&& (#[trigger] acks[i]).0 * 1000 * 100 < window * if cc.fast_recovery_mode {
                    95int
                } else {
                    85int
                }
                &&& acks[i].1 > cc.last_window_increase_ms + 200
            },
    ensures
        ({
            let (after, grown) = acked_over(cc, window, acks);
            if cc.consecutive_acks_without_nak + acks.len() < if cc.fast_recovery_mode {
                2int
            } else {
                4int
            } {
                &&& grown == window
                &&& after == (CongestionControl {
                    consecutive_acks_without_nak: (cc.consecutive_acks_without_nak
                        + acks.len()) as i32,
                    ..cc
                })
            } else {
                &&& grown == if window + 30 < 60_000 {
                    window + 30
                } else {
                    60_000
                }
                &&& after == (CongestionControl {
                    consecutive_acks_without_nak: 0,
                    last_window_increase_ms: acks.last().1,
                    fast_recovery_mode: cc.fast_recovery_mode && grown < 12_000,
                    ..cc
                })
            }
        }),
    decreases acks.len(),
{
    if acks.len() > 0 {
        let front = acks.drop_last();
        assert forall|i: int| 0 <= i < front.len() implies {
            &&& (#[trigger] front[i]).0 * 1000 * 100 < window * if cc.fast_recovery_mode {
                95int
            } else {
                85int
            }
            &&& front[i].1 > cc.last_window_increase_ms + 200
        } by {
            assert(front[i] == acks[i]);
        }
        every_few_acks_grow_the_window(cc, window, front);
        assert(acks.last() == acks[acks.len() - 1]);
    }
}

/// An ACK that leaves 85 % of the window or more in flight (95 % in fast recovery), or
/// that comes within 200 ms of the last increase, changes neither the window nor the
/// count of ACKs.
pub proof fn ack_on_a_full_link_counts_for_nothing(
    cc: CongestionControl,
    window: int,
    in_flight: int,
    now_ms: u64,
)
    requires
        in_flight * 1000 * 100 >= window * if cc.fast_recovery_mode {
            95int
        } else {
            85int
        } || now_ms <= cc.last_window_increase_ms + 200,
    ensures
        acked(cc, window, in_flight, now_ms).1 == window,
        acked(cc, window, in_flight, now_ms).0 == (CongestionControl {
            fast_recovery_mode: cc.fast_recovery_mode && window < 12_000,
            ..cc
        }),
{
}

/// A NAK takes 100 off the window, down to 1000; it is counted, starts the count of
/// ACKs over, and switches fast recovery on where the window falls to 2000 or below.
pub proof fn nak_shrinks_the_window(cc: CongestionControl, window: int, now_ms: u64)
    ensures
        ({
            let left = CongestionControl::window_after_nak(window);
            let after = cc.after_nak(left, now_ms);
            &&& window > 1100 ==> left == window - 100
            &&& window <= 1100 ==> left == 1000
            &&& cc.nak_count < i32::MAX ==> after.nak_count == cc.nak_count + 1
            &&& after.last_nak_time_ms == now_ms
            &&& after.consecutive_acks_without_nak == 0
            &&& after.last_window_increase_ms == cc.last_window_increase_ms
            &&& after.fast_recovery_mode <==> cc.fast_recovery_mode || window <= 2100
            &&& after.fast_recovery_start_ms == if !cc.fast_recovery_mode && window <= 2100 {
                now_ms
            } else {
                cc.fast_recovery_start_ms
            }
        }),
{
}

/// Recovery by time of a link that saw a NAK: after two quiet seconds, and a second
/// after the last increase, the window gains 30, and 60 after ten quiet seconds; in
/// fast recovery twice that, after half a second and 300 ms. It never exceeds 60000,
/// and a link that is not connected gains nothing.
pub proof fn quiet_time_grows_the_window(
    cc: CongestionControl,
    window: int,
    connected: bool,
    now_ms: u64,
)
    requires
        window <= 60_000,
        cc.last_nak_time_ms <= now_ms,
        cc.last_window_increase_ms <= now_ms,
    ensures
        ({
            let grown = cc.window_after_recovery(window, connected, now_ms);
            let quiet = now_ms - cc.last_nak_time_ms;
            let pause = now_ms - cc.last_window_increase_ms;
            let waited = if cc.fast_recovery_mode {
                quiet > 500 && pause > 300
            } else {
                quiet > 2000 && pause > 1000
            };
            let step = (if quiet > 10_000 {
                60int
            } else {
                30int
            }) * if cc.fast_recovery_mode {
                2int
            } else {
                1int
            };
            grown == if connected && cc.last_nak_time_ms > 0 && waited {
                if window + step < 60_000 {
                    window + step
                } else {
                    60_000
                }
            } else {
                window
            }
        }),
{
}

/// The age of the last NAK is the time since it came; there is none before the first.
pub proof fn nak_ages_with_time(cc: CongestionControl, now_ms: u64)
    ensures
        cc.last_nak_time_ms == 0 ==> cc.nak_age(now_ms) is None,
        0 < cc.last_nak_time_ms <= now_ms ==> cc.nak_age(now_ms) is Some && cc.last_nak_time_ms
            + cc.nak_age(now_ms)->0 == now_ms,
{
}

/// In classic mode an ACK adds 29 to the window, up to 60000, where a thousand for each
/// packet in flight is more than the window; else nothing.
pub proof fn classic_ack_grows_a_window_in_use(window: int, in_flight: int)
    requires
        1000 <= window <= 60_000,
    ensures
        in_flight * 1000 <= window ==> CongestionControl::window_after_classic_ack(
            window,
            in_flight,
        ) == window,
        in_flight * 1000 > window && window <= 59_971
            ==> CongestionControl::window_after_classic_ack(window, in_flight) == window + 29,
        in_flight * 1000 > window && window > 59_971
            ==> CongestionControl::window_after_classic_ack(window, in_flight) == 60_000,
{
}

/// A recovery pass forgets a burst whose last NAK is a second ago or more, on a connected
/// link whose window is not full, and else keeps it. A step notes its time, and ends fast
/// recovery at a window of 12000.
pub proof fn burst_is_forgotten_after_a_second(
    cc: CongestionControl,
    window: int,
    connected: bool,
    now_ms: u64,
)
    requires
        1000 <= window <= 60_000,
        cc.nak_burst_count >= 0,
        cc.last_nak_time_ms <= now_ms,
        cc.last_window_increase_ms <= now_ms,
    ensures
        ({
            let after = cc.after_recovery(window, connected, now_ms);
            let over = connected && window < 60_000 && cc.last_nak_time_ms > 0 && now_ms
                >= cc.last_nak_time_ms + 1000;
            let grown = cc.window_after_recovery(window, connected, now_ms);
            &&& over ==> after.nak_burst_count == 0
            &&& over && cc.nak_burst_count > 0 ==> after.nak_burst_start_time_ms == 0
            &&& !over ==> after.nak_burst_count == cc.nak_burst_count
                && after.nak_burst_start_time_ms == cc.nak_burst_start_time_ms
            &&& grown != window ==> after.last_window_increase_ms == now_ms
            &&& grown == window ==> after.last_window_increase_ms == cc.last_window_increase_ms
            &&& after.fast_recovery_mode <==> cc.fast_recovery_mode && (grown == window || grown
                < 12_000)
            &&& after.nak_count == cc.nak_count
            &&& after.last_nak_time_ms == cc.last_nak_time_ms
            &&& after.consecutive_acks_without_nak == cc.consecutive_acks_without_nak
        }),
{
}

} // verus!
