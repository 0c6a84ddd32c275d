//! Measured send rate of a link, in whole bits per second.

use crate::clock::{elapsed, since};
use vstd::prelude::*;

verus! {

/// Time over which one rate is measured.
pub const BITRATE_UPDATE_INTERVAL_MS: u64 = 2000;

/// Bytes sent on a link and the rate they were sent at.
#[derive(Debug, Clone, Copy, PartialEq, Eq, Structural)]
pub struct BitrateTracker {
    pub bytes_sent_total: u64,
    /// Total at the last measurement.
    pub bytes_sent_window: u64,
    pub last_rate_update_ms: u64,
    pub current_bitrate_bps: u64,
}

/// `a + b`, or the largest number where that does not fit.
pub open spec fn saturated_sum(a: u64, b: u64) -> u64 {
    if a + b <= u64::MAX {
        (a + b) as u64
    } else {
        u64::MAX
    }
}

/// The bits in `bytes` bytes, or the largest number where they do not fit.
pub open spec fn saturated_bits(bytes: u64) -> u64 {
    if bytes * 8 <= u64::MAX {
        (bytes * 8) as u64
    } else {
        u64::MAX
    }
}

impl BitrateTracker {
    /// Nothing sent, measuring from `now_ms` on.
    pub open spec fn spec_new(now_ms: u64) -> Self {
        BitrateTracker {
            bytes_sent_total: 0,
            bytes_sent_window: 0,
            last_rate_update_ms: now_ms,
            current_bitrate_bps: 0,
        }
    }

    /// Nothing sent, measuring from `now_ms` on.
    pub fn new(now_ms: u64) -> (tracker: Self)
        ensures
            tracker == Self::spec_new(now_ms),
    {
        BitrateTracker {
            bytes_sent_total: 0,
            bytes_sent_window: 0,
            last_rate_update_ms: now_ms,
            current_bitrate_bps: 0,
        }
    }

    /// Starts over.
    pub fn reset(&mut self, now_ms: u64)
        ensures
            *final(self) == Self::spec_new(now_ms),
    {
        *self = Self::new(now_ms);
    }

    /// Counts bytes that were sent.
    pub fn update_on_send(&mut self, bytes_sent: u64)
        ensures
            *final(self) == (BitrateTracker {
                bytes_sent_total: saturated_sum(old(self).bytes_sent_total, bytes_sent),
                ..*old(self)
            }),
    {
        self.bytes_sent_total = self.bytes_sent_total.saturating_add(bytes_sent);
    }

    /// The rate over the time since the last measurement: the bits sent, per
    /// second.
    pub open spec fn measured_rate(&self, now_ms: u64) -> int {
        saturated_bits(since(self.bytes_sent_total, self.bytes_sent_window)) * 1000 / (since(
            now_ms,
            self.last_rate_update_ms,
        ) as int)
    }

    /// The tracker after the rate was measured, where that was due.
    pub open spec fn measured(&self, now_ms: u64) -> Self {
        if since(now_ms, self.last_rate_update_ms) < BITRATE_UPDATE_INTERVAL_MS {
            *self
        } else {
            BitrateTracker {
                bytes_sent_total: self.bytes_sent_total,
                bytes_sent_window: self.bytes_sent_total,
                last_rate_update_ms: now_ms,
                current_bitrate_bps: self.measured_rate(now_ms) as u64,
            }
        }
    }

    /// Measures the rate, once `BITRATE_UPDATE_INTERVAL_MS` have passed since the
    /// last measurement.
    pub fn calculate(&mut self, now_ms: u64)
        ensures
            *final(self) == old(self).measured(now_ms),
            since(now_ms, old(self).last_rate_update_ms) >= BITRATE_UPDATE_INTERVAL_MS ==> 0
                <= old(self).measured_rate(now_ms) <= u64::MAX,
    {
        let time_diff_ms: u64 = elapsed(now_ms, self.last_rate_update_ms);
        if time_diff_ms >= BITRATE_UPDATE_INTERVAL_MS {
            let bytes_diff: u64 = self.bytes_sent_total.saturating_sub(self.bytes_sent_window);
            let bits: u64 = if bytes_diff <= u64::MAX / 8 {
                bytes_diff * 8
            } else {
                u64::MAX
            };
            let scaled: u128 = (bits as u128) * 1000;
            let rate: u128 = scaled / (time_diff_ms as u128);
            assert(0 <= rate <= scaled / 2000) by (nonlinear_arith)
                requires
                    rate == scaled / (time_diff_ms as u128),
                    time_diff_ms >= 2000,
            ;
            assert(rate <= u64::MAX);
            self.current_bitrate_bps = rate as u64;
            self.last_rate_update_ms = now_ms;
            self.bytes_sent_window = self.bytes_sent_total;
        }
    }
}

/// A link that sent nothing since the last measurement falls to a rate of zero
/// at the next one.
pub proof fn idle_link_measures_zero(tracker: BitrateTracker, now_ms: u64)
    requires
        tracker.bytes_sent_total == tracker.bytes_sent_window,
        since(now_ms, tracker.last_rate_update_ms) >= BITRATE_UPDATE_INTERVAL_MS,
    ensures
        tracker.measured_rate(now_ms) == 0,
{
    let t = since(now_ms, tracker.last_rate_update_ms) as int;
    assert(0int / t == 0) by (nonlinear_arith)
        requires
            t >= 2000,
    ;
}

/// The rate is the bits sent since the last measurement for each second since then: no
/// more than were sent, and less than one bit in a second short of it.
pub proof fn rate_is_bits_per_second(tracker: BitrateTracker, now_ms: u64)
    requires
        tracker.bytes_sent_window <= tracker.bytes_sent_total,
        (tracker.bytes_sent_total - tracker.bytes_sent_window) * 8 <= u64::MAX,
        now_ms > tracker.last_rate_update_ms,
    ensures
        ({
            let bits = (tracker.bytes_sent_total - tracker.bytes_sent_window) * 8;
            let ms = now_ms - tracker.last_rate_update_ms;
            let rate = tracker.measured_rate(now_ms);
            rate * ms <= bits * 1000 < (rate + 1) * ms
        }),
{
    let bits = (tracker.bytes_sent_total - tracker.bytes_sent_window) * 8;
    let ms = now_ms - tracker.last_rate_update_ms;
    let x = bits * 1000;
    assert((x / ms) * ms <= x < (x / ms + 1) * ms) by (nonlinear_arith)
        requires
            ms >= 1,
            x >= 0,
    ;
    assert(tracker.measured_rate(now_ms) == x / ms);
}

/// Bytes add up, and stop at the top of their range.
pub proof fn bytes_add_up(a: u64, b: u64)
    ensures
        a + b <= u64::MAX ==> saturated_sum(a, b) == a + b,
        a + b > u64::MAX ==> saturated_sum(a, b) == u64::MAX,
{
}

/// The rate is measured every two seconds and no sooner; each measurement begins where the
/// last one ended, and counts all bytes since: so many bits for each second.
pub proof fn rate_is_measured_every_two_seconds(tracker: BitrateTracker, now_ms: u64)
    requires
        tracker.bytes_sent_window <= tracker.bytes_sent_total,
        (tracker.bytes_sent_total - tracker.bytes_sent_window) * 8 <= u64::MAX,
    ensures
        now_ms < tracker.last_rate_update_ms + 2000 ==> tracker.measured(now_ms) == tracker,
        now_ms >= tracker.last_rate_update_ms + 2000 ==> {
            let after = tracker.measured(now_ms);
            let bits = (tracker.bytes_sent_total - tracker.bytes_sent_window) * 8;
            let ms = now_ms - tracker.last_rate_update_ms;
            &&& after.last_rate_update_ms == now_ms
            &&& after.bytes_sent_window == tracker.bytes_sent_total
            &&& after.bytes_sent_total == tracker.bytes_sent_total
            &&& after.current_bitrate_bps * ms <= bits * 1000 < (after.current_bitrate_bps + 1) * ms
        },
{
    if now_ms >= tracker.last_rate_update_ms + 2000 {
        rate_is_bits_per_second(tracker, now_ms);
        let bits = (tracker.bytes_sent_total - tracker.bytes_sent_window) * 8;
        let ms = now_ms - tracker.last_rate_update_ms;
        let x = bits * 1000;
        assert(0 <= x / ms <= bits) by (nonlinear_arith)
            requires
                x == bits * 1000,
                ms >= 2000,
                bits >= 0,
        ;
        assert(tracker.measured_rate(now_ms) == x / ms);
    }
}

} // verus!
