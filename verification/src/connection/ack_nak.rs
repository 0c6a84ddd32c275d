//! What ACKs and NAKs do to a link.

use crate::clock::{elapsed, since};
use crate::connection::congestion::{acked, cap_window, capped, CongestionControl};
use crate::connection::link::{SrtlaConnection, MAX_TRACKED_PACKETS, TARGETED_ACK_RANGE};
use crate::connection::packet_log::up_to;
use crate::connection::rtt::{
    last_items, last_items_are_the_end, MAX_RTT_MS, SLOW_WINDOW_SAMPLES,
};
use crate::protocol::constants::{WINDOW_DECR, WINDOW_INCR, WINDOW_MULT};
use vstd::prelude::*;

verus! {

proof fn removal_keeps_log_small(log: Map<i32, u64>, gone: Set<i32>)
    requires
        log.dom().finite(),
    ensures
        log.remove_keys(gone).dom().finite(),
        log.remove_keys(gone).len() <= log.len(),
{
    assert(log.remove_keys(gone).dom() =~= log.dom().difference(gone));
    vstd::set_lib::lemma_len_difference(log.dom(), gone);
}

impl SrtlaConnection {
    /// Whether a cumulative ACK clears the log one number at a time: where it is
    /// not the first and lies close above the last.
    pub open spec fn acks_in_small_steps(&self, ack: i32) -> bool {
        self.highest_acked_seq != i32::MIN && ack - self.highest_acked_seq <= TARGETED_ACK_RANGE
    }

    /// The numbers that a cumulative ACK clears from the log: those up to it, and
    /// where it lies close above the last one only those above that.
    pub open spec fn cleared_by_ack(&self, ack: i32) -> Set<i32> {
        if self.acks_in_small_steps(ack) {
            up_to(self.highest_acked_seq + 1, ack as int)
        } else {
            up_to(i32::MIN as int, ack as int)
        }
    }

    /// The round-trip time that a cumulative ACK at `now_ms` gives: the age of the
    /// packet it names, where that is in the log and its age credible.
    pub open spec fn ack_sample(&self, ack: i32, now_ms: u64) -> Option<u64> {
        if ack > self.highest_acked_seq && self.packet_log@.contains_key(ack) && 0 < since(
            now_ms,
            self.packet_log@[ack],
        ) <= MAX_RTT_MS {
            Some(since(now_ms, self.packet_log@[ack]))
        } else {
            None
        }
    }

    /// Whether `self` is what a cumulative ACK at `now_ms` makes of `before`: an ACK
    /// that is not above the last one changes nothing; any other clears the log,
    /// and its sample joins the others.
    pub open spec fn follows_srt_ack(&self, before: &Self, ack: i32, now_ms: u64) -> bool {
        let sample = before.ack_sample(ack, now_ms);
        if ack <= before.highest_acked_seq {
            *self == *before
        } else {
            &&& self.packet_log@ == before.packet_log@.remove_keys(before.cleared_by_ack(ack))
            &&& self.rtt.wf()
            &&& self.rtt.slow() == match sample {
                Some(rtt) => last_items(before.rtt.slow().push(rtt), SLOW_WINDOW_SAMPLES as nat),
                None => before.rtt.slow(),
            }
            &&& self.rtt.last_rtt_measurement_ms == if sample is Some {
                now_ms
            } else {
                before.rtt.last_rtt_measurement_ms
            }
            &&& self.rtt.last_keepalive_sent_ms == before.rtt.last_keepalive_sent_ms
            &&& self.rtt.waiting_for_keepalive_response
                == before.rtt.waiting_for_keepalive_response
            &&& *self == (SrtlaConnection {
                packet_log: self.packet_log,
                in_flight_packets: self.packet_log@.len() as i32,
                highest_acked_seq: ack,
                rtt: self.rtt,
                ..*before
            })
        }
    }

    /// Takes in a cumulative SRT ACK: the packets it covers leave the log. An ACK
    /// that is not above the last one changes nothing. The round-trip time that
    /// it gives, if any, joins the link's samples and is returned.
    pub fn handle_srt_ack(&mut self, ack: i32, now_ms: u64) -> (sample: Option<u64>)
        requires
            old(self).rtt.wf(),
        ensures
            sample == old(self).ack_sample(ack, now_ms),
            final(self).follows_srt_ack(old(self), ack, now_ms),
            old(self).wf() ==> final(self).wf(),
    {
        proof {
            if self.packet_log@.dom().finite() {
                removal_keeps_log_small(self.packet_log@, self.cleared_by_ack(ack));
            }
        }
        if ack <= self.highest_acked_seq {
            return None;
        }
        let sent: Option<u64> = self.packet_log.get(ack);
        let old_highest: i32 = self.highest_acked_seq;
        self.highest_acked_seq = ack;
        let range: i64 = ack as i64 - old_highest as i64;
        if range <= TARGETED_ACK_RANGE && old_highest != i32::MIN {
            self.packet_log.remove_range(old_highest, ack);
        } else {
            self.packet_log.retain_after(ack);
        }
        self.in_flight_packets = self.packet_log.len() as i32;
        if let Some(sent_ms) = sent {
            let rtt: u64 = elapsed(now_ms, sent_ms);
            if rtt > 0 && rtt <= MAX_RTT_MS {
                self.rtt.update_estimate(rtt, now_ms);
                return Some(rtt);
            }
        }
        None
    }

    /// Whether `self` is what a NAK for packet `seq` at `now_ms` makes of `before`.
    pub open spec fn follows_nak(&self, before: &Self, seq: i32, now_ms: u64) -> bool {
        &&& self.packet_log@ == before.packet_log@.remove(seq)
        &&& *self == if before.packet_log@.contains_key(seq) {
            let window = CongestionControl::window_after_nak(before.window as int);
            SrtlaConnection {
                packet_log: self.packet_log,
                in_flight_packets: self.packet_log@.len() as i32,
                window: window as i32,
                congestion: before.congestion.after_nak(window, now_ms),
                ..*before
            }
        } else {
            SrtlaConnection { packet_log: self.packet_log, ..*before }
        }
    }

    /// Takes in a NAK for one packet. Only a packet in this link's log counts: it
    /// leaves the log and the window shrinks.
    pub fn handle_nak(&mut self, seq: i32, now_ms: u64) -> (found: bool)
        requires
            old(self).window >= i32::MIN + WINDOW_DECR,
        ensures
            found == old(self).packet_log@.contains_key(seq),
            final(self).follows_nak(old(self), seq, now_ms),
            old(self).wf() ==> final(self).wf(),
    {
        let found: bool = self.packet_log.remove(seq).is_some();
        if found {
            self.in_flight_packets = self.packet_log.len() as i32;
            let _ = self.congestion.handle_nak(
                &mut self.window,
                seq,
                self.label.as_str(),
                now_ms,
            );
        }
        found
    }

    /// The window that an SRTLA ACK for a packet of this link leaves, where
    /// `in_flight` packets are left in flight.
    pub open spec fn window_after_srtla_ack(
        &self,
        in_flight: int,
        classic_mode: bool,
        now_ms: u64,
    ) -> int {
        if classic_mode {
            if in_flight * WINDOW_MULT > self.window {
                capped(self.window + WINDOW_INCR - 1)
            } else {
                self.window as int
            }
        } else if self.congestion.ack_grows(self.window as int, in_flight, now_ms) {
            capped(self.window + WINDOW_INCR)
        } else {
            self.window as int
        }
    }

    /// Whether `self` is what an SRTLA ACK for packet `seq` at `now_ms` makes of
    /// `before`.
    pub open spec fn follows_srtla_ack(
        &self,
        before: &Self,
        seq: i32,
        classic_mode: bool,
        now_ms: u64,
    ) -> bool {
        &&& self.packet_log@ == before.packet_log@.remove(seq)
        &&& *self == if before.packet_log@.contains_key(seq) {
            let in_flight = self.packet_log@.len() as int;
            let window = before.window_after_srtla_ack(in_flight, classic_mode, now_ms);
            SrtlaConnection {
                packet_log: self.packet_log,
                in_flight_packets: in_flight as i32,
                window: window as i32,
                congestion: if classic_mode {
                    before.congestion
                } else {
                    before.congestion.after_ack(before.window as int, window, in_flight, now_ms)
                },
                last_ack_or_rtt_sample_ms: now_ms,
                ..*before
            }
        } else {
            SrtlaConnection { packet_log: self.packet_log, ..*before }
        }
    }

    /// Takes in an SRTLA ACK for one packet. Only a packet in this link's log
    /// counts: it leaves the log, proves that the link delivers, and may grow the
    /// window by the rule of the mode.
    pub fn handle_srtla_ack_specific(&mut self, seq: i32, classic_mode: bool, now_ms: u64) -> (found:
        bool)
        requires
            old(self).window <= i32::MAX - WINDOW_INCR,
            old(self).packet_log@.dom().finite(),
            old(self).packet_log@.len() <= MAX_TRACKED_PACKETS,
        ensures
            found == old(self).packet_log@.contains_key(seq),
            final(self).follows_srtla_ack(old(self), seq, classic_mode, now_ms),
            old(self).wf() ==> final(self).wf(),
    {
        let found: bool = self.packet_log.remove(seq).is_some();
        if found {
            self.in_flight_packets = self.packet_log.len() as i32;
            self.last_ack_or_rtt_sample_ms = now_ms;
            if classic_mode {
                self.congestion.handle_srtla_ack_specific_classic(
                    &mut self.window,
                    self.in_flight_packets,
                    seq,
                    self.label.as_str(),
                );
            } else {
                self.congestion.handle_srtla_ack_enhanced(
                    &mut self.window,
                    self.in_flight_packets,
                    self.label.as_str(),
                    now_ms,
                );
            }
        }
        found
    }

    /// The window that any SRTLA ACK leaves on this link.
    pub open spec fn window_after_global_ack(&self) -> int {
        if self.connected && self.last_received is Some {
            capped(self.window + 1)
        } else {
            self.window as int
        }
    }

    /// The link after an SRTLA ACK for whichever link.
    pub open spec fn after_global_ack(&self) -> SrtlaConnection {
        SrtlaConnection { window: self.window_after_global_ack() as i32, ..*self }
    }

    /// Takes in an SRTLA ACK for whichever link: a connected link that has
    /// received something gains one unit of window.
    pub fn handle_srtla_ack_global(&mut self)
        requires
            old(self).window < i32::MAX,
        ensures
            *final(self) == old(self).after_global_ack(),
            old(self).wf() ==> final(self).wf(),
    {
        if self.connected && self.last_received.is_some() {
            self.window = cap_window(self.window + 1);
        }
    }
}

/// A cumulative ACK clears everything up to it, as long as no number at or below the
/// last ACK was logged since.
pub proof fn ack_clears_all_up_to_it(
    before: SrtlaConnection,
    after: SrtlaConnection,
    ack: i32,
    now_ms: u64,
    seq: i32,
)
    requires
        after.follows_srt_ack(&before, ack, now_ms),
        ack > before.highest_acked_seq,
        before.packet_log@.contains_key(seq) ==> seq > before.highest_acked_seq,
    ensures
        after.packet_log@.contains_key(seq) <==> before.packet_log@.contains_key(seq) && seq > ack,
        after.packet_log@.contains_key(seq) ==> after.packet_log@[seq] == before.packet_log@[seq],
        after.highest_acked_seq == ack,
{
}

/// A second NAK for the same packet changes nothing: the first took the packet out of
/// the log.
pub proof fn repeated_nak_changes_nothing(
    before: SrtlaConnection,
    mid: SrtlaConnection,
    after: SrtlaConnection,
    seq: i32,
    first_ms: u64,
    second_ms: u64,
)
    requires
        mid.follows_nak(&before, seq, first_ms),
        after.follows_nak(&mid, seq, second_ms),
    ensures
        !mid.packet_log@.contains_key(seq),
        after.packet_log@ == mid.packet_log@,
        after == (SrtlaConnection { packet_log: after.packet_log, ..mid }),
{
    assert(mid.packet_log@.remove(seq) =~= mid.packet_log@);
}

/// A NAK for a packet of this link takes it out of flight and 100 off the window, down
/// to 1000; a NAK for any other packet changes nothing.
pub proof fn nak_charges_the_link_of_its_packet(
    before: SrtlaConnection,
    after: SrtlaConnection,
    seq: i32,
    other: i32,
    now_ms: u64,
)
    requires
        after.follows_nak(&before, seq, now_ms),
        before.wf(),
        other != seq,
    ensures
        after.packet_log@.contains_key(other) <==> before.packet_log@.contains_key(other),
        !after.packet_log@.contains_key(seq),
        before.packet_log@.contains_key(seq) ==> {
            &&& after.in_flight_packets == before.in_flight_packets - 1
            &&& after.window == if before.window > 1100 {
                before.window - 100
            } else {
                1000
            }
            &&& before.congestion.nak_count < i32::MAX ==> after.congestion.nak_count
                == before.congestion.nak_count + 1
            &&& after.congestion.last_nak_time_ms == now_ms
        },
        !before.packet_log@.contains_key(seq) ==> {
            &&& after.in_flight_packets == before.in_flight_packets
            &&& after.window == before.window
            &&& after.congestion == before.congestion
        },
        after.last_ack_or_rtt_sample_ms == before.last_ack_or_rtt_sample_ms,
{
    if before.packet_log@.contains_key(seq) {
        assert(before.packet_log@.remove(seq).dom() =~= before.packet_log@.dom().remove(seq));
    }
}

/// An SRTLA ACK for a packet of this link takes it out of flight and proves delivery;
/// one for any other packet changes nothing. In classic mode the window then grows by
/// 29, up to 60000, where more packets are left in flight than it has room for.
pub proof fn srtla_ack_proves_delivery(
    before: SrtlaConnection,
    after: SrtlaConnection,
    seq: i32,
    other: i32,
    classic_mode: bool,
    now_ms: u64,
)
    requires
        after.follows_srtla_ack(&before, seq, classic_mode, now_ms),
        before.wf(),
        other != seq,
    ensures
        after.packet_log@.contains_key(other) <==> before.packet_log@.contains_key(other),
        !after.packet_log@.contains_key(seq),
        before.packet_log@.contains_key(seq) ==> {
            &&& after.in_flight_packets == before.in_flight_packets - 1
            &&& after.last_ack_or_rtt_sample_ms == now_ms
            &&& classic_mode ==> after.congestion == before.congestion
            &&& classic_mode && (before.in_flight_packets - 1) * 1000 > before.window
                ==> after.window == if before.window + 29 < 60_000 {
                before.window + 29
            } else {
                60_000
            }
            &&& classic_mode && (before.in_flight_packets - 1) * 1000 <= before.window
                ==> after.window == before.window
            &&& !classic_mode ==> (after.congestion, after.window as int) == acked(
                before.congestion,
                before.window as int,
                before.in_flight_packets - 1,
                now_ms,
            )
        },
        !before.packet_log@.contains_key(seq) ==> {
            &&& after.in_flight_packets == before.in_flight_packets
            &&& after.window == before.window
            &&& after.congestion == before.congestion
            &&& after.last_ack_or_rtt_sample_ms == before.last_ack_or_rtt_sample_ms
        },
{
    if before.packet_log@.contains_key(seq) {
        assert(before.packet_log@.remove(seq).dom() =~= before.packet_log@.dom().remove(seq));
    }
}

/// Any SRTLA ACK adds one to the window of a connected link that has received
/// something, up to 60000, and changes nothing else.
pub proof fn any_srtla_ack_adds_one(conn: SrtlaConnection)
    requires
        conn.window <= 60_000,
    ensures
        conn.connected && conn.last_received is Some && conn.window < 60_000
            ==> conn.after_global_ack() == (SrtlaConnection {
            window: (conn.window + 1) as i32,
            ..conn
        }),
        !conn.connected || conn.last_received is None || conn.window == 60_000
            ==> conn.after_global_ack() == conn,
{
}

/// A cumulative ACK measures a round-trip time where it is above the last one, its
/// packet is in the log, and was sent up to ten seconds ago; the time is that age. An
/// ACK that is not above the last one changes nothing.
pub proof fn ack_measures_its_packet(
    before: SrtlaConnection,
    after: SrtlaConnection,
    ack: i32,
    now_ms: u64,
)
    requires
        after.follows_srt_ack(&before, ack, now_ms),
    ensures
        ack <= before.highest_acked_seq ==> after == before && before.ack_sample(
            ack,
            now_ms,
        ) is None,
        before.ack_sample(ack, now_ms) is Some <==> ack > before.highest_acked_seq
            && before.packet_log@.contains_key(ack) && before.packet_log@[ack] < now_ms
            <= before.packet_log@[ack] + 10_000,
        before.ack_sample(ack, now_ms) is Some ==> before.packet_log@[ack] + before.ack_sample(
            ack,
            now_ms,
        )->0 == now_ms,
        ack > before.highest_acked_seq && after.packet_log@.len() <= i32::MAX
            ==> after.in_flight_packets == after.packet_log@.len(),
        after.window == before.window,
        after.last_ack_or_rtt_sample_ms == before.last_ack_or_rtt_sample_ms,
{
}

/// An ACK that measures a packet adds the time to the samples of the link and notes when;
/// one that measures none leaves them. A keepalive that is awaited stays so.
pub proof fn ack_sample_joins_the_others(
    before: SrtlaConnection,
    after: SrtlaConnection,
    ack: i32,
    now_ms: u64,
)
    requires
        after.follows_srt_ack(&before, ack, now_ms),
    ensures
        before.ack_sample(ack, now_ms) matches Some(rtt) ==> {
            &&& after.rtt.last_rtt_measurement_ms == now_ms
            &&& after.rtt.slow().len() > 0
            &&& after.rtt.slow().last() == rtt
        },
        before.ack_sample(ack, now_ms) is None ==> after.rtt.slow() == before.rtt.slow()
            && after.rtt.last_rtt_measurement_ms == before.rtt.last_rtt_measurement_ms,
        after.rtt.last_keepalive_sent_ms == before.rtt.last_keepalive_sent_ms,
        after.rtt.waiting_for_keepalive_response == before.rtt.waiting_for_keepalive_response,
        after.congestion == before.congestion,
        after.last_ack_or_rtt_sample_ms == before.last_ack_or_rtt_sample_ms,
{
    if let Some(rtt) = before.ack_sample(ack, now_ms) {
        last_items_are_the_end(before.rtt.slow().push(rtt), 100, 0);
    }
}

} // verus!
