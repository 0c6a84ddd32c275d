//! The state of one uplink.

use crate::clock::{elapsed, since};
use crate::config::{STALL_STALE_FLOOR_MS, STALL_STALE_RTT_MULT};
use crate::connection::batch_send::{
    tracking_info, BatchSender, QueuedPacket, QueuedPacketView, BATCH_SIZE_THRESHOLD,
};
use crate::connection::bitrate::{
    saturated_sum, BitrateTracker, BITRATE_UPDATE_INTERVAL_MS,
};
use crate::connection::congestion::{
    capped, window_ceiling, window_floor, CongestionControl, FAST_RECOVERY_DISABLE_WINDOW,
    NAK_BURST_WINDOW_MS, NORMAL_INCREMENT_WAIT_MS,
};
use crate::connection::enhanced::{
    perform_window_recovery, quiet_time, recovery_amount, recovery_due,
};
use crate::connection::packet_log::{no_entries, PacketLog};
use crate::connection::reconnection::{ReconnectionState, STARTUP_GRACE_MS};
use crate::connection::rtt::RttTracker;
use crate::protocol::builders::{
    conn_info_bytes, create_reg2_packet, keepalive_bytes, keepalive_packet_ext_at,
    registration_bytes,
};
use crate::protocol::constants::{
    CONN_TIMEOUT, IDLE_TIME, PKT_LOG_SIZE, SRTLA_ID_LEN, SRTLA_KEEPALIVE_EXT_LEN, SRTLA_TYPE_REG2,
    SRTLA_TYPE_REG2_LEN, WINDOW_DEF, WINDOW_INCR, WINDOW_MULT,
};
use crate::protocol::types::ConnectionInfo;
use crate::text::{decimal, decimal_digits, joined};
use vstd::prelude::*;
use vstd::string::StringExecFns;

verus! {

/// Samples that take a link from warming to live.
pub const WARMING_RTT_PROBES: u32 = 2;

/// Time after which a warming link is live without them.
pub const WARMING_TIMEOUT_MS: u64 = 5_000;

/// Time for which a computed quality multiplier is used.
pub const QUALITY_CACHE_INTERVAL_MS: u64 = 50;

/// NAKs in a burst at which a link of low quality is degraded.
pub const DEGRADED_NAK_BURST_THRESHOLD: i32 = 5;

/// Widest range of newly acknowledged numbers that is taken out of the log one
/// by one.
pub const TARGETED_ACK_RANGE: i64 = 64;

/// Packets that a log may hold: beyond this an in-flight count times
/// `WINDOW_MULT` would not fit its type.
pub const MAX_TRACKED_PACKETS: usize = 2_147_483;

/// A floating-point number of the caller's, as an integer that orders alike: the
/// bits of a non-negative double, or minus the bits of its magnitude. Equal
/// numbers have equal keys.
pub type OrderKey = i64;

/// The key of 0.5.
pub const HALF_KEY: OrderKey = 0x3fe0_0000_0000_0000;

/// The key of 1.0.
pub const ONE_KEY: OrderKey = 0x3ff0_0000_0000_0000;

/// How far a link is in its life. A phase weights a link; only `Registering`
/// keeps it from being used, because the receiver would drop its data.
#[derive(Debug, Clone, Copy, PartialEq, Eq, Structural)]
pub enum LinkPhase {
    /// REG3 has not come yet.
    Registering,
    /// REG3 has come; round-trip times are being collected.
    Warming { rtt_probes: u32, entered_ms: u64 },
    /// In full use.
    Live,
    /// In use, at a lower score.
    Degraded,
}

impl LinkPhase {
    /// Whether data may be sent on a link in this phase.
    pub fn is_schedulable(&self) -> (r: bool)
        ensures
            r == (*self !is Registering),
    {
        match self {
            LinkPhase::Registering => false,
            _ => true,
        }
    }

    /// The phase's name.
    pub open spec fn name(&self) -> Seq<char> {
        match self {
            LinkPhase::Registering => "registering"@,
            LinkPhase::Warming { rtt_probes, .. } => "warming("@ + decimal_digits(
                *rtt_probes as nat,
            ) + ")"@,
            LinkPhase::Live => "live"@,
            LinkPhase::Degraded => "degraded"@,
        }
    }

    /// The phase's name.
    pub fn to_text(&self) -> (s: String)
        ensures
            s@ == self.name(),
    {
        match self {
            LinkPhase::Registering => "registering".to_owned(),
            LinkPhase::Warming { rtt_probes, .. } => {
                let digits: String = decimal(*rtt_probes as u64);
                let mut s: String = joined("warming(", digits.as_str());
                s.append(")");
                s
            },
            LinkPhase::Live => "live".to_owned(),
            LinkPhase::Degraded => "degraded".to_owned(),
        }
    }
}

impl Default for LinkPhase {
    fn default() -> (phase: Self)
        ensures
            phase == LinkPhase::Registering,
    {
        LinkPhase::Registering
    }
}

/// A quality multiplier and when it was computed.
#[derive(Debug, Clone, Copy, PartialEq, Eq, Structural)]
pub struct CachedQuality {
    pub multiplier: OrderKey,
    pub last_calculated_ms: u64,
}

impl CachedQuality {
    /// The neutral multiplier, never computed.
    pub open spec fn spec_new() -> Self {
        CachedQuality { multiplier: ONE_KEY, last_calculated_ms: 0 }
    }
}

impl Default for CachedQuality {
    fn default() -> (cache: Self)
        ensures
            cache == Self::spec_new(),
    {
        CachedQuality { multiplier: ONE_KEY, last_calculated_ms: 0 }
    }
}

/// One uplink. A time of 0 means never.
pub struct SrtlaConnection {
    pub conn_id: u64,
    pub label: String,
    pub connected: bool,
    pub window: i32,
    pub in_flight_packets: i32,
    pub packet_log: PacketLog,
    /// Number up to which the log was cleared by cumulative ACKs.
    pub highest_acked_seq: i32,
    pub last_received: Option<u64>,
    pub last_sent: Option<u64>,
    pub last_keepalive_sent: Option<u64>,
    /// Time of the last proof that data gets through: an ACK for a packet of this
    /// link, or an answered keepalive. Bytes that merely come in are none.
    pub last_ack_or_rtt_sample_ms: u64,
    /// Whether selection passes over the link, set anew at each selection.
    pub stall_gated: bool,
    /// When the link last got a packet to prove itself with.
    pub last_probe_ms: u64,
    pub rtt: RttTracker,
    /// Smoothed round-trip time, in whole milliseconds; 0 before the first sample.
    pub smooth_rtt_ms: u32,
    /// Whether the smoothed round-trip times show a queue building up.
    pub queue_building: bool,
    pub congestion: CongestionControl,
    pub bitrate: BitrateTracker,
    pub reconnection: ReconnectionState,
    pub quality_cache: CachedQuality,
    pub batch_sender: BatchSender,
    pub phase: LinkPhase,
    /// Verdict of the weak-link classifier.
    pub weak: bool,
    /// Whether rate control is backing off.
    pub cc_backing_off: bool,
    /// Rate that rate control aims at; 0 where it has none yet.
    pub cc_target_bps: u64,
    /// Whether loss has been high for long.
    pub loss_degraded: bool,
}

/// `a + b`, kept within the range of the type.
pub open spec fn clamped_sum(a: i32, b: i32) -> int {
    if a + b > i32::MAX {
        i32::MAX as int
    } else if a + b < i32::MIN {
        i32::MIN as int
    } else {
        a + b
    }
}

fn clamping_add(a: i32, b: i32) -> (r: i32)
    ensures
        r == clamped_sum(a, b),
{
    let sum: i64 = a as i64 + b as i64;
    if sum > i32::MAX as i64 {
        i32::MAX
    } else if sum < i32::MIN as i64 {
        i32::MIN
    } else {
        sum as i32
    }
}

/// `window` divided by `denom`, rounded towards zero.
pub open spec fn share_of_window(window: int, denom: int) -> int {
    if window >= 0 {
        window / denom
    } else {
        -((-window) / denom)
    }
}

/// The log after the tracked packets of a batch were entered in order.
pub open spec fn with_registered(log: Map<i32, u64>, batch: Seq<(Option<u32>, u64)>) -> Map<
    i32,
    u64,
>
    decreases batch.len(),
{
    if batch.len() == 0 {
        log
    } else {
        let before = with_registered(log, batch.drop_last());
        match batch.last().0 {
            Some(seq) => before.insert(seq as i32, batch.last().1),
            None => before,
        }
    }
}

/// Whether a batch holds a tracked packet.
pub open spec fn any_tracked(batch: Seq<(Option<u32>, u64)>) -> bool {
    exists|i: int| 0 <= i < batch.len() && (#[trigger] batch[i]).0 is Some
}

impl SrtlaConnection {
    /// What holds of every link at all times: the window is within its bounds,
    /// the log is finite and no larger than it may be, what is in flight is what it
    /// holds, the round-trip times are in order, and a warming link has too few of
    /// them to be live.
    pub open spec fn wf(&self) -> bool {
        &&& window_floor() <= self.window <= window_ceiling()
        &&& self.packet_log@.dom().finite()
        &&& self.packet_log@.len() <= MAX_TRACKED_PACKETS
        &&& self.in_flight_packets == self.packet_log@.len()
        &&& self.rtt.wf()
        &&& self.phase matches LinkPhase::Warming { rtt_probes, .. } ==> rtt_probes
            < WARMING_RTT_PROBES
    }

    /// A link that waits to be registered.
    pub fn new_registering(conn_id: u64, label: String, now: u64) -> (conn: Self)
        requires
            now <= u64::MAX - STARTUP_GRACE_MS,
        ensures
            conn.wf(),
            conn.conn_id == conn_id,
            conn.label@ == label@,
            !conn.connected,
            conn.window == WINDOW_DEF * WINDOW_MULT,
            conn.in_flight_packets == 0,
            conn.packet_log@ == no_entries(),
            conn.highest_acked_seq == i32::MIN,
            conn.last_received is None,
            conn.last_sent is None,
            conn.last_keepalive_sent is None,
            conn.last_ack_or_rtt_sample_ms == 0,
            !conn.stall_gated,
            conn.last_probe_ms == 0,
            conn.rtt.is_fresh(),
            conn.smooth_rtt_ms == 0,
            !conn.queue_building,
            conn.congestion == CongestionControl::spec_new(),
            conn.bitrate == BitrateTracker::spec_new(now),
            conn.reconnection == (ReconnectionState {
                startup_grace_deadline_ms: (now + STARTUP_GRACE_MS) as u64,
                ..ReconnectionState::spec_new()
            }),
            conn.quality_cache == CachedQuality::spec_new(),
            conn.batch_sender.queue@ == Seq::<QueuedPacket>::empty(),
            conn.batch_sender.last_flush_ms == now,
            conn.phase is Registering,
            !conn.weak,
            !conn.cc_backing_off,
            conn.cc_target_bps == 0,
            !conn.loss_degraded,
    {
        let mut reconnection = ReconnectionState::default();
        reconnection.reset_startup_grace(now);
        SrtlaConnection {
            conn_id,
            label,
            connected: false,
            window: WINDOW_DEF * WINDOW_MULT,
            in_flight_packets: 0,
            packet_log: PacketLog::with_capacity(PKT_LOG_SIZE),
            highest_acked_seq: i32::MIN,
            last_received: None,
            last_sent: None,
            last_keepalive_sent: None,
            last_ack_or_rtt_sample_ms: 0,
            stall_gated: false,
            last_probe_ms: 0,
            rtt: RttTracker::new(),
            smooth_rtt_ms: 0,
            queue_building: false,
            congestion: CongestionControl::new(),
            bitrate: BitrateTracker::new(now),
            reconnection,
            quality_cache: CachedQuality::default(),
            batch_sender: BatchSender::new(now),
            phase: LinkPhase::Registering,
            weak: false,
            cc_backing_off: false,
            cc_target_bps: 0,
            loss_degraded: false,
        }
    }

    /// Packets that weigh on the link: in flight and queued.
    pub open spec fn load(&self) -> int {
        clamped_sum(self.in_flight_packets, self.batch_sender.queue@.len() as i32)
    }

    /// The capacity score: the window, divided by one more than the packets in
    /// flight and queued. A link that is not connected scores minus one.
    pub open spec fn score(&self) -> int {
        if !self.connected {
            -1
        } else {
            let denom = clamped_sum(self.load() as i32, 1);
            share_of_window(
                self.window as int,
                if denom < 1 {
                    1
                } else {
                    denom
                },
            )
        }
    }

    /// The capacity score.
    pub fn get_score(&self) -> (score: i32)
        ensures
            score == self.score(),
    {
        if !self.connected {
            return -1;
        }
        let load: i32 = clamping_add(self.in_flight_packets, self.batch_sender.queued_count());
        let next: i32 = clamping_add(load, 1);
        let denom: i64 = if next < 1 {
            1
        } else {
            next as i64
        };
        let window: i64 = self.window as i64;
        let magnitude: i64 = if window >= 0 {
            window
        } else {
            -window
        };
        let quotient: i64 = magnitude / denom;
        assert(0 <= quotient <= magnitude) by (nonlinear_arith)
            requires
                quotient == magnitude / denom,
                denom >= 1,
                magnitude >= 0,
        ;
        if window >= 0 {
            quotient as i32
        } else {
            (-quotient) as i32
        }
    }

    /// Whether `self` is `before` with one more packet at the end of the queue and
    /// its bytes counted.
    pub open spec fn has_queued(
        &self,
        before: &Self,
        data: Seq<u8>,
        seq: Option<u32>,
        queued_ms: u64,
    ) -> bool {
        &&& self.batch_sender.queue@.len() == before.batch_sender.queue@.len() + 1
        &&& self.batch_sender.queue@.drop_last() == before.batch_sender.queue@
        &&& self.batch_sender.queue@.last()@ == (QueuedPacketView { data, seq, queued_ms })
        &&& self.batch_sender.last_flush_ms == before.batch_sender.last_flush_ms
        &&& *self == (SrtlaConnection {
            batch_sender: self.batch_sender,
            bitrate: BitrateTracker {
                bytes_sent_total: saturated_sum(
                    before.bitrate.bytes_sent_total,
                    data.len() as u64,
                ),
                ..before.bitrate
            },
            ..*before
        })
    }

    /// Queues a data packet and counts its bytes; true once the queue is full.
    pub fn queue_data_packet(
        &mut self,
        data: &[u8],
        seq: Option<u32>,
        send_time_ms: u64,
    ) -> (full: bool)
        ensures
            final(self).has_queued(old(self), data@, seq, send_time_ms),
            full == (final(self).batch_sender.queue@.len() >= BATCH_SIZE_THRESHOLD),
            old(self).wf() ==> final(self).wf(),
    {
        self.bitrate.update_on_send(data.len() as u64);
        self.batch_sender.queue_packet(data, seq, send_time_ms)
    }

    /// Whether the queue is due by time.
    pub fn needs_batch_flush(&self, now_ms: u64) -> (r: bool)
        ensures
            r == self.batch_sender.flush_due(now_ms),
    {
        self.batch_sender.needs_time_flush(now_ms)
    }

    /// Whether packets are queued.
    pub fn has_queued_packets(&self) -> (r: bool)
        ensures
            r == (self.batch_sender.queue@.len() > 0),
    {
        self.batch_sender.has_queued_packets()
    }

    /// Logs a packet as in flight.
    pub fn register_packet(&mut self, seq: i32, send_time_ms: u64)
        ensures
            final(self).packet_log@ == old(self).packet_log@.insert(seq, send_time_ms),
            *final(self) == (SrtlaConnection {
                packet_log: final(self).packet_log,
                in_flight_packets: final(self).packet_log@.len() as i32,
                ..*old(self)
            }),
            old(self).wf() && old(self).packet_log@.len() < MAX_TRACKED_PACKETS
                ==> final(self).wf(),
    {
        self.packet_log.insert(seq, send_time_ms);
        self.in_flight_packets = self.packet_log.len() as i32;
    }

    /// Whether `self` is `before` with its queue taken out at `now`: the packets
    /// with a sequence number are in the log.
    pub open spec fn has_taken_batch(&self, before: &Self, now: u64) -> bool {
        let batch = before.batch_sender.queue@;
        &&& self.batch_sender.queue@ == Seq::<QueuedPacket>::empty()
        &&& self.batch_sender.last_flush_ms == if batch.len() > 0 {
            now
        } else {
            before.batch_sender.last_flush_ms
        }
        &&& self.packet_log@ == with_registered(before.packet_log@, tracking_info(batch))
        &&& *self == (SrtlaConnection {
            batch_sender: self.batch_sender,
            packet_log: self.packet_log,
            in_flight_packets: if any_tracked(tracking_info(batch)) {
                self.packet_log@.len() as i32
            } else {
                before.in_flight_packets
            },
            last_sent: if batch.len() > 0 {
                Some(now)
            } else {
                before.last_sent
            },
            ..*before
        })
    }

    /// Takes the queued packets out for sending. Those with a sequence number
    /// count as in flight from now on; should the send fail, `mark_for_recovery`
    /// clears the log again.
    pub fn take_batch(&mut self, now: u64) -> (batch: Vec<QueuedPacket>)
        ensures
            batch@ == old(self).batch_sender.queue@,
            final(self).has_taken_batch(old(self), now),
            old(self).wf() && old(self).packet_log@.len() + batch@.len() <= MAX_TRACKED_PACKETS
                ==> final(self).wf(),
    {
        let batch: Vec<QueuedPacket> = self.batch_sender.drain(now);
        if batch.len() == 0 {
            assert(tracking_info(batch@) =~= Seq::empty());
            return batch;
        }
        let ghost all = tracking_info(batch@);
        let mut i: usize = 0;
        assert(all.take(0) =~= Seq::empty());
        while i < batch.len()
            invariant
                i <= batch@.len(),
                all == tracking_info(batch@),
                batch@ == old(self).batch_sender.queue@,
                self.batch_sender.queue@ == Seq::<QueuedPacket>::empty(),
                self.batch_sender.last_flush_ms == now,
                self.packet_log@ == with_registered(old(self).packet_log@, all.take(i as int)),
                *self == (SrtlaConnection {
                    batch_sender: self.batch_sender,
                    packet_log: self.packet_log,
                    in_flight_packets: if any_tracked(all.take(i as int)) {
                        self.packet_log@.len() as i32
                    } else {
                        old(self).in_flight_packets
                    },
                    ..*old(self)
                }),
                old(self).wf() && old(self).packet_log@.len() + batch@.len()
                    <= MAX_TRACKED_PACKETS ==> self.wf() && self.packet_log@.len() <= old(
                    self,
                ).packet_log@.len() + i,
            decreases batch@.len() - i,
        {
            let ghost next = all.take(i + 1);
            assert(next.drop_last() =~= all.take(i as int));
            assert(next.last() == (batch@[i as int].seq, batch@[i as int].queued_ms));
            proof {
                if any_tracked(all.take(i as int)) {
                    let j = choose|j: int|
                        0 <= j < all.take(i as int).len() && (#[trigger] all.take(i as int)[j]).0 is Some;
                    assert(next[j].0 is Some);
                }
                if any_tracked(next) && next.last().0 is None {
                    let j = choose|j: int| 0 <= j < next.len() && (#[trigger] next[j]).0 is Some;
                    assert(all.take(i as int)[j].0 is Some);
                }
            }
            if let Some(seq) = batch[i].seq {
                assert(next[i as int].0 is Some);
                self.register_packet(seq as i32, batch[i].queued_ms);
            }
            i += 1;
        }
        assert(all.take(batch@.len() as int) =~= all);
        self.last_sent = Some(now);
        batch
    }

    /// What a keepalive tells the receiver of this link.
    pub open spec fn telemetry(&self) -> ConnectionInfo {
        ConnectionInfo {
            conn_id: self.conn_id as u32,
            window: self.window,
            in_flight: self.in_flight_packets,
            rtt_ms: self.smooth_rtt_ms,
            nak_count: self.congestion.nak_count as u32,
            bitrate_bytes_per_sec: if self.bitrate.current_bitrate_bps / 8 <= u32::MAX {
                (self.bitrate.current_bitrate_bps / 8) as u32
            } else {
                u32::MAX
            },
        }
    }

    /// Whether `self` is `before` with a keepalive sent at `now`. Its answer is
    /// measured where a new round-trip time is due.
    pub open spec fn has_sent_keepalive(&self, before: &Self, now: u64) -> bool {
        &&& self.rtt.wf()
        &&& self.rtt.slow() == before.rtt.slow()
        &&& self.rtt.last_rtt_measurement_ms == before.rtt.last_rtt_measurement_ms
        &&& self.rtt.waiting_for_keepalive_response == (
        before.rtt.waiting_for_keepalive_response || before.rtt.sample_due(now))
        &&& self.rtt.last_keepalive_sent_ms == if before.rtt.sample_due(now) {
            now
        } else {
            before.rtt.last_keepalive_sent_ms
        }
        &&& *self == (SrtlaConnection {
            rtt: self.rtt,
            last_sent: Some(now),
            last_keepalive_sent: Some(now),
            ..*before
        })
    }

    /// Builds an extended keepalive and notes it as sent.
    pub fn keepalive_packet(&mut self, now: u64) -> (pkt: [u8; SRTLA_KEEPALIVE_EXT_LEN])
        requires
            old(self).rtt.wf(),
        ensures
            pkt@ == keepalive_bytes(now) + conn_info_bytes(old(self).telemetry()),
            final(self).has_sent_keepalive(old(self), now),
            old(self).wf() ==> final(self).wf(),
    {
        let bytes_per_sec: u64 = self.bitrate.current_bitrate_bps / 8;
        let info = ConnectionInfo {
            conn_id: self.conn_id as u32,
            window: self.window,
            in_flight: self.in_flight_packets,
            rtt_ms: self.smooth_rtt_ms,
            nak_count: self.congestion.nak_count as u32,
            bitrate_bytes_per_sec: if bytes_per_sec <= u32::MAX as u64 {
                bytes_per_sec as u32
            } else {
                u32::MAX
            },
        };
        self.last_sent = Some(now);
        self.last_keepalive_sent = Some(now);
        if self.rtt.is_sample_due(now) {
            self.rtt.record_keepalive_sent(now);
        }
        keepalive_packet_ext_at(info, now)
    }

    /// Notes that a registration packet was sent on this link.
    pub fn note_sent(&mut self, now: u64)
        ensures
            *final(self) == (SrtlaConnection { last_sent: Some(now), ..*old(self) }),
            old(self).wf() ==> final(self).wf(),
    {
        self.last_sent = Some(now);
    }

    /// Builds a REG2 that probes the link, and starts its grace period.
    pub fn probe_reg2_packet(&mut self, probe_id: &[u8; SRTLA_ID_LEN], now: u64) -> (pkt: [u8;
        SRTLA_TYPE_REG2_LEN])
        requires
            now <= u64::MAX - STARTUP_GRACE_MS,
        ensures
            pkt@ == registration_bytes(SRTLA_TYPE_REG2, probe_id@),
            *final(self) == (SrtlaConnection {
                reconnection: ReconnectionState {
                    startup_grace_deadline_ms: (now + STARTUP_GRACE_MS) as u64,
                    ..old(self).reconnection
                },
                ..*old(self)
            }),
            old(self).wf() ==> final(self).wf(),
    {
        self.reconnection.reset_startup_grace(now);
        create_reg2_packet(probe_id)
    }

    /// Whether a round-trip time is to be measured.
    pub fn needs_rtt_measurement(&self, now_ms: u64) -> (r: bool)
        ensures
            r == (self.reconnection.connection_established_ms != 0 && self.connected
                && self.rtt.sample_due(now_ms)),
    {
        self.rtt.needs_measurement(
            self.connected,
            self.reconnection.connection_established_ms,
            now_ms,
        )
    }

    /// Whether a keepalive is due: on every connected link, once in `IDLE_TIME`
    /// seconds.
    pub open spec fn keepalive_due(&self, now_ms: u64) -> bool {
        self.connected && match self.last_keepalive_sent {
            None => true,
            Some(last) => since(now_ms, last) >= IDLE_TIME * 1000,
        }
    }

    /// Whether a keepalive is due.
    pub fn needs_keepalive(&self, now_ms: u64) -> (r: bool)
        ensures
            r == self.keepalive_due(now_ms),
    {
        if !self.connected {
            return false;
        }
        match self.last_keepalive_sent {
            None => true,
            Some(last) => elapsed(now_ms, last) >= IDLE_TIME * 1000,
        }
    }

    /// Whether the window recovers a step at `now_ms`. A link that never saw a NAK
    /// does too, as one that has been quiet for ever.
    pub open spec fn recovers(&self, now_ms: u64) -> bool {
        recovery_due(
            self.window as int,
            self.connected,
            quiet_time(self.congestion.last_nak_time_ms, now_ms),
            self.congestion.last_window_increase_ms,
            self.congestion.fast_recovery_mode,
            now_ms,
        )
    }

    /// The window once it had time to recover.
    pub open spec fn recovered_window(&self, now_ms: u64) -> int {
        if self.recovers(now_ms) {
            capped(
                self.window + recovery_amount(
                    quiet_time(self.congestion.last_nak_time_ms, now_ms),
                    self.congestion.fast_recovery_mode,
                ),
            )
        } else {
            self.window as int
        }
    }

    /// The link after its window had time to recover.
    pub open spec fn after_window_recovery(&self, now_ms: u64) -> SrtlaConnection {
        let burst_over = self.connected && self.window < window_ceiling() && quiet_time(
            self.congestion.last_nak_time_ms,
            now_ms,
        ) >= NAK_BURST_WINDOW_MS && self.congestion.nak_burst_count > 0;
        SrtlaConnection {
            window: self.recovered_window(now_ms) as i32,
            congestion: CongestionControl {
                nak_burst_count: if burst_over {
                    0
                } else {
                    self.congestion.nak_burst_count
                },
                nak_burst_start_time_ms: if burst_over {
                    0
                } else {
                    self.congestion.nak_burst_start_time_ms
                },
                last_window_increase_ms: if self.recovers(now_ms) {
                    now_ms
                } else {
                    self.congestion.last_window_increase_ms
                },
                fast_recovery_mode: self.congestion.fast_recovery_mode && !(self.recovers(now_ms)
                    && self.recovered_window(now_ms) >= FAST_RECOVERY_DISABLE_WINDOW),
                ..self.congestion
            },
            ..*self
        }
    }

    /// Lets the window recover by time, in the steps of enhanced mode.
    pub fn perform_window_recovery(&mut self, now_ms: u64)
        ensures
            *final(self) == old(self).after_window_recovery(now_ms),
            old(self).wf() ==> final(self).wf(),
    {
        perform_window_recovery(
            &mut self.window,
            self.connected,
            self.congestion.last_nak_time_ms,
            &mut self.congestion.nak_burst_count,
            &mut self.congestion.nak_burst_start_time_ms,
            &mut self.congestion.last_window_increase_ms,
            &mut self.congestion.fast_recovery_mode,
            self.label.as_str(),
            now_ms,
        );
    }

    /// The phase after one more round-trip time was measured.
    pub open spec fn phase_after_probe(phase: LinkPhase) -> LinkPhase {
        match phase {
            LinkPhase::Warming { rtt_probes, entered_ms } => if rtt_probes + 1
                >= WARMING_RTT_PROBES {
                LinkPhase::Live
            } else {
                LinkPhase::Warming { rtt_probes: (rtt_probes + 1) as u32, entered_ms }
            },
            other => other,
        }
    }

    /// Counts a round-trip time; the second takes a warming link to live.
    pub fn record_rtt_probe(&mut self)
        requires
            old(self).phase matches LinkPhase::Warming { rtt_probes, .. } ==> rtt_probes
                < u32::MAX,
        ensures
            *final(self) == (SrtlaConnection {
                phase: Self::phase_after_probe(old(self).phase),
                ..*old(self)
            }),
            old(self).wf() ==> final(self).wf(),
    {
        match self.phase {
            LinkPhase::Warming { rtt_probes, entered_ms } => {
                let next: u32 = rtt_probes + 1;
                if next >= WARMING_RTT_PROBES {
                    self.phase = LinkPhase::Live;
                } else {
                    self.phase = LinkPhase::Warming { rtt_probes: next, entered_ms };
                }
            },
            _ => {},
        }
    }

    /// Whether quality is low and NAKs come in a burst.
    pub open spec fn nak_degraded(&self) -> bool {
        self.quality_cache.multiplier < HALF_KEY && self.congestion.nak_burst_count
            >= DEGRADED_NAK_BURST_THRESHOLD
    }

    /// Whether quality is back and no burst is under way.
    pub open spec fn nak_recovered(&self) -> bool {
        self.quality_cache.multiplier >= HALF_KEY && self.congestion.nak_burst_count
            < DEGRADED_NAK_BURST_THRESHOLD
    }

    /// The phase that the link's health calls for.
    pub open spec fn next_phase(&self, now_ms: u64) -> LinkPhase {
        match self.phase {
            LinkPhase::Registering => LinkPhase::Registering,
            LinkPhase::Warming { entered_ms, .. } => if since(now_ms, entered_ms)
                >= WARMING_TIMEOUT_MS {
                LinkPhase::Live
            } else {
                self.phase
            },
            LinkPhase::Live => if self.nak_degraded() || self.loss_degraded {
                LinkPhase::Degraded
            } else {
                LinkPhase::Live
            },
            LinkPhase::Degraded => if self.nak_recovered() && !self.loss_degraded {
                LinkPhase::Live
            } else {
                LinkPhase::Degraded
            },
        }
    }

    /// Moves the link to the phase that its health calls for. A link is never
    /// taken out of use here.
    pub fn update_phase(&mut self, now_ms: u64)
        ensures
            *final(self) == (SrtlaConnection {
                phase: old(self).next_phase(now_ms),
                ..*old(self)
            }),
            old(self).wf() ==> final(self).wf(),
    {
        let low: bool = self.quality_cache.multiplier < HALF_KEY;
        let burst: bool = self.congestion.nak_burst_count >= DEGRADED_NAK_BURST_THRESHOLD;
        match self.phase {
            LinkPhase::Registering => {},
            LinkPhase::Warming { entered_ms, .. } => {
                if elapsed(now_ms, entered_ms) >= WARMING_TIMEOUT_MS {
                    self.phase = LinkPhase::Live;
                }
            },
            LinkPhase::Live => {
                if (low && burst) || self.loss_degraded {
                    self.phase = LinkPhase::Degraded;
                }
            },
            LinkPhase::Degraded => {
                if !low && !burst && !self.loss_degraded {
                    self.phase = LinkPhase::Live;
                }
            },
        }
    }

    /// Whether data may be sent on the link.
    pub fn is_schedulable(&self) -> (r: bool)
        ensures
            r == (self.phase !is Registering),
    {
        self.phase.is_schedulable()
    }

    /// Whether the link swallows packets: many in flight, and no proof of delivery
    /// for `stale_ms`. A link without any proof yet is not stalled.
    pub open spec fn stalled(&self, now_ms: u64, min_in_flight: i32, stale_ms: u64) -> bool {
        &&& self.connected
        &&& self.in_flight_packets >= min_in_flight
        &&& self.last_ack_or_rtt_sample_ms != 0
        &&& since(now_ms, self.last_ack_or_rtt_sample_ms) >= stale_ms
    }

    /// Whether the link swallows packets.
    pub fn is_stalled(&self, now_ms: u64, min_in_flight: i32, stale_ms: u64) -> (r: bool)
        ensures
            r == self.stalled(now_ms, min_in_flight, stale_ms),
    {
        self.connected && self.in_flight_packets >= min_in_flight && self.last_ack_or_rtt_sample_ms
            != 0 && elapsed(now_ms, self.last_ack_or_rtt_sample_ms) >= stale_ms
    }

    /// The time without proof of delivery that fits the link's round-trip time: a few
    /// round trips, at least `STALL_STALE_FLOOR_MS`, but never more than `ceiling_ms`.
    /// A link without a measured time has the ceiling.
    pub open spec fn stale_window(&self, ceiling_ms: u64) -> int {
        let trips = self.smooth_rtt_ms * STALL_STALE_RTT_MULT;
        let window = if trips < STALL_STALE_FLOOR_MS {
            STALL_STALE_FLOOR_MS as int
        } else {
            trips
        };
        if self.smooth_rtt_ms == 0 || window > ceiling_ms {
            ceiling_ms as int
        } else {
            window
        }
    }

    /// The staleness window that fits the link's round-trip time. Selection takes the
    /// window of the settings as it is; this one is for callers that want to react
    /// faster on a fast link.
    pub fn effective_stall_stale_ms(&self, ceiling_ms: u64) -> (ms: u64)
        ensures
            ms == self.stale_window(ceiling_ms),
    {
        if self.smooth_rtt_ms == 0 {
            return ceiling_ms;
        }
        let trips: u64 = self.smooth_rtt_ms as u64 * STALL_STALE_RTT_MULT;
        let window: u64 = if trips < STALL_STALE_FLOOR_MS {
            STALL_STALE_FLOOR_MS
        } else {
            trips
        };
        if window > ceiling_ms {
            ceiling_ms
        } else {
            window
        }
    }

    /// Whether the link has been silent for `CONN_TIMEOUT` seconds. A link that
    /// was never established has its grace period first; one that is not
    /// connected and never received anything is timed out after it.
    pub open spec fn timed_out(&self, now_ms: u64) -> bool {
        let silent = match self.last_received {
            Some(at) => since(now_ms, at) >= CONN_TIMEOUT * 1000,
            None => !self.connected,
        };
        let in_grace = !self.connected && self.reconnection.connection_established_ms == 0
            && now_ms < self.reconnection.startup_grace_deadline_ms;
        silent && !in_grace
    }

    /// Whether the link has been silent for too long.
    pub fn is_timed_out(&self, now_ms: u64) -> (r: bool)
        ensures
            r == self.timed_out(now_ms),
    {
        if !self.connected {
            if self.reconnection.connection_established_ms == 0 && now_ms
                < self.reconnection.startup_grace_deadline_ms {
                return false;
            }
            return match self.last_received {
                Some(at) => elapsed(now_ms, at) >= CONN_TIMEOUT * 1000,
                None => true,
            };
        }
        match self.last_received {
            Some(at) => elapsed(now_ms, at) >= CONN_TIMEOUT * 1000,
            None => false,
        }
    }

    /// Drops what was gathered before REG3 came: packets that will never be
    /// acknowledged, and NAKs that would count against the link. The link is
    /// warming from now on.
    pub fn clear_pre_registration_state(&mut self, now_ms: u64)
        ensures
            final(self).packet_log@ == no_entries(),
            final(self).batch_sender.queue@ == Seq::<QueuedPacket>::empty(),
            final(self).batch_sender.last_flush_ms == now_ms,
            *final(self) == (SrtlaConnection {
                packet_log: final(self).packet_log,
                batch_sender: final(self).batch_sender,
                in_flight_packets: 0,
                highest_acked_seq: i32::MIN,
                congestion: CongestionControl::spec_new(),
                quality_cache: CachedQuality::spec_new(),
                phase: LinkPhase::Warming { rtt_probes: 0, entered_ms: now_ms },
                ..*old(self)
            }),
            old(self).wf() ==> final(self).wf(),
    {
        self.packet_log.clear();
        self.in_flight_packets = 0;
        self.highest_acked_seq = i32::MIN;
        self.congestion.reset();
        self.batch_sender.reset(now_ms);
        self.quality_cache = CachedQuality::default();
        self.phase = LinkPhase::Warming { rtt_probes: 0, entered_ms: now_ms };
    }

    /// Whether `self` is `before` with its core state reset: not connected, the
    /// default window, nothing in flight or queued, waiting to be registered, and
    /// no proof of delivery. What lies outside the core state is left open.
    pub open spec fn is_core_reset(&self, now_ms: u64) -> bool {
        &&& !self.connected
        &&& self.window == WINDOW_DEF * WINDOW_MULT
        &&& self.in_flight_packets == 0
        &&& self.packet_log@ == no_entries()
        &&& self.highest_acked_seq == i32::MIN
        &&& self.batch_sender.queue@ == Seq::<QueuedPacket>::empty()
        &&& self.batch_sender.last_flush_ms == now_ms
        &&& self.phase is Registering
        &&& self.last_ack_or_rtt_sample_ms == 0
        &&& !self.stall_gated
    }

    fn reset_core_state(&mut self, now_ms: u64)
        ensures
            final(self).is_core_reset(now_ms),
            *final(self) == (SrtlaConnection {
                connected: false,
                window: final(self).window,
                in_flight_packets: 0,
                packet_log: final(self).packet_log,
                highest_acked_seq: i32::MIN,
                batch_sender: final(self).batch_sender,
                phase: LinkPhase::Registering,
                last_ack_or_rtt_sample_ms: 0,
                stall_gated: false,
                ..*old(self)
            }),
    {
        self.connected = false;
        self.window = WINDOW_DEF * WINDOW_MULT;
        self.in_flight_packets = 0;
        self.packet_log.clear();
        self.highest_acked_seq = i32::MIN;
        self.batch_sender.reset(now_ms);
        self.phase = LinkPhase::Registering;
        self.last_ack_or_rtt_sample_ms = 0;
        self.stall_gated = false;
    }

    /// Whether the link is `before` given up until it registers again.
    pub open spec fn is_given_up(&self, before: &Self, now_ms: u64) -> bool {
        &&& self.is_core_reset(now_ms)
        &&& self.rtt.last_keepalive_sent_ms == 0
        &&& !self.rtt.waiting_for_keepalive_response
        &&& self.rtt.last_rtt_measurement_ms == before.rtt.last_rtt_measurement_ms
        &&& self.rtt.rtt_min_ms == before.rtt.rtt_min_ms
        &&& self.rtt.slow() == before.rtt.slow()
        &&& *self == (SrtlaConnection {
            connected: false,
            window: self.window,
            in_flight_packets: 0,
            packet_log: self.packet_log,
            highest_acked_seq: i32::MIN,
            batch_sender: self.batch_sender,
            phase: LinkPhase::Registering,
            last_ack_or_rtt_sample_ms: 0,
            stall_gated: false,
            last_received: None,
            last_keepalive_sent: None,
            rtt: self.rtt,
            reconnection: ReconnectionState {
                startup_grace_deadline_ms: 0,
                ..before.reconnection
            },
            ..*before
        })
    }

    /// Gives the link up until it registers again: its core state is reset, it
    /// counts as timed out at once, and what was learnt about congestion and
    /// bitrate is kept.
    pub fn mark_for_recovery(&mut self, now_ms: u64)
        ensures
            final(self).is_given_up(old(self), now_ms),
            old(self).wf() ==> final(self).wf(),
    {
        self.last_received = None;
        self.last_keepalive_sent = None;
        self.rtt.forget_keepalive();
        self.reset_core_state(now_ms);
        self.reconnection.startup_grace_deadline_ms = 0;
    }

    /// Starts over after the link's socket was replaced: everything that was
    /// learnt is dropped, and the attempt counts as the last one made.
    pub fn reset_for_reconnect(&mut self, now: u64)
        ensures
            final(self).is_core_reset(now),
            final(self).rtt.is_fresh(),
            final(self).wf(),
            *final(self) == (SrtlaConnection {
                connected: false,
                window: final(self).window,
                in_flight_packets: 0,
                packet_log: final(self).packet_log,
                highest_acked_seq: i32::MIN,
                batch_sender: final(self).batch_sender,
                phase: LinkPhase::Registering,
                last_ack_or_rtt_sample_ms: 0,
                stall_gated: false,
                last_received: None,
                congestion: CongestionControl::spec_new(),
                rtt: final(self).rtt,
                smooth_rtt_ms: 0,
                queue_building: false,
                bitrate: BitrateTracker::spec_new(now),
                reconnection: ReconnectionState {
                    last_reconnect_attempt_ms: now,
                    reconnect_failure_count: 0,
                    ..old(self).reconnection
                },
                ..*old(self)
            }),
    {
        self.last_received = None;
        self.reset_core_state(now);
        self.congestion.reset();
        self.rtt.reset();
        self.smooth_rtt_ms = 0;
        self.queue_building = false;
        self.bitrate.reset(now);
        self.reconnection.last_reconnect_attempt_ms = now;
        self.reconnection.reconnect_failure_count = 0;
    }

    /// The time since the last NAK, if there was one.
    pub fn time_since_last_nak_ms(&self, now_ms: u64) -> (ms: Option<u64>)
        ensures
            ms == self.congestion.nak_age(now_ms),
    {
        self.congestion.time_since_last_nak_ms(now_ms)
    }

    /// NAKs counted so far.
    pub fn total_nak_count(&self) -> (n: i32)
        ensures
            n == self.congestion.nak_count,
    {
        self.congestion.nak_count
    }

    /// NAKs in the present burst.
    pub fn nak_burst_count(&self) -> (n: i32)
        ensures
            n == self.congestion.nak_burst_count,
    {
        self.congestion.nak_burst_count
    }

    /// When the link was first established.
    pub fn connection_established_ms(&self) -> (ms: u64)
        ensures
            ms == self.reconnection.connection_established_ms,
    {
        self.reconnection.connection_established_ms
    }

    /// Whether the cached quality multiplier is too old to be used.
    pub open spec fn quality_stale(&self, now_ms: u64) -> bool {
        since(now_ms, self.quality_cache.last_calculated_ms) >= QUALITY_CACHE_INTERVAL_MS
    }

    /// Whether the cached quality multiplier is too old to be used.
    pub fn is_quality_stale(&self, now_ms: u64) -> (r: bool)
        ensures
            r == self.quality_stale(now_ms),
    {
        elapsed(now_ms, self.quality_cache.last_calculated_ms) >= QUALITY_CACHE_INTERVAL_MS
    }

    /// Whether `self` is `before` once its quality was asked for at `now_ms`, which gave
    /// `multiplier`: the cached one while it is fresh, else `recomputed`, which is
    /// cached.
    pub open spec fn has_used_quality(
        &self,
        before: &Self,
        now_ms: u64,
        recomputed: OrderKey,
        multiplier: OrderKey,
    ) -> bool {
        &&& multiplier == if before.quality_stale(now_ms) {
            recomputed
        } else {
            before.quality_cache.multiplier
        }
        &&& *self == (SrtlaConnection {
            quality_cache: if before.quality_stale(now_ms) {
                CachedQuality { multiplier: recomputed, last_calculated_ms: now_ms }
            } else {
                before.quality_cache
            },
            ..*before
        })
    }

    /// The quality multiplier to use at `current_time_ms`: the cached one while it
    /// is fresh, else `recomputed`, which is cached.
    pub fn get_cached_quality_multiplier(
        &mut self,
        current_time_ms: u64,
        recomputed: OrderKey,
    ) -> (multiplier: OrderKey)
        ensures
            final(self).has_used_quality(old(self), current_time_ms, recomputed, multiplier),
            old(self).wf() ==> final(self).wf(),
    {
        if self.is_quality_stale(current_time_ms) {
            self.quality_cache =
            CachedQuality { multiplier: recomputed, last_calculated_ms: current_time_ms };
        }
        self.quality_cache.multiplier
    }

    /// Whether an attempt to connect again may be made.
    pub fn should_attempt_reconnect(&self, now_ms: u64) -> (r: bool)
        ensures
            r == self.reconnection.may_attempt(now_ms),
    {
        self.reconnection.should_attempt_reconnect(now_ms)
    }

    /// Notes an attempt to connect again.
    pub fn record_reconnect_attempt(&mut self, now_ms: u64)
        ensures
            *final(self) == (SrtlaConnection {
                reconnection: old(self).reconnection.after_attempt(now_ms),
                ..*old(self)
            }),
            old(self).wf() ==> final(self).wf(),
    {
        self.reconnection.record_attempt(self.label.as_str(), now_ms);
    }

    /// Notes that connecting again has worked.
    pub fn mark_reconnect_success(&mut self)
        ensures
            *final(self) == (SrtlaConnection {
                reconnection: ReconnectionState {
                    reconnect_failure_count: 0,
                    ..old(self).reconnection
                },
                ..*old(self)
            }),
            old(self).wf() ==> final(self).wf(),
    {
        self.reconnection.mark_success(self.label.as_str());
    }

    /// The link after its send rate was measured, where that was due.
    pub open spec fn after_rate_update(&self, now_ms: u64) -> SrtlaConnection {
        if since(now_ms, self.bitrate.last_rate_update_ms) < BITRATE_UPDATE_INTERVAL_MS {
            *self
        } else {
            SrtlaConnection {
                bitrate: BitrateTracker {
                    bytes_sent_total: self.bitrate.bytes_sent_total,
                    bytes_sent_window: self.bitrate.bytes_sent_total,
                    last_rate_update_ms: now_ms,
                    current_bitrate_bps: self.bitrate.measured_rate(now_ms) as u64,
                },
                ..*self
            }
        }
    }

    /// Measures the send rate where that is due.
    pub fn calculate_bitrate(&mut self, now_ms: u64)
        ensures
            *final(self) == old(self).after_rate_update(now_ms),
            old(self).wf() ==> final(self).wf(),
    {
        self.bitrate.calculate(now_ms);
    }
}

/// A packet counts against its link at once: queueing one never raises the score, so
/// a link cannot draw packets without end while it waits to send them.
pub proof fn queueing_never_raises_the_score(
    before: SrtlaConnection,
    after: SrtlaConnection,
    data: Seq<u8>,
    seq: Option<u32>,
    queued_ms: u64,
)
    requires
        before.wf(),
        before.batch_sender.queue@.len() < MAX_TRACKED_PACKETS,
        after.has_queued(&before, data, seq, queued_ms),
    ensures
        after.score() <= before.score(),
        after.load() == before.load() + 1,
{
    vstd::arithmetic::div_mod::lemma_div_is_ordered_by_denominator(
        before.window as int,
        before.load() + 1,
        before.load() + 2,
    );
}

/// A connected link whose window is low recovers though no NAK ever came, in the
/// largest steps.
pub proof fn quiet_link_recovers(conn: SrtlaConnection, now_ms: u64)
    requires
        conn.connected,
        conn.window < window_ceiling(),
        conn.congestion.last_nak_time_ms == 0,
        since(now_ms, conn.congestion.last_window_increase_ms) > NORMAL_INCREMENT_WAIT_MS,
    ensures
        conn.after_window_recovery(now_ms).window == capped(
            conn.window + WINDOW_INCR * if conn.congestion.fast_recovery_mode {
                4int
            } else {
                2int
            },
        ),
{
}

/// A connected link gets a keepalive once a second, whether or not the last one was
/// answered: one is due from a second after the last on, and none before. A link that
/// is not connected gets none.
pub proof fn keepalive_is_due_every_second(conn: SrtlaConnection, now_ms: u64)
    ensures
        !conn.connected ==> !conn.keepalive_due(now_ms),
        conn.connected && conn.last_keepalive_sent is None ==> conn.keepalive_due(now_ms),
        conn.connected && conn.last_keepalive_sent is Some ==> (conn.keepalive_due(now_ms)
            <==> now_ms >= conn.last_keepalive_sent->0 + 1000),
{
}

/// A link that is connected is lost exactly once nothing came in for 15 seconds. One
/// that is not is lost too, unless it was never established and its grace is not over;
/// where something came in, 15 seconds count for it as well.
pub proof fn link_is_lost_after_fifteen_seconds(conn: SrtlaConnection, now_ms: u64)
    ensures
        conn.connected && conn.last_received is Some ==> (conn.timed_out(now_ms) <==> now_ms
            >= conn.last_received->0 + 15_000),
        conn.connected && conn.last_received is None ==> !conn.timed_out(now_ms),
        !conn.connected && conn.reconnection.connection_established_ms == 0 && now_ms
            < conn.reconnection.startup_grace_deadline_ms ==> !conn.timed_out(now_ms),
        !conn.connected && (conn.reconnection.connection_established_ms != 0 || now_ms
            >= conn.reconnection.startup_grace_deadline_ms) ==> (conn.timed_out(now_ms)
            <==> conn.last_received is None || now_ms >= conn.last_received->0 + 15_000),
{
}

/// A link swallows packets where it is connected, has the given number in flight or
/// more, delivered before, and proved no delivery for the given time.
pub proof fn link_stalls_without_delivery(
    conn: SrtlaConnection,
    now_ms: u64,
    min_in_flight: i32,
    stale_ms: u64,
)
    requires
        stale_ms > 0,
    ensures
        conn.stalled(now_ms, min_in_flight, stale_ms) <==> conn.connected
            && conn.in_flight_packets >= min_in_flight && conn.last_ack_or_rtt_sample_ms > 0
            && now_ms >= conn.last_ack_or_rtt_sample_ms + stale_ms,
{
}

/// The capacity score of a connected link is the window's share for each packet in
/// flight or queued and one more: so many times that number fit into the window, and
/// not once more. A link that is not connected scores below every one that is.
pub proof fn score_is_a_share_of_the_window(conn: SrtlaConnection)
    requires
        conn.window >= 0,
        conn.in_flight_packets >= 0,
        conn.in_flight_packets + conn.batch_sender.queue@.len() + 1 <= i32::MAX,
    ensures
        ({
            let n = conn.in_flight_packets + conn.batch_sender.queue@.len() + 1;
            &&& conn.connected ==> conn.score() * n <= conn.window < (conn.score() + 1) * n
            &&& conn.connected ==> conn.score() >= 0
            &&& !conn.connected ==> conn.score() == -1
        }),
{
    if conn.connected {
        let n = conn.in_flight_packets + conn.batch_sender.queue@.len() + 1;
        let w = conn.window as int;
        assert((w / n) * n <= w < (w / n + 1) * n && w / n >= 0) by (nonlinear_arith)
            requires
                n >= 1,
                w >= 0,
        ;
        assert(conn.score() == w / n);
    }
}

/// Recovery by time of a connected link below the largest window. In normal mode a step
/// is due once two seconds passed since the last NAK and one since the last increase;
/// in fast recovery after half a second and 300 ms. A step is 7 within five seconds of
/// the NAK, 15 within seven, 30 within ten and 60 beyond, or where no NAK ever came;
/// in fast recovery it is 15, 30, 60 and 120.
pub proof fn window_recovers_in_steps(conn: SrtlaConnection, now_ms: u64)
    requires
        conn.connected,
        1000 <= conn.window < 60_000,
        conn.congestion.last_nak_time_ms <= now_ms,
        conn.congestion.last_window_increase_ms <= now_ms,
    ensures
        ({
            let after = conn.after_window_recovery(now_ms);
            let never = conn.congestion.last_nak_time_ms == 0;
            let fast = conn.congestion.fast_recovery_mode;
            let quiet = now_ms - conn.congestion.last_nak_time_ms;
            let pause = now_ms - conn.congestion.last_window_increase_ms;
            let due = (never || quiet > if fast {
                500int
            } else {
                2000int
            }) && pause > if fast {
                300int
            } else {
                1000int
            };
            let step = if never || quiet > 10_000 {
                if fast {
                    120int
                } else {
                    60int
                }
            } else if quiet > 7000 {
                if fast {
                    60int
                } else {
                    30int
                }
            } else if quiet > 5000 {
                if fast {
                    30int
                } else {
                    15int
                }
            } else if fast {
                15int
            } else {
                7int
            };
            &&& !due ==> after.window == conn.window && after.congestion.last_window_increase_ms
                == conn.congestion.last_window_increase_ms
            &&& due && conn.window + step < 60_000 ==> after.window == conn.window + step
            &&& due && conn.window + step >= 60_000 ==> after.window == 60_000
            &&& due ==> after.congestion.last_window_increase_ms == now_ms
            &&& after.congestion.fast_recovery_mode <==> fast && !(due && after.window >= 12_000)
            &&& after.congestion.nak_count == conn.congestion.nak_count
            &&& after.congestion.last_nak_time_ms == conn.congestion.last_nak_time_ms
            &&& !never && quiet < 1000 ==> after.congestion.nak_burst_count
                == conn.congestion.nak_burst_count
            &&& (never || quiet >= 1000) && conn.congestion.nak_burst_count >= 0
                ==> after.congestion.nak_burst_count == 0
        }),
{
}

/// A link that is not connected, or whose window is the largest, gains nothing by time.
pub proof fn full_or_lost_window_does_not_grow(conn: SrtlaConnection, now_ms: u64)
    requires
        !conn.connected || conn.window >= 60_000,
    ensures
        conn.after_window_recovery(now_ms) == conn,
{
}

/// A warming link goes live with its second round-trip time, or five seconds after it
/// began; a live link degrades where loss is high for long, or NAKs come in bursts of
/// five while its quality is below a half, and is live again once none of that holds.
/// A link that is registering stays so.
pub proof fn phases_follow_the_health(conn: SrtlaConnection, now_ms: u64)
    ensures
        ({
            let next = conn.next_phase(now_ms);
            let poor = conn.quality_cache.multiplier < HALF_KEY;
            let burst = conn.congestion.nak_burst_count >= 5;
            match conn.phase {
                LinkPhase::Registering => next is Registering,
                LinkPhase::Warming { rtt_probes, entered_ms } => {
                    &&& next is Live <==> now_ms >= entered_ms + 5000
                    &&& now_ms < entered_ms + 5000 ==> next == conn.phase
                    &&& rtt_probes >= 1 ==> SrtlaConnection::phase_after_probe(conn.phase) is Live
                    &&& rtt_probes == 0 ==> SrtlaConnection::phase_after_probe(conn.phase) == (
                    LinkPhase::Warming { rtt_probes: 1, entered_ms })
                },
                LinkPhase::Live => {
                    &&& next is Degraded <==> conn.loss_degraded || poor && burst
                    &&& next is Live <==> !(conn.loss_degraded || poor && burst)
                },
                LinkPhase::Degraded => {
                    &&& next is Live <==> !conn.loss_degraded && !poor && !burst
                    &&& next is Degraded <==> conn.loss_degraded || poor || burst
                },
            }
        }),
        conn.phase !is Warming ==> SrtlaConnection::phase_after_probe(conn.phase) == conn.phase,
{
}

/// The staleness window that fits a link is four round trips, at least a second, and
/// never above the ceiling, which holds for a link without a measured time.
pub proof fn stale_window_is_four_round_trips(conn: SrtlaConnection, ceiling_ms: u64)
    ensures
        conn.stale_window(ceiling_ms) <= ceiling_ms,
        conn.smooth_rtt_ms == 0 ==> conn.stale_window(ceiling_ms) == ceiling_ms,
        conn.smooth_rtt_ms > 0 && 1000 <= 4 * conn.smooth_rtt_ms <= ceiling_ms
            ==> conn.stale_window(ceiling_ms) == 4 * conn.smooth_rtt_ms,
        0 < 4 * conn.smooth_rtt_ms <= 1000 <= ceiling_ms ==> conn.stale_window(ceiling_ms)
            == 1000,
        4 * conn.smooth_rtt_ms >= ceiling_ms ==> conn.stale_window(ceiling_ms) == ceiling_ms,
{
}

/// A quality that was computed is used for 50 ms.
pub proof fn quality_is_used_for_a_while(conn: SrtlaConnection, now_ms: u64)
    ensures
        conn.quality_stale(now_ms) <==> now_ms >= conn.quality_cache.last_calculated_ms + 50,
{
}

/// A keepalive tells the receiver the link's own figures, its rate in bytes.
pub proof fn telemetry_is_the_links_own(conn: SrtlaConnection)
    requires
        conn.congestion.nak_count >= 0,
    ensures
        ({
            let info = conn.telemetry();
            &&& conn.conn_id <= u32::MAX ==> info.conn_id == conn.conn_id
            &&& info.window == conn.window
            &&& info.in_flight == conn.in_flight_packets
            &&& info.rtt_ms == conn.smooth_rtt_ms
            &&& info.nak_count == conn.congestion.nak_count
            &&& conn.bitrate.current_bitrate_bps < 0x8_0000_0000 ==> info.bitrate_bytes_per_sec * 8
                <= conn.bitrate.current_bitrate_bps < (info.bitrate_bytes_per_sec + 1) * 8
            &&& conn.bitrate.current_bitrate_bps >= 0x7_ffff_fff8 ==> info.bitrate_bytes_per_sec
                == u32::MAX
        }),
{
}

/// Every packet of a batch that has a number is in the log afterwards, and what was in
/// it stays: nothing else comes in.
pub proof fn batch_is_logged(log: Map<i32, u64>, batch: Seq<(Option<u32>, u64)>, key: i32)
    ensures
        with_registered(log, batch).contains_key(key) <==> log.contains_key(key) || exists|i: int|
            0 <= i < batch.len() && (#[trigger] batch[i]).0 is Some && batch[i].0->0 as i32 == key,
        (forall|i: int|
            0 <= i < batch.len() && (#[trigger] batch[i]).0 is Some ==> batch[i].0->0 as i32 != key)
            && log.contains_key(key) ==> with_registered(log, batch)[key] == log[key],
    decreases batch.len(),
{
    if batch.len() > 0 {
        let front = batch.drop_last();
        let last = batch.len() - 1;
        batch_is_logged(log, front, key);
        if exists|i: int|
            0 <= i < front.len() && (#[trigger] front[i]).0 is Some && front[i].0->0 as i32
                == key {
            let i = choose|i: int|
                0 <= i < front.len() && (#[trigger] front[i]).0 is Some && front[i].0->0 as i32
                    == key;
            assert(batch[i].0 is Some);
        }
        if with_registered(log, batch).contains_key(key) && !with_registered(
            log,
            front,
        ).contains_key(key) {
            assert(batch[last].0 is Some);
        }
        if exists|i: int|
            0 <= i < batch.len() && (#[trigger] batch[i]).0 is Some && batch[i].0->0 as i32
                == key {
            let i = choose|i: int|
                0 <= i < batch.len() && (#[trigger] batch[i]).0 is Some && batch[i].0->0 as i32
                    == key;
            if i < last {
                assert(front[i].0 is Some);
            }
        }
        if forall|i: int|
            0 <= i < batch.len() && (#[trigger] batch[i]).0 is Some ==> batch[i].0->0 as i32
                != key {
            assert forall|i: int|
                0 <= i < front.len() && (#[trigger] front[i]).0 is Some implies front[i].0->0 as i32
                != key by {
                assert(batch[i].0 is Some);
            }
            if batch[last].0 is Some {
                assert(batch[last].0->0 as i32 != key);
            }
        }
    }
}

/// The time that the log has for a packet is when the last one with its number was
/// queued.
pub proof fn last_of_a_number_counts(log: Map<i32, u64>, batch: Seq<(Option<u32>, u64)>, i: int)
    requires
        0 <= i < batch.len(),
        batch[i].0 is Some,
        forall|j: int|
            i < j < batch.len() && (#[trigger] batch[j]).0 is Some ==> batch[j].0->0 as i32
                != batch[i].0->0 as i32,
    ensures
        with_registered(log, batch).contains_key(batch[i].0->0 as i32),
        with_registered(log, batch)[batch[i].0->0 as i32] == batch[i].1,
    decreases batch.len(),
{
    let front = batch.drop_last();
    let last = batch.len() - 1;
    if i < last {
        assert(front[i] == batch[i]);
        assert forall|j: int|
            i < j < front.len() && (#[trigger] front[j]).0 is Some implies front[j].0->0 as i32
            != front[i].0->0 as i32 by {
            assert(batch[j].0 is Some);
        }
        last_of_a_number_counts(log, front, i);
        if batch[last].0 is Some {
            assert(batch[last].0->0 as i32 != batch[i].0->0 as i32);
        }
    }
}

/// A batch that is taken out leaves the queue empty and its numbered packets in flight;
/// what is in flight is what the log holds.
pub proof fn taken_batch_is_in_flight(
    before: SrtlaConnection,
    after: SrtlaConnection,
    now: u64,
    i: int,
)
    requires
        after.has_taken_batch(&before, now),
        0 <= i < before.batch_sender.queue@.len(),
        before.batch_sender.queue@[i].seq is Some,
        after.packet_log@.len() <= i32::MAX,
    ensures
        after.batch_sender.queue@.len() == 0,
        after.batch_sender.last_flush_ms == now,
        after.last_sent == Some(now),
        after.packet_log@.contains_key(before.batch_sender.queue@[i].seq->0 as i32),
        after.in_flight_packets == after.packet_log@.len(),
        after.window == before.window,
{
    let info = tracking_info(before.batch_sender.queue@);
    assert(info[i].0 is Some);
    batch_is_logged(before.packet_log@, info, before.batch_sender.queue@[i].seq->0 as i32);
}

/// A link that was given up counts as lost at once, carries nothing and has to
/// register again; what it learnt of congestion stays.
pub proof fn given_up_link_is_lost(
    before: SrtlaConnection,
    after: SrtlaConnection,
    given_up_ms: u64,
    now_ms: u64,
)
    requires
        after.is_given_up(&before, given_up_ms),
    ensures
        after.timed_out(now_ms),
        !after.connected,
        after.score() == -1,
        after.phase is Registering,
        after.in_flight_packets == 0,
        after.batch_sender.queue@.len() == 0,
        after.window == 20_000,
        after.congestion == before.congestion,
        after.bitrate == before.bitrate,
        !after.keepalive_due(now_ms),
{
}

/// A quality that was asked for holds for all who ask within 50 ms of when it was computed,
/// whatever they would compute; later the new one counts. Nothing else of the link changes.
pub proof fn quality_is_shared_for_a_while(
    before: SrtlaConnection,
    mid: SrtlaConnection,
    after: SrtlaConnection,
    first_ms: u64,
    second_ms: u64,
    first: OrderKey,
    second: OrderKey,
    given: OrderKey,
    given_later: OrderKey,
)
    requires
        before.quality_cache.last_calculated_ms + 50 <= first_ms <= second_ms,
        mid.has_used_quality(&before, first_ms, first, given),
        after.has_used_quality(&mid, second_ms, second, given_later),
    ensures
        given == first,
        second_ms < first_ms + 50 ==> given_later == first && after == mid,
        second_ms >= first_ms + 50 ==> given_later == second,
        after.window == before.window && after.connected == before.connected,
{
}

/// The send rate of a link is measured every two seconds; nothing else of it changes.
pub proof fn link_rate_is_measured_every_two_seconds(conn: SrtlaConnection, now_ms: u64)
    ensures
        conn.after_rate_update(now_ms) == (SrtlaConnection {
            bitrate: conn.bitrate.measured(now_ms),
            ..conn
        }),
        now_ms < conn.bitrate.last_rate_update_ms + 2000 ==> conn.after_rate_update(now_ms)
            == conn,
        now_ms >= conn.bitrate.last_rate_update_ms + 2000 ==> conn.after_rate_update(
            now_ms,
        ).bitrate.last_rate_update_ms == now_ms,
{
}

/// A packet that is queued stands last in the queue, and its bytes count at once; nothing
/// else of the link changes.
pub proof fn queued_packet_stands_last(
    before: SrtlaConnection,
    after: SrtlaConnection,
    data: Seq<u8>,
    seq: Option<u32>,
    queued_ms: u64,
)
    requires
        after.has_queued(&before, data, seq, queued_ms),
        before.bitrate.bytes_sent_total + data.len() <= u64::MAX,
    ensures
        ({
            let n = before.batch_sender.queue@.len();
            &&& after.batch_sender.queue@.len() == n + 1
            &&& after.batch_sender.queue@.take(n as int) == before.batch_sender.queue@
            &&& after.batch_sender.queue@[n as int]@.data == data
            &&& after.batch_sender.queue@[n as int].seq == seq
            &&& after.batch_sender.queue@[n as int].queued_ms == queued_ms
            &&& after.bitrate.bytes_sent_total == before.bitrate.bytes_sent_total + data.len()
            &&& after.window == before.window
            &&& after.packet_log == before.packet_log
        }),
{
    let n = before.batch_sender.queue@.len();
    assert(after.batch_sender.queue@.take(n as int) =~= after.batch_sender.queue@.drop_last());
}

/// A keepalive that was sent puts off the next for a second, and its answer is awaited
/// where a sample was due, more than three seconds after the last.
pub proof fn sent_keepalive_puts_off_the_next(
    before: SrtlaConnection,
    after: SrtlaConnection,
    now: u64,
    later: u64,
)
    requires
        after.has_sent_keepalive(&before, now),
        before.connected,
    ensures
        after.keepalive_due(later) <==> later >= now + 1000,
        before.rtt.waiting_for_keepalive_response ==> after.rtt.waiting_for_keepalive_response
            && after.rtt.last_keepalive_sent_ms == before.rtt.last_keepalive_sent_ms,
        !before.rtt.waiting_for_keepalive_response && (before.rtt.last_rtt_measurement_ms == 0
            || now > before.rtt.last_rtt_measurement_ms + 3000)
            ==> after.rtt.waiting_for_keepalive_response && after.rtt.last_keepalive_sent_ms == now,
        !before.rtt.waiting_for_keepalive_response && before.rtt.last_rtt_measurement_ms != 0
            && now <= before.rtt.last_rtt_measurement_ms + 3000
            ==> !after.rtt.waiting_for_keepalive_response,
        after.last_sent == Some(now),
        after.window == before.window && after.last_received == before.last_received,
{
}

/// A link that was given up keeps the round-trip times that it measured, but awaits no
/// answer; it may be tried again as its failures allow, without a grace period.
pub proof fn given_up_link_keeps_its_times(
    before: SrtlaConnection,
    after: SrtlaConnection,
    given_up_ms: u64,
)
    requires
        after.is_given_up(&before, given_up_ms),
    ensures
        after.rtt.slow() == before.rtt.slow(),
        after.rtt.rtt_min_ms == before.rtt.rtt_min_ms,
        after.rtt.last_rtt_measurement_ms == before.rtt.last_rtt_measurement_ms,
        !after.rtt.waiting_for_keepalive_response,
        after.rtt.last_keepalive_sent_ms == 0,
        after.last_received is None,
        after.last_keepalive_sent is None,
        after.last_ack_or_rtt_sample_ms == 0,
        !after.stall_gated,
        after.packet_log@.len() == 0,
        after.highest_acked_seq == i32::MIN,
        after.batch_sender.last_flush_ms == given_up_ms,
        after.reconnection.startup_grace_deadline_ms == 0,
        after.reconnection.reconnect_failure_count == before.reconnection.reconnect_failure_count,
        after.reconnection.last_reconnect_attempt_ms
            == before.reconnection.last_reconnect_attempt_ms,
        after.reconnection.connection_established_ms
            == before.reconnection.connection_established_ms,
        after.conn_id == before.conn_id && after.label == before.label,
{
}

} // verus!
