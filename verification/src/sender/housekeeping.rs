//! The periodic round over all links: timeouts and attempts to connect again,
//! keepalives, and what is done when every link is gone.

use crate::bytes::half_bytes;
use crate::clock::{elapsed, since};
use crate::connection::bitrate::BitrateTracker;
use crate::connection::congestion::CongestionControl;
use crate::connection::link::{LinkPhase, SrtlaConnection};
use crate::connection::reconnection::{ReconnectionState, STARTUP_GRACE_MS};
use crate::protocol::builders::{conn_info_bytes, keepalive_bytes, registration_bytes};
use crate::protocol::constants::{
    REG2_TIMEOUT, SRTLA_KEEPALIVE_EXT_LEN, SRTLA_TYPE_REG1, SRTLA_TYPE_REG1_LEN, SRTLA_TYPE_REG2,
    SRTLA_TYPE_REG2_LEN,
};
use crate::protocol::parsers::{
    extended_keepalive_roundtrip, keepalive_conn_info, keepalive_timestamp,
};
use crate::registration::{
    connected_count, fastest_link_is_picked, picks, ProbingState, RegDriverSends,
    SrtlaRegistrationManager, REG1_RETRY_MS,
};
use vstd::prelude::*;

verus! {

/// Pause between two rounds.
pub const HOUSEKEEPING_INTERVAL_MS: u64 = 1000;

/// Pause between two status reports.
pub const STATUS_LOG_INTERVAL_MS: u64 = 30_000;

/// Time for which all links may be gone before the sender gives up.
pub const GLOBAL_TIMEOUT_MS: u64 = 10_000;

/// The handshake after a wait for REG2 that is over was given up.
pub open spec fn after_waits(reg: SrtlaRegistrationManager, now: u64) -> SrtlaRegistrationManager {
    if reg.wait_is_over(now) {
        SrtlaRegistrationManager {
            pending_reg2_idx: None,
            pending_timeout_at_ms: 0,
            reg1_target_idx: None,
            reg1_next_send_at_ms: now,
            ..reg
        }
    } else {
        reg
    }
}

/// A link whose grace period starts at `now`.
pub open spec fn with_new_grace(conn: SrtlaConnection, now: u64) -> SrtlaConnection {
    SrtlaConnection {
        reconnection: ReconnectionState {
            startup_grace_deadline_ms: (now + STARTUP_GRACE_MS) as u64,
            ..conn.reconnection
        },
        ..conn
    }
}

/// Whether the beginning of a round takes the links from `before` to `after` and the
/// handshake from `reg` to `next`.
pub open spec fn round_begun(
    before: Seq<SrtlaConnection>,
    after: Seq<SrtlaConnection>,
    reg: SrtlaRegistrationManager,
    next: SrtlaRegistrationManager,
    now: u64,
) -> bool {
    let waited = after_waits(reg, now);
    if waited.probing_ends(now) {
        &&& next.reg1_target_idx is Some
        &&& picks(waited.probe_results@, next.reg1_target_idx->0)
        &&& next == (SrtlaRegistrationManager {
            reg1_target_idx: next.reg1_target_idx,
            reg1_next_send_at_ms: now,
            probing_state: ProbingState::Complete,
            pending_timeout_at_ms: 0,
            ..waited
        })
        &&& after == if next.reg1_target_idx->0 < before.len() {
            let picked = next.reg1_target_idx->0 as int;
            before.update(picked, with_new_grace(before[picked], now))
        } else {
            before
        }
    } else {
        next == waited && after == before
    }
}

/// Begins a round: a wait for REG2 that is over is given up, and where probing is
/// through, the link that it picked gets a new grace period.
pub fn begin_housekeeping(
    connections: &mut Vec<SrtlaConnection>,
    reg: &mut SrtlaRegistrationManager,
    now: u64,
)
    requires
        now <= u64::MAX - STARTUP_GRACE_MS,
    ensures
        round_begun(old(connections)@, final(connections)@, *old(reg), *final(reg), now),
{
    let _ = reg.clear_pending_if_timed_out(now);
    if reg.is_probing() {
        let _ = reg.check_probing_complete(now);
        if !reg.is_probing() {
            if let Some(idx) = reg.get_selected_connection_idx() {
                if idx < connections.len() {
                    connections[idx].reconnection.reset_startup_grace(now);
                    assert(connections@ =~= old(connections)@.update(
                        idx as int,
                        with_new_grace(old(connections)@[idx as int], now),
                    ));
                }
            }
        }
    }
}

/// What a round asks to be done for a link.
pub enum LinkAction {
    /// The link has timed out and is to be connected again.
    Reconnect,
    /// The link has timed out; the next attempt is not due yet.
    Wait,
    /// The link is alive; these keepalives are to be sent on it.
    Serve(Vec<[u8; SRTLA_KEEPALIVE_EXT_LEN]>),
}

/// The contents of a list of keepalives.
pub open spec fn keepalive_contents(packets: Seq<[u8; SRTLA_KEEPALIVE_EXT_LEN]>) -> Seq<Seq<u8>> {
    packets.map_values(|p: [u8; SRTLA_KEEPALIVE_EXT_LEN]| p@)
}

/// Whether `after` is `before`, with a keepalive sent where one is due.
pub open spec fn keepalive_if(
    due: bool,
    before: SrtlaConnection,
    after: SrtlaConnection,
    now: u64,
) -> bool {
    if due {
        after.has_sent_keepalive(&before, now)
    } else {
        after == before
    }
}

/// Whether a round-trip time is to be measured on a link.
pub open spec fn measurement_due(conn: SrtlaConnection, now: u64) -> bool {
    conn.reconnection.connection_established_ms != 0 && conn.connected && conn.rtt.sample_due(now)
}

/// The keepalive of a link.
pub open spec fn keepalive_of(conn: SrtlaConnection, now: u64) -> Seq<u8> {
    keepalive_bytes(now) + conn_info_bytes(conn.telemetry())
}

/// A live link after its window, rate and phase were brought up to date. In
/// classic mode the window does not recover by time.
pub open spec fn updated(conn: SrtlaConnection, classic: bool, now: u64) -> SrtlaConnection {
    let recovered = if classic {
        conn
    } else {
        conn.after_window_recovery(now)
    };
    let measured = recovered.after_rate_update(now);
    SrtlaConnection { phase: measured.next_phase(now), ..measured }
}

/// Whether a round takes a live link from `before` to `after` and sends the given
/// keepalives: one where that is due, and one where a round-trip time is to be
/// measured and the first did not see to that.
pub open spec fn served(
    before: SrtlaConnection,
    after: SrtlaConnection,
    classic: bool,
    now: u64,
    packets: Seq<Seq<u8>>,
) -> bool {
    exists|a: SrtlaConnection, b: SrtlaConnection|
        {
            &&& #[trigger] keepalive_if(before.keepalive_due(now), before, a, now)
            &&& #[trigger] keepalive_if(measurement_due(a, now), a, b, now)
            &&& after == updated(b, classic, now)
            &&& packets == (if before.keepalive_due(now) {
                seq![keepalive_of(before, now)]
            } else {
                Seq::empty()
            }) + (if measurement_due(a, now) {
                seq![keepalive_of(a, now)]
            } else {
                Seq::empty()
            })
        }
}

/// Whether the round takes a link from `before` to `after` and asks for `action`.
pub open spec fn link_handled(
    before: SrtlaConnection,
    after: SrtlaConnection,
    classic: bool,
    now: u64,
    action: LinkAction,
) -> bool {
    match action {
        LinkAction::Reconnect => {
            &&& before.timed_out(now)
            &&& before.reconnection.may_attempt(now)
            &&& after == (SrtlaConnection {
                reconnection: before.reconnection.after_attempt(now),
                ..before
            })
        },
        LinkAction::Wait => {
            &&& before.timed_out(now)
            &&& !before.reconnection.may_attempt(now)
            &&& after == before
        },
        LinkAction::Serve(packets) => {
            &&& !before.timed_out(now)
            &&& served(before, after, classic, now, keepalive_contents(packets@))
        },
    }
}

/// The round for one link. A link that has timed out is to be connected again as
/// often as its delays allow; a live one is served.
pub fn housekeep_link(conn: &mut SrtlaConnection, classic: bool, now: u64) -> (action: LinkAction)
    requires
        old(conn).wf(),
    ensures
        final(conn).wf(),
        link_handled(*old(conn), *final(conn), classic, now, action),
{
    if conn.is_timed_out(now) {
        if conn.should_attempt_reconnect(now) {
            conn.record_reconnect_attempt(now);
            return LinkAction::Reconnect;
        }
        return LinkAction::Wait;
    }
    let mut packets: Vec<[u8; SRTLA_KEEPALIVE_EXT_LEN]> = Vec::new();
    let ghost before = *conn;
    if conn.needs_keepalive(now) {
        packets.push(conn.keepalive_packet(now));
    }
    let ghost a = *conn;
    let ghost first = if before.keepalive_due(now) {
        seq![keepalive_of(before, now)]
    } else {
        Seq::empty()
    };
    assert(keepalive_contents(packets@) =~= first);
    if conn.needs_rtt_measurement(now) {
        packets.push(conn.keepalive_packet(now));
    }
    let ghost b = *conn;
    let ghost second = if measurement_due(a, now) {
        seq![keepalive_of(a, now)]
    } else {
        Seq::empty()
    };
    assert(keepalive_contents(packets@) =~= first + second);
    if !classic {
        conn.perform_window_recovery(now);
    }
    conn.calculate_bitrate(now);
    conn.update_phase(now);
    assert(keepalive_if(before.keepalive_due(now), before, a, now));
    assert(keepalive_if(measurement_due(a, now), a, b, now));
    LinkAction::Serve(packets)
}

/// Whether `after` is the link `before` once its socket was replaced.
pub open spec fn starts_over(before: SrtlaConnection, after: SrtlaConnection, now: u64) -> bool {
    &&& after.is_core_reset(now)
    &&& after.rtt.is_fresh()
    &&& after == (SrtlaConnection {
        connected: false,
        window: after.window,
        in_flight_packets: 0,
        packet_log: after.packet_log,
        highest_acked_seq: i32::MIN,
        batch_sender: after.batch_sender,
        phase: LinkPhase::Registering,
        last_ack_or_rtt_sample_ms: 0,
        stall_gated: false,
        last_received: None,
        congestion: CongestionControl::spec_new(),
        rtt: after.rtt,
        smooth_rtt_ms: 0,
        queue_building: false,
        bitrate: BitrateTracker::spec_new(now),
        reconnection: ReconnectionState {
            last_reconnect_attempt_ms: now,
            reconnect_failure_count: 0,
            startup_grace_deadline_ms: (now + STARTUP_GRACE_MS) as u64,
            ..before.reconnection
        },
        ..before
    })
}

/// Notes that a link's socket was replaced: the link starts over, with a new grace
/// period. When it was first established is kept.
pub fn note_reconnected(conn: &mut SrtlaConnection, now: u64)
    requires
        now <= u64::MAX - STARTUP_GRACE_MS,
    ensures
        final(conn).wf(),
        starts_over(*old(conn), *final(conn), now),
{
    conn.reset_for_reconnect(now);
    conn.mark_reconnect_success();
    conn.reconnection.reset_startup_grace(now);
}

/// A registration packet for a link that is connecting again.
pub enum RecoveryPacket {
    /// REG2 was awaited on this link: its REG1 is sent anew.
    Reg1([u8; SRTLA_TYPE_REG1_LEN]),
    /// The link joins the group by REG2.
    Reg2([u8; SRTLA_TYPE_REG2_LEN]),
    /// REG2 is awaited on another link: this one has to wait.
    Defer,
}

/// Whether `packet` is what link `conn_idx` has to send after an attempt to connect
/// it again, and takes the handshake from `reg` to `next`.
pub open spec fn recovery_chosen(
    reg: SrtlaRegistrationManager,
    next: SrtlaRegistrationManager,
    conn_idx: usize,
    now: u64,
    packet: RecoveryPacket,
) -> bool {
    match packet {
        RecoveryPacket::Reg1(pkt) => {
            &&& reg.pending_reg2_idx == Some(conn_idx)
            &&& pkt@ == registration_bytes(SRTLA_TYPE_REG1, reg.srtla_id@)
            &&& next == (SrtlaRegistrationManager {
                reg1_target_idx: Some(conn_idx),
                pending_timeout_at_ms: (now + REG2_TIMEOUT * 1000) as u64,
                reg1_next_send_at_ms: (now + REG1_RETRY_MS) as u64,
                ..reg
            })
        },
        RecoveryPacket::Reg2(pkt) => {
            &&& reg.pending_reg2_idx is None
            &&& pkt@ == registration_bytes(SRTLA_TYPE_REG2, reg.srtla_id@)
            &&& next == reg
        },
        RecoveryPacket::Defer => {
            &&& reg.pending_reg2_idx is Some
            &&& reg.pending_reg2_idx != Some(conn_idx)
            &&& next == reg
        },
    }
}

/// The registration packet to send on link `conn_idx` after an attempt to connect
/// it again.
pub fn recovery_packet(
    reg: &mut SrtlaRegistrationManager,
    conn_idx: usize,
    now: u64,
) -> (packet: RecoveryPacket)
    requires
        now <= u64::MAX - REG2_TIMEOUT * 1000,
    ensures
        recovery_chosen(*old(reg), *final(reg), conn_idx, now, packet),
{
    match reg.pending_reg2_idx() {
        Some(idx) => {
            if idx == conn_idx {
                RecoveryPacket::Reg1(reg.build_reg1_for(conn_idx, now))
            } else {
                RecoveryPacket::Defer
            }
        },
        None => RecoveryPacket::Reg2(reg.build_reg2(conn_idx)),
    }
}

/// Why the sender gives up.
#[derive(Debug, Clone, Copy, PartialEq, Eq, Structural)]
pub enum ConnectionFailure {
    /// No link was ever registered.
    NeverConnected,
    /// All links were lost.
    Lost,
}

impl ConnectionFailure {
    /// The failure in words.
    pub open spec fn message(&self) -> Seq<char> {
        match self {
            ConnectionFailure::NeverConnected => "Failed to establish any initial connections"@,
            ConnectionFailure::Lost => "Failed to re-establish any connections"@,
        }
    }

    /// The failure in words.
    pub fn to_text(&self) -> (s: String)
        ensures
            s@ == self.message(),
    {
        match self {
            ConnectionFailure::NeverConnected => {
                "Failed to establish any initial connections".to_owned()
            },
            ConnectionFailure::Lost => "Failed to re-establish any connections".to_owned(),
        }
    }
}

/// Whether some link has not timed out.
pub open spec fn any_alive(conns: Seq<SrtlaConnection>, now: u64) -> bool {
    exists|i: int| 0 <= i < conns.len() && !(#[trigger] conns[i]).timed_out(now)
}

/// When all links were found gone, as of `now`.
pub open spec fn failing_since(
    conns: Seq<SrtlaConnection>,
    all_failed_at: Option<u64>,
    now: u64,
) -> Option<u64> {
    if any_alive(conns, now) {
        None
    } else if all_failed_at is Some {
        all_failed_at
    } else {
        Some(now)
    }
}

/// What the watch for all links being gone says, where `failed_at` is when they
/// were first found so.
pub open spec fn outage(
    failed_at: Option<u64>,
    has_connected: bool,
    now: u64,
) -> Result<(), ConnectionFailure> {
    match failed_at {
        Some(at) => if since(now, at) > GLOBAL_TIMEOUT_MS {
            Err(
                if has_connected {
                    ConnectionFailure::Lost
                } else {
                    ConnectionFailure::NeverConnected
                },
            )
        } else {
            Ok(())
        },
        None => Ok(()),
    }
}

/// Watches for all links being gone. The time counts from the round that first
/// found it so; once it exceeds `GLOBAL_TIMEOUT_MS`, the sender gives up. A link
/// that is alive again stops the clock.
pub fn check_all_failed(
    connections: &[SrtlaConnection],
    has_connected: bool,
    all_failed_at: &mut Option<u64>,
    now: u64,
) -> (r: Result<(), ConnectionFailure>)
    ensures
        *final(all_failed_at) == failing_since(connections@, *old(all_failed_at), now),
        r == outage(*final(all_failed_at), has_connected, now),
{
    let mut i: usize = 0;
    while i < connections.len()
        invariant
            i <= connections@.len(),
            *all_failed_at == *old(all_failed_at),
            forall|j: int| 0 <= j < i ==> (#[trigger] connections@[j]).timed_out(now),
        decreases connections@.len() - i,
    {
        if !connections[i].is_timed_out(now) {
            assert(any_alive(connections@, now));
            *all_failed_at = None;
            return Ok(());
        }
        i += 1;
    }
    let failed_at: u64 = match *all_failed_at {
        Some(at) => at,
        None => now,
    };
    *all_failed_at = Some(failed_at);
    if elapsed(now, failed_at) > GLOBAL_TIMEOUT_MS {
        if has_connected {
            Err(ConnectionFailure::Lost)
        } else {
            Err(ConnectionFailure::NeverConnected)
        }
    } else {
        Ok(())
    }
}

/// Whether the end of a round takes the handshake from `reg` to `next` and hands
/// out the given registration packets.
pub open spec fn registration_driven(
    conns: Seq<SrtlaConnection>,
    reg: SrtlaRegistrationManager,
    next: SrtlaRegistrationManager,
    now: u64,
    sends: RegDriverSends,
) -> bool {
    let counted = SrtlaRegistrationManager {
        active_connections: connected_count(conns) as usize,
        ..reg
    };
    &&& match sends.reg1 {
        Some(reg1) => {
            &&& counted.sends_reg1(now)
            &&& Some(reg1.0) == counted.reg1_target_idx
            &&& reg1.1@ == registration_bytes(SRTLA_TYPE_REG1, counted.srtla_id@)
        },
        None => !counted.sends_reg1(now),
    }
    &&& match sends.broadcast_reg2 {
        Some(reg2) => {
            &&& counted.broadcast_reg2_pending
            &&& reg2@ == registration_bytes(SRTLA_TYPE_REG2, counted.srtla_id@)
        },
        None => !counted.broadcast_reg2_pending,
    }
    &&& next == if counted.sends_reg1(now) {
        SrtlaRegistrationManager {
            pending_reg2_idx: counted.reg1_target_idx,
            pending_timeout_at_ms: (now + REG2_TIMEOUT * 1000) as u64,
            reg1_next_send_at_ms: (now + REG2_TIMEOUT * 1000) as u64,
            broadcast_reg2_pending: false,
            ..counted
        }
    } else {
        SrtlaRegistrationManager { broadcast_reg2_pending: false, ..counted }
    }
}

/// Ends a round: the connected links are counted, the registration packets that
/// are due are handed out, and all links being gone is watched for.
pub fn finish_housekeeping(
    connections: &[SrtlaConnection],
    reg: &mut SrtlaRegistrationManager,
    all_failed_at: &mut Option<u64>,
    now: u64,
) -> (r: (RegDriverSends, Result<(), ConnectionFailure>))
    requires
        now <= u64::MAX - REG2_TIMEOUT * 1000,
    ensures
        registration_driven(connections@, *old(reg), *final(reg), now, r.0),
        *final(all_failed_at) == failing_since(connections@, *old(all_failed_at), now),
        r.1 == outage(*final(all_failed_at), old(reg).has_connected, now),
{
    reg.update_active_connections(connections);
    let sends = reg.reg_driver_pending_sends(connections.len(), now);
    let result = check_all_failed(connections, reg.has_connected, all_failed_at, now);
    (sends, result)
}

/// A blip does not end the sender: at the round that finds all links gone, however
/// long the sender has been up, the clock only starts.
pub proof fn first_failed_round_is_forgiven(conns: Seq<SrtlaConnection>, now: u64)
    requires
        !any_alive(conns, now),
    ensures
        failing_since(conns, None, now) == Some(now),
        since(now, now) <= GLOBAL_TIMEOUT_MS,
{
}

/// A link that comes back stops the clock: the next outage is timed from its own
/// beginning.
pub proof fn recovery_stops_the_clock(
    up: Seq<SrtlaConnection>,
    down: Seq<SrtlaConnection>,
    all_failed_at: Option<u64>,
    up_ms: u64,
    down_ms: u64,
)
    requires
        any_alive(up, up_ms),
        !any_alive(down, down_ms),
    ensures
        failing_since(down, failing_since(up, all_failed_at, up_ms), down_ms) == Some(down_ms),
{
}

/// A round serves a connected link that heard from the receiver within 15 seconds. A
/// second after its last keepalive, or where it had none yet, it gets one at least,
/// which carries the time of the round and the link's own figures.
pub proof fn round_keeps_a_link_alive(
    before: SrtlaConnection,
    after: SrtlaConnection,
    classic: bool,
    now: u64,
    action: LinkAction,
)
    requires
        link_handled(before, after, classic, now, action),
        before.connected,
        before.last_received is None || now < before.last_received->0 + 15_000,
        before.last_keepalive_sent is None || now >= before.last_keepalive_sent->0 + 1000,
    ensures
        action matches LinkAction::Serve(packets) && {
            &&& packets@.len() >= 1
            &&& keepalive_timestamp(packets@[0]@) == Some(now)
            &&& keepalive_conn_info(packets@[0]@) == Some(before.telemetry())
        },
        after.last_keepalive_sent == Some(now),
        after.last_sent == Some(now),
        after.connected,
{
    let packets = action->Serve_0;
    let list = keepalive_contents(packets@);
    let (a, b) = choose|a: SrtlaConnection, b: SrtlaConnection|
        {
            &&& #[trigger] keepalive_if(before.keepalive_due(now), before, a, now)
            &&& #[trigger] keepalive_if(measurement_due(a, now), a, b, now)
            &&& after == updated(b, classic, now)
            &&& list == (if before.keepalive_due(now) {
                seq![keepalive_of(before, now)]
            } else {
                Seq::empty()
            }) + (if measurement_due(a, now) {
                seq![keepalive_of(a, now)]
            } else {
                Seq::empty()
            })
        };
    assert(list[0] == keepalive_of(before, now));
    assert(list[0] == packets@[0]@);
    extended_keepalive_roundtrip(now, before.telemetry());
}

/// A round sends nothing on a link whose last keepalive is less than a second old, where
/// no round-trip time is to be measured: an answer is awaited, or the last sample is at
/// most three seconds old, or the link was never established.
pub proof fn round_leaves_a_fresh_link_alone(
    before: SrtlaConnection,
    after: SrtlaConnection,
    classic: bool,
    now: u64,
    action: LinkAction,
)
    requires
        link_handled(before, after, classic, now, action),
        before.connected,
        before.last_received is None || now < before.last_received->0 + 15_000,
        before.last_keepalive_sent matches Some(last) && now < last + 1000,
        before.rtt.waiting_for_keepalive_response || before.rtt.last_rtt_measurement_ms > 0 && now
            <= before.rtt.last_rtt_measurement_ms + 3000
            || before.reconnection.connection_established_ms == 0,
    ensures
        action matches LinkAction::Serve(packets) && packets@.len() == 0,
        after.last_keepalive_sent == before.last_keepalive_sent,
        after.rtt == before.rtt,
{
    let packets = action->Serve_0;
    let list = keepalive_contents(packets@);
    let (a, b) = choose|a: SrtlaConnection, b: SrtlaConnection|
        {
            &&& #[trigger] keepalive_if(before.keepalive_due(now), before, a, now)
            &&& #[trigger] keepalive_if(measurement_due(a, now), a, b, now)
            &&& after == updated(b, classic, now)
            &&& list == (if before.keepalive_due(now) {
                seq![keepalive_of(before, now)]
            } else {
                Seq::empty()
            }) + (if measurement_due(a, now) {
                seq![keepalive_of(a, now)]
            } else {
                Seq::empty()
            })
        };
    assert(a == before);
    assert(list.len() == 0);
}

/// A round measures an established link whose last sample is more than three seconds
/// old, or that has none: it gets a keepalive whose answer is awaited.
pub proof fn round_measures_a_link(
    before: SrtlaConnection,
    after: SrtlaConnection,
    classic: bool,
    now: u64,
    action: LinkAction,
)
    requires
        link_handled(before, after, classic, now, action),
        before.connected,
        before.last_received is None || now < before.last_received->0 + 15_000,
        before.reconnection.connection_established_ms != 0,
        !before.rtt.waiting_for_keepalive_response,
        before.rtt.last_rtt_measurement_ms == 0 || now > before.rtt.last_rtt_measurement_ms
            + 3000,
    ensures
        action matches LinkAction::Serve(packets) && packets@.len() >= 1,
        after.rtt.waiting_for_keepalive_response,
        after.rtt.last_keepalive_sent_ms == now,
{
    let packets = action->Serve_0;
    let list = keepalive_contents(packets@);
    let (a, b) = choose|a: SrtlaConnection, b: SrtlaConnection|
        {
            &&& #[trigger] keepalive_if(before.keepalive_due(now), before, a, now)
            &&& #[trigger] keepalive_if(measurement_due(a, now), a, b, now)
            &&& after == updated(b, classic, now)
            &&& list == (if before.keepalive_due(now) {
                seq![keepalive_of(before, now)]
            } else {
                Seq::empty()
            }) + (if measurement_due(a, now) {
                seq![keepalive_of(a, now)]
            } else {
                Seq::empty()
            })
        };
    assert(list.len() >= 1);
}

/// What a round does to a live link's window: nothing in classic mode; recovery by time
/// otherwise.
pub proof fn round_recovers_the_window(
    before: SrtlaConnection,
    after: SrtlaConnection,
    classic: bool,
    now: u64,
    action: LinkAction,
)
    requires
        link_handled(before, after, classic, now, action),
        action is Serve,
    ensures
        classic ==> after.window == before.window && after.congestion == before.congestion,
        !classic ==> after.window == before.after_window_recovery(now).window && after.congestion
            == before.after_window_recovery(now).congestion,
        after.packet_log == before.packet_log,
        after.in_flight_packets == before.in_flight_packets,
        after.last_received == before.last_received,
{
    let list = keepalive_contents(action->Serve_0@);
    let (a, b) = choose|a: SrtlaConnection, b: SrtlaConnection|
        {
            &&& #[trigger] keepalive_if(before.keepalive_due(now), before, a, now)
            &&& #[trigger] keepalive_if(measurement_due(a, now), a, b, now)
            &&& after == updated(b, classic, now)
            &&& list == (if before.keepalive_due(now) {
                seq![keepalive_of(before, now)]
            } else {
                Seq::empty()
            }) + (if measurement_due(a, now) {
                seq![keepalive_of(a, now)]
            } else {
                Seq::empty()
            })
        };
    assert(b.window == before.window && b.congestion == before.congestion && b.connected
        == before.connected);
}

/// A connected link that heard nothing for 15 seconds is not served: it is to be
/// connected again, at once where it never was tried, and else once the delay that its
/// failures call for is over; until then it waits.
pub proof fn round_retries_a_lost_link(
    before: SrtlaConnection,
    after: SrtlaConnection,
    classic: bool,
    now: u64,
    action: LinkAction,
)
    requires
        link_handled(before, after, classic, now, action),
        before.connected,
        before.reconnection.connection_established_ms != 0,
        before.reconnection.last_reconnect_attempt_ms <= now,
        before.last_received matches Some(at) && now >= at + 15_000,
    ensures
        action !is Serve,
        action is Reconnect <==> before.reconnection.last_reconnect_attempt_ms == 0 || now
            - before.reconnection.last_reconnect_attempt_ms >= before.reconnection.delay_after(
            before.reconnection.reconnect_failure_count,
        ),
        action is Reconnect ==> after.reconnection.last_reconnect_attempt_ms == now,
        action is Reconnect && before.reconnection.reconnect_failure_count < u32::MAX
            ==> after.reconnection.reconnect_failure_count
            == before.reconnection.reconnect_failure_count + 1,
        action is Wait ==> after == before,
{
}

/// The sender gives up exactly where all links are lost and were found so more than ten
/// seconds ago; the error tells whether a link was ever registered.
pub proof fn sender_gives_up_after_ten_seconds(
    conns: Seq<SrtlaConnection>,
    all_failed_at: Option<u64>,
    has_connected: bool,
    now: u64,
)
    ensures
        ({
            let failed = failing_since(conns, all_failed_at, now);
            let lost = forall|i: int|
                0 <= i < conns.len() ==> (#[trigger] conns[i]).timed_out(now);
            &&& outage(failed, has_connected, now) is Err <==> lost && all_failed_at is Some && now
                > all_failed_at->0 + 10_000
            &&& outage(failed, has_connected, now) is Err && has_connected ==> outage(
                failed,
                has_connected,
                now,
            )->Err_0 is Lost
            &&& outage(failed, has_connected, now) is Err && !has_connected ==> outage(
                failed,
                has_connected,
                now,
            )->Err_0 is NeverConnected
            &&& !lost ==> failed is None
            &&& lost && all_failed_at is None ==> failed == Some(now)
            &&& lost && all_failed_at is Some ==> failed == all_failed_at
        }),
{
    if forall|i: int| 0 <= i < conns.len() ==> (#[trigger] conns[i]).timed_out(now) {
        assert(!any_alive(conns, now));
    } else {
        let i = choose|i: int| 0 <= i < conns.len() && !(#[trigger] conns[i]).timed_out(now);
        assert(any_alive(conns, now));
    }
}

/// A wait for REG2 that is over is given up, and the next REG_NGP may name a new link; a
/// wait that is not goes on.
pub proof fn overdue_wait_is_given_up(reg: SrtlaRegistrationManager, now: u64)
    ensures
        reg.pending_reg2_idx is Some && 0 < reg.pending_timeout_at_ms <= now ==> {
            let next = after_waits(reg, now);
            &&& next.pending_reg2_idx is None
            &&& next.reg1_target_idx is None
            &&& next.pending_timeout_at_ms == 0
            &&& next.reg1_next_send_at_ms == now
            &&& next.srtla_id == reg.srtla_id
            &&& next.has_connected == reg.has_connected
        },
        reg.pending_reg2_idx is None || reg.pending_timeout_at_ms == 0
            || reg.pending_timeout_at_ms > now ==> after_waits(reg, now) == reg,
{
}

/// The end of a round sends REG1 on its target exactly where no link is connected, no
/// REG2 is awaited and the pause is over, and awaits REG2 there for four seconds. The
/// REG2 that follows an accepted one goes out once.
pub proof fn round_drives_the_registration(
    conns: Seq<SrtlaConnection>,
    reg: SrtlaRegistrationManager,
    next: SrtlaRegistrationManager,
    now: u64,
    sends: RegDriverSends,
)
    requires
        registration_driven(conns, reg, next, now, sends),
        now <= u64::MAX - 4000,
        conns.len() <= usize::MAX,
    ensures
        ({
            let alone = forall|i: int| 0 <= i < conns.len() ==> !(#[trigger] conns[i]).connected;
            let due = alone && reg.reg1_target_idx is Some && reg.pending_reg2_idx is None && now
                >= reg.reg1_next_send_at_ms;
            &&& sends.reg1 is Some <==> due
            &&& sends.reg1 matches Some(reg1) ==> {
                &&& Some(reg1.0) == reg.reg1_target_idx
                &&& reg1.1@ == half_bytes(0x9200) + reg.srtla_id@
                &&& next.pending_reg2_idx == Some(reg1.0)
                &&& next.pending_timeout_at_ms == now + 4000
            }
            &&& !due ==> next.pending_reg2_idx == reg.pending_reg2_idx
            &&& sends.broadcast_reg2 is Some <==> reg.broadcast_reg2_pending
            &&& sends.broadcast_reg2 matches Some(reg2) ==> reg2@ == half_bytes(0x9201)
                + reg.srtla_id@
            &&& !next.broadcast_reg2_pending
            &&& next.srtla_id == reg.srtla_id
            &&& next.has_connected == reg.has_connected
            &&& next.active_connections == 0 <==> alone
        }),
{
    no_link_counts(conns);
}

proof fn no_link_counts(conns: Seq<SrtlaConnection>)
    ensures
        connected_count(conns) <= conns.len(),
        connected_count(conns) == 0 <==> forall|i: int|
            0 <= i < conns.len() ==> !(#[trigger] conns[i]).connected,
    decreases conns.len(),
{
    if conns.len() > 0 {
        let front = conns.drop_last();
        no_link_counts(front);
        if forall|i: int| 0 <= i < conns.len() ==> !(#[trigger] conns[i]).connected {
            assert forall|i: int| 0 <= i < front.len() implies !(#[trigger] front[i]).connected by {
                assert(!conns[i].connected);
            }
            assert(!conns[conns.len() - 1].connected);
        } else {
            let i = choose|i: int| 0 <= i < conns.len() && (#[trigger] conns[i]).connected;
            if i < front.len() {
                assert(front[i].connected);
            }
        }
    }
}

/// After an attempt to connect it again, a link sends REG1 where REG2 is awaited on it,
/// joins by REG2 where none is awaited, and sends nothing where one is awaited
/// elsewhere.
pub proof fn recovering_link_joins_the_group(
    reg: SrtlaRegistrationManager,
    next: SrtlaRegistrationManager,
    conn_idx: usize,
    now: u64,
    packet: RecoveryPacket,
)
    requires
        recovery_chosen(reg, next, conn_idx, now, packet),
        now <= u64::MAX - 4000,
    ensures
        packet is Reg1 <==> reg.pending_reg2_idx == Some(conn_idx),
        packet is Reg2 <==> reg.pending_reg2_idx is None,
        packet matches RecoveryPacket::Reg1(pkt) ==> pkt@ == half_bytes(0x9200) + reg.srtla_id@
            && next.pending_reg2_idx == Some(conn_idx) && next.pending_timeout_at_ms == now
            + 4000,
        packet matches RecoveryPacket::Reg2(pkt) ==> pkt@ == half_bytes(0x9201) + reg.srtla_id@
            && next == reg,
        packet is Defer ==> next == reg,
{
}

/// A link whose socket was replaced starts over: it is not connected, carries nothing,
/// has the default window and five seconds of grace, and no failures count against it.
pub proof fn reconnected_link_starts_over(
    before: SrtlaConnection,
    after: SrtlaConnection,
    now: u64,
)
    requires
        starts_over(before, after, now),
        now <= u64::MAX - 5000,
    ensures
        !after.connected,
        after.window == 20_000,
        after.in_flight_packets == 0,
        after.batch_sender.queue@.len() == 0,
        after.phase is Registering,
        after.congestion.nak_count == 0,
        after.reconnection.reconnect_failure_count == 0,
        after.reconnection.startup_grace_deadline_ms == now + 5000,
        after.reconnection.connection_established_ms
            == before.reconnection.connection_established_ms,
        after.conn_id == before.conn_id,
        after.label == before.label,
{
}

/// Where probing is through, the round makes the picked link the target of REG1 at once
/// and gives it five seconds of grace; no other link changes.
pub proof fn picked_link_gets_its_grace(
    before: Seq<SrtlaConnection>,
    after: Seq<SrtlaConnection>,
    reg: SrtlaRegistrationManager,
    next: SrtlaRegistrationManager,
    now: u64,
    i: int,
)
    requires
        round_begun(before, after, reg, next, now),
        now <= u64::MAX - 5000,
        0 <= i < before.len(),
    ensures
        after.len() == before.len(),
        reg.probing_state is WaitingForProbes && reg.pending_reg2_idx is None && now
            >= reg.pending_timeout_at_ms ==> {
            &&& next.probing_state is Complete
            &&& next.reg1_target_idx is Some
            &&& next.reg1_next_send_at_ms == now
            &&& next.reg1_target_idx == Some(i as usize) && i <= usize::MAX
                ==> after[i].reconnection.startup_grace_deadline_ms == now + 5000
            &&& next.reg1_target_idx != Some(i as usize) && i <= usize::MAX ==> after[i]
                == before[i]
        },
        reg.probing_state !is WaitingForProbes ==> after == before,
        after[i].window == before[i].window && after[i].connected == before[i].connected,
{
}

/// Probing that is through at the beginning of a round makes a link the target that
/// answered no later than any other, or the first link where none answered. A round before
/// that changes nothing of it.
pub proof fn round_targets_the_fastest_link(
    before: Seq<SrtlaConnection>,
    after: Seq<SrtlaConnection>,
    reg: SrtlaRegistrationManager,
    next: SrtlaRegistrationManager,
    now: u64,
    j: int,
)
    requires
        round_begun(before, after, reg, next, now),
        reg.probing_state is WaitingForProbes,
        reg.pending_reg2_idx is None,
        0 <= j < reg.probe_results@.len(),
    ensures
        now >= reg.pending_timeout_at_ms && reg.probe_results@[j].rtt_ms is Some ==> exists|i: int|
            {
                &&& 0 <= i < reg.probe_results@.len()
                &&& Some((#[trigger] reg.probe_results@[i]).conn_idx) == next.reg1_target_idx
                &&& reg.probe_results@[i].rtt_ms is Some
                &&& reg.probe_results@[i].rtt_ms->0 <= reg.probe_results@[j].rtt_ms->0
            },
        now >= reg.pending_timeout_at_ms && (forall|i: int|
            0 <= i < reg.probe_results@.len() ==> (#[trigger] reg.probe_results@[i]).rtt_ms is None)
            ==> next.reg1_target_idx == Some(0usize),
        now < reg.pending_timeout_at_ms && reg.probe_results@[j].rtt_ms is None ==> next == reg
            && after == before,
{
    if now >= reg.pending_timeout_at_ms {
        let picked = next.reg1_target_idx->0;
        fastest_link_is_picked(reg.probe_results@, picked, j);
        if reg.probe_results@[j].rtt_ms is Some {
            let i = choose|i: int|
                0 <= i < reg.probe_results@.len() && (#[trigger] reg.probe_results@[i]).conn_idx
                    == picked && reg.probe_results@[i].rtt_ms is Some
                    && reg.probe_results@[i].rtt_ms->0 <= reg.probe_results@[j].rtt_ms->0;
            assert(Some(reg.probe_results@[i].conn_idx) == next.reg1_target_idx);
        }
    }
}

} // verus!
