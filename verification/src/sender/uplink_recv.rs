//! What a packet from the receiver does to its link and to the handshake.

use crate::clock::since;
use crate::connection::batch_send::QueuedPacket;
use crate::connection::congestion::CongestionControl;
use crate::connection::incoming::{IncomingView, SrtlaIncoming};
use crate::connection::link::{CachedQuality, LinkPhase, SrtlaConnection};
use crate::connection::packet_log::no_entries;
use crate::connection::reconnection::ReconnectionState;
use crate::connection::rtt::{
    last_items, last_items_are_the_end, MAX_RTT_MS, SLOW_WINDOW_SAMPLES,
};
use crate::protocol::builders::{conn_info_bytes, keepalive_bytes, registration_bytes};
use crate::protocol::constants::{
    REG2_TIMEOUT, REG3_TIMEOUT, SRTLA_TYPE_ACK, SRTLA_TYPE_KEEPALIVE, SRTLA_TYPE_REG1,
    SRT_TYPE_ACK, SRT_TYPE_NAK,
};
use crate::protocol::lists::{copy_packet, number_slice, numbers, push_number, push_packet};
use crate::protocol::parsers::{
    ack_number, extended_keepalive_roundtrip, nak_numbers, parse_srt_ack, parse_srt_nak,
    parse_srtla_ack, srtla_ack_numbers,
};
use crate::protocol::types::{get_packet_type, packet_type, ConnectionInfo};
use crate::registration::{RegistrationEvent, SrtlaRegistrationManager, REG1_RETRY_MS};
use smallvec::SmallVec;
use vstd::prelude::*;

verus! {

/// The type of a packet that has one and that the handshake does not take in.
pub open spec fn traffic_type(data: Seq<u8>) -> Option<u16> {
    if SrtlaRegistrationManager::event_of(data) is Some {
        None
    } else {
        packet_type(data)
    }
}

/// Whether a packet is for the SRT client: all but those of SRTLA itself.
pub open spec fn for_client(data: Seq<u8>) -> bool {
    match traffic_type(data) {
        Some(t) => t != SRTLA_TYPE_ACK && t != SRTLA_TYPE_KEEPALIVE,
        None => false,
    }
}

/// What a packet adds to what came in, apart from the handshake's answer.
pub open spec fn taken_in(
    before: IncomingView,
    data: Seq<u8>,
    reg1: Option<Seq<u8>>,
    rtt_sample: Option<u64>,
) -> IncomingView {
    IncomingView {
        forward: if for_client(data) {
            before.forward.push(data)
        } else {
            before.forward
        },
        acks: if traffic_type(data) == Some(SRT_TYPE_ACK) && ack_number(data) is Some {
            before.acks.push(ack_number(data)->0)
        } else {
            before.acks
        },
        naks: if traffic_type(data) == Some(SRT_TYPE_NAK) {
            before.naks + nak_numbers(data)
        } else {
            before.naks
        },
        srtla_acks: if traffic_type(data) == Some(SRTLA_TYPE_ACK) {
            before.srtla_acks + srtla_ack_numbers(data)
        } else {
            before.srtla_acks
        },
        read_any: true,
        reg1: if reg1 is Some {
            reg1
        } else {
            before.reg1
        },
        rtt_sample: if rtt_sample is Some {
            rtt_sample
        } else {
            before.rtt_sample
        },
    }
}

/// The round-trip time that a packet gives.
pub open spec fn sample_of(conn: SrtlaConnection, data: Seq<u8>, now: u64) -> Option<u64> {
    if traffic_type(data) == Some(SRTLA_TYPE_KEEPALIVE) {
        conn.rtt.keepalive_sample(data, now)
    } else {
        None
    }
}

/// Whether `after` is the link `before` once REG3 has come at `now`: what it
/// gathered earlier is dropped, and it is connected and warming.
pub open spec fn registered(after: SrtlaConnection, before: SrtlaConnection, now: u64) -> bool {
    &&& after.packet_log@ == no_entries()
    &&& after.batch_sender.queue@ == Seq::<QueuedPacket>::empty()
    &&& after.batch_sender.last_flush_ms == now
    &&& after == (SrtlaConnection {
        packet_log: after.packet_log,
        batch_sender: after.batch_sender,
        in_flight_packets: 0,
        highest_acked_seq: i32::MIN,
        congestion: CongestionControl::spec_new(),
        quality_cache: CachedQuality::spec_new(),
        phase: LinkPhase::Warming { rtt_probes: 0, entered_ms: now },
        connected: true,
        last_received: Some(now),
        reconnection: ReconnectionState {
            connection_established_ms: if before.reconnection.connection_established_ms == 0 {
                now
            } else {
                before.reconnection.connection_established_ms
            },
            reconnect_failure_count: 0,
            ..before.reconnection
        },
        ..before
    })
}

/// Whether `after` is the link `before` once the answer to a keepalive has come at
/// `now`. An answer that was awaited gives a round-trip time, which proves that
/// the link delivers.
pub open spec fn answered_keepalive(
    after: SrtlaConnection,
    before: SrtlaConnection,
    data: Seq<u8>,
    now: u64,
) -> bool {
    let sample = before.rtt.keepalive_sample(data, now);
    &&& after.rtt.wf()
    &&& !after.rtt.waiting_for_keepalive_response
    &&& after.rtt.last_keepalive_sent_ms == before.rtt.last_keepalive_sent_ms
    &&& after.rtt.slow() == match sample {
        Some(rtt) => last_items(before.rtt.slow().push(rtt), SLOW_WINDOW_SAMPLES as nat),
        None => before.rtt.slow(),
    }
    &&& after.rtt.last_rtt_measurement_ms == if sample is Some {
        now
    } else {
        before.rtt.last_rtt_measurement_ms
    }
    &&& after == (SrtlaConnection {
        rtt: after.rtt,
        last_received: Some(now),
        phase: if sample is Some {
            SrtlaConnection::phase_after_probe(before.phase)
        } else {
            before.phase
        },
        last_ack_or_rtt_sample_ms: if sample is Some {
            now
        } else {
            before.last_ack_or_rtt_sample_ms
        },
        ..before
    })
}

/// Whether `after` is what a packet at `now` makes of the link `before`.
pub open spec fn link_follows(
    after: SrtlaConnection,
    before: SrtlaConnection,
    data: Seq<u8>,
    now: u64,
) -> bool {
    match SrtlaRegistrationManager::event_of(data) {
        Some(RegistrationEvent::Reg3) => registered(after, before, now),
        Some(RegistrationEvent::RegErr) => after == (SrtlaConnection {
            connected: false,
            last_received: None,
            ..before
        }),
        Some(_) => after == before,
        None => match packet_type(data) {
            Some(t) => if t == SRTLA_TYPE_KEEPALIVE {
                answered_keepalive(after, before, data, now)
            } else {
                after == (SrtlaConnection { last_received: Some(now), ..before })
            },
            None => after == before,
        },
    }
}

/// Whether `after` and `reg1` are what a packet on link `conn_idx` makes of the
/// handshake: a REG_NGP that makes the link the target is answered at once.
pub open spec fn handshake_follows(
    after: SrtlaRegistrationManager,
    before: SrtlaRegistrationManager,
    conn_idx: usize,
    data: Seq<u8>,
    now: u64,
    reg1: Option<Seq<u8>>,
) -> bool {
    if SrtlaRegistrationManager::event_of(data) == Some(RegistrationEvent::RegNgp) {
        exists|mid: SrtlaRegistrationManager| #[trigger]
            mid.follows_packet(&before, conn_idx, data, now) && {
                let answers = mid.sends_reg1(now) && mid.reg1_target_idx == Some(conn_idx);
                &&& reg1 == if answers {
                    Some(registration_bytes(SRTLA_TYPE_REG1, mid.srtla_id@))
                } else {
                    None
                }
                &&& after == if answers {
                    SrtlaRegistrationManager {
                        pending_reg2_idx: Some(conn_idx),
                        pending_timeout_at_ms: (now + REG2_TIMEOUT * 1000) as u64,
                        reg1_next_send_at_ms: (now + REG1_RETRY_MS) as u64,
                        ..mid
                    }
                } else {
                    mid
                }
            }
    } else {
        &&& after.follows_packet(&before, conn_idx, data, now)
        &&& reg1 is None
    }
}

fn push_all(list: &mut SmallVec<u32, 4>, more: &SmallVec<u32, 4>)
    ensures
        numbers(final(list)) == numbers(old(list)) + numbers(more),
{
    let items = number_slice(more);
    let mut i: usize = 0;
    assert(numbers(list) + items@.take(0) =~= numbers(list));
    while i < items.len()
        invariant
            i <= items@.len(),
            items@ == numbers(more),
            numbers(list) == numbers(old(list)) + items@.take(i as int),
        decreases items@.len() - i,
    {
        push_number(list, items[i]);
        i += 1;
        assert(numbers(list) =~= numbers(old(list)) + items@.take(i as int));
    }
    assert(items@.take(items@.len() as int) =~= items@);
}

/// Takes in one packet that came in on link `conn_idx`, on top of what came in
/// before. Packets of the handshake go to `reg`; ACKs, NAKs and packets for the
/// client are collected; the answer to a keepalive is measured.
pub fn process_packet_internal(
    conn: &mut SrtlaConnection,
    conn_idx: usize,
    reg: &mut SrtlaRegistrationManager,
    data: &[u8],
    incoming: &mut SrtlaIncoming,
    now: u64,
)
    requires
        old(conn).wf(),
        now <= u64::MAX - REG2_TIMEOUT * 1000,
        now <= u64::MAX - REG3_TIMEOUT * 1000,
    ensures
        final(conn).wf(),
        link_follows(*final(conn), *old(conn), data@, now),
        exists|reg1: Option<Seq<u8>>| #[trigger]
            handshake_follows(*final(reg), *old(reg), conn_idx, data@, now, reg1)
                && final(incoming)@ == taken_in(
                old(incoming)@,
                data@,
                reg1,
                sample_of(*old(conn), data@, now),
            ),
{
    incoming.read_any = true;
    let pt: u16 = match get_packet_type(data) {
        Some(pt) => pt,
        None => {
            assert(handshake_follows(*reg, *old(reg), conn_idx, data@, now, None));
            assert(incoming@ =~= taken_in(old(incoming)@, data@, None, None));
            return;
        },
    };
    if let Some(event) = reg.process_registration_packet(conn_idx, data, now) {
        match event {
            RegistrationEvent::RegNgp => {
                let ghost mid = *reg;
                let answer = reg.reg1_if_ngp_immediate(conn_idx, now);
                let ghost reg1: Option<Seq<u8>> = match answer {
                    Some(pkt) => Some(pkt@),
                    None => None,
                };
                assert(mid.follows_packet(old(reg), conn_idx, data@, now));
                assert(handshake_follows(*reg, *old(reg), conn_idx, data@, now, reg1));
                if answer.is_some() {
                    incoming.reg1_send = answer;
                }
                assert(incoming@ =~= taken_in(old(incoming)@, data@, reg1, None));
            },
            RegistrationEvent::Reg3 => {
                conn.clear_pre_registration_state(now);
                conn.connected = true;
                conn.last_received = Some(now);
                if conn.reconnection.connection_established_ms == 0 {
                    conn.reconnection.connection_established_ms = now;
                }
                conn.reconnection.mark_success(conn.label.as_str());
                assert(handshake_follows(*reg, *old(reg), conn_idx, data@, now, None));
                assert(incoming@ =~= taken_in(old(incoming)@, data@, None, None));
            },
            RegistrationEvent::RegErr => {
                conn.connected = false;
                conn.last_received = None;
                assert(handshake_follows(*reg, *old(reg), conn_idx, data@, now, None));
                assert(incoming@ =~= taken_in(old(incoming)@, data@, None, None));
            },
            RegistrationEvent::Reg2 => {
                assert(handshake_follows(*reg, *old(reg), conn_idx, data@, now, None));
                assert(incoming@ =~= taken_in(old(incoming)@, data@, None, None));
            },
        }
        return;
    }
    assert(handshake_follows(*reg, *old(reg), conn_idx, data@, now, None));
    conn.last_received = Some(now);
    if pt == SRT_TYPE_ACK {
        if let Some(ack) = parse_srt_ack(data) {
            push_number(&mut incoming.ack_numbers, ack);
        }
        push_packet(&mut incoming.forward_to_client, copy_packet(data));
    } else if pt == SRT_TYPE_NAK {
        let naks = parse_srt_nak(data);
        push_all(&mut incoming.nak_numbers, &naks);
        push_packet(&mut incoming.forward_to_client, copy_packet(data));
    } else if pt == SRTLA_TYPE_ACK {
        let acks = parse_srtla_ack(data);
        push_all(&mut incoming.srtla_ack_numbers, &acks);
    } else if pt == SRTLA_TYPE_KEEPALIVE {
        let sample = conn.rtt.handle_keepalive_response(data, conn.label.as_str(), now);
        if sample.is_some() {
            conn.record_rtt_probe();
            conn.last_ack_or_rtt_sample_ms = now;
            incoming.rtt_sample = sample;
        }
    } else {
        push_packet(&mut incoming.forward_to_client, copy_packet(data));
    }
    assert(incoming@ =~= taken_in(
        old(incoming)@,
        data@,
        None,
        sample_of(*old(conn), data@, now),
    ));
}

/// Takes in one packet that came in on link `conn_idx`; what it asks for.
pub fn process_uplink_packet(
    conn: &mut SrtlaConnection,
    conn_idx: usize,
    reg: &mut SrtlaRegistrationManager,
    data: &[u8],
    now: u64,
) -> (incoming: SrtlaIncoming)
    requires
        old(conn).wf(),
        now <= u64::MAX - REG2_TIMEOUT * 1000,
        now <= u64::MAX - REG3_TIMEOUT * 1000,
    ensures
        final(conn).wf(),
        link_follows(*final(conn), *old(conn), data@, now),
        exists|reg1: Option<Seq<u8>>| #[trigger]
            handshake_follows(*final(reg), *old(reg), conn_idx, data@, now, reg1) && incoming@
                == taken_in(
                IncomingView::nothing(),
                data@,
                reg1,
                sample_of(*old(conn), data@, now),
            ),
{
    let mut incoming = SrtlaIncoming::default();
    process_packet_internal(conn, conn_idx, reg, data, &mut incoming, now);
    incoming
}

/// A keepalive that the receiver echoes is measured: the answer at `now` to one
/// sent at `sent` gives the time between the two as a sample, where it is awaited
/// and the time is credible.
pub proof fn echoed_keepalive_is_measured(
    conn: SrtlaConnection,
    info: ConnectionInfo,
    sent: u64,
    now: u64,
)
    requires
        conn.rtt.waiting_for_keepalive_response,
        since(now, sent) <= MAX_RTT_MS,
    ensures
        sample_of(conn, keepalive_bytes(sent) + conn_info_bytes(info), now) == Some(
            since(now, sent),
        ),
{
    extended_keepalive_roundtrip(sent, info);
}

/// What belongs to SRTLA itself never reaches the client: registration packets,
/// SRTLA ACKs and keepalives leave the packets for the client as they were.
pub proof fn srtla_packets_stay_here(
    before: IncomingView,
    data: Seq<u8>,
    reg1: Option<Seq<u8>>,
    rtt_sample: Option<u64>,
)
    requires
        SrtlaRegistrationManager::event_of(data) is Some || packet_type(data) == Some(
            SRTLA_TYPE_ACK,
        ) || packet_type(data) == Some(SRTLA_TYPE_KEEPALIVE),
    ensures
        taken_in(before, data, reg1, rtt_sample).forward == before.forward,
{
}

/// Which packets of the receiver go on to the SRT client, by their first two bytes: all
/// but registration packets, SRTLA ACKs and keepalives; each as it is, behind those
/// before it.
pub proof fn client_gets_the_rest(
    before: IncomingView,
    data: Seq<u8>,
    reg1: Option<Seq<u8>>,
    rtt_sample: Option<u64>,
)
    requires
        data.len() >= 2,
    ensures
        ({
            let own = (data[0] == 0x92 && (data[1] == 0x01 || data[1] == 0x02 || data[1] == 0x10
                || data[1] == 0x11)) || (data[0] == 0x91 && data[1] == 0x00) || (data[0] == 0x90
                && data[1] == 0x00);
            let after = taken_in(before, data, reg1, rtt_sample);
            &&& !own ==> after.forward == before.forward.push(data)
            &&& own ==> after.forward == before.forward
        }),
{
}

/// What each packet of the receiver adds, by its first two bytes: an ACK its number, a
/// NAK what it reports, an SRTLA ACK the numbers in it; no packet adds to another list,
/// and what was there stays first.
pub proof fn answers_are_collected(
    before: IncomingView,
    data: Seq<u8>,
    reg1: Option<Seq<u8>>,
    rtt_sample: Option<u64>,
)
    requires
        data.len() >= 2,
    ensures
        ({
            let after = taken_in(before, data, reg1, rtt_sample);
            &&& data[0] == 0x80 && data[1] == 0x03 ==> after.naks == before.naks + nak_numbers(data)
            &&& !(data[0] == 0x80 && data[1] == 0x03) ==> after.naks == before.naks
            &&& data[0] == 0x91 && data[1] == 0x00 ==> after.srtla_acks == before.srtla_acks
                + srtla_ack_numbers(data)
            &&& !(data[0] == 0x91 && data[1] == 0x00) ==> after.srtla_acks == before.srtla_acks
            &&& data[0] == 0x80 && data[1] == 0x02 && ack_number(data) is Some ==> after.acks
                == before.acks.push(ack_number(data)->0)
            &&& !(data[0] == 0x80 && data[1] == 0x02) ==> after.acks == before.acks
            &&& after.read_any
            &&& reg1 is Some ==> after.reg1 == reg1
            &&& reg1 is None ==> after.reg1 == before.reg1
        }),
{
}

/// What a packet of the receiver does to its link, by its first two bytes. REG3 connects
/// it, and drops what was in flight and the count of failures; REG_ERR disconnects it.
/// Any other packet that is not of the handshake is a sign of life, and leaves window,
/// log and connection as they were.
pub proof fn link_hears_from_the_receiver(
    after: SrtlaConnection,
    before: SrtlaConnection,
    data: Seq<u8>,
    now: u64,
)
    requires
        link_follows(after, before, data, now),
        data.len() >= 2,
    ensures
        data[0] == 0x92 && data[1] == 0x02 ==> {
            &&& after.connected
            &&& after.last_received == Some(now)
            &&& after.in_flight_packets == 0
            &&& after.packet_log@.len() == 0
            &&& after.batch_sender.queue@.len() == 0
            &&& after.phase == (LinkPhase::Warming { rtt_probes: 0, entered_ms: now })
            &&& after.reconnection.reconnect_failure_count == 0
            &&& before.reconnection.connection_established_ms == 0
                ==> after.reconnection.connection_established_ms == now
            &&& before.reconnection.connection_established_ms != 0
                ==> after.reconnection.connection_established_ms
                == before.reconnection.connection_established_ms
            &&& after.window == before.window
            &&& after.congestion.nak_count == 0
        },
        data[0] == 0x92 && data[1] == 0x10 ==> !after.connected && after.last_received is None
            && after.window == before.window && after.packet_log == before.packet_log,
        data[0] == 0x92 && (data[1] == 0x01 || data[1] == 0x11) ==> after == before,
        data[0] != 0x92 ==> {
            &&& after.last_received == Some(now)
            &&& after.connected == before.connected
            &&& after.window == before.window
            &&& after.packet_log == before.packet_log
            &&& after.congestion == before.congestion
        },
        data[0] != 0x92 && !(data[0] == 0x90 && data[1] == 0x00) ==> after.rtt == before.rtt
            && after.phase == before.phase && after.last_ack_or_rtt_sample_ms
            == before.last_ack_or_rtt_sample_ms,
        data[0] == 0x90 && data[1] == 0x00 ==> !after.rtt.waiting_for_keepalive_response,
{
}

/// A REG_NGP on a link, where nothing is connected, no REG2 is awaited and no probes are
/// out, is answered at once by REG1 with the own id, and REG2 is awaited on that link
/// for four seconds. Otherwise, and to any other packet, no REG1 goes out.
pub proof fn ngp_is_answered_at_once(
    after: SrtlaRegistrationManager,
    before: SrtlaRegistrationManager,
    conn_idx: usize,
    data: Seq<u8>,
    now: u64,
    reg1: Option<Seq<u8>>,
)
    requires
        handshake_follows(after, before, conn_idx, data, now, reg1),
        now <= u64::MAX - 4000,
    ensures
        ({
            let ngp = data.len() >= 2 && data[0] == 0x92 && data[1] == 0x11;
            let free = before.active_connections == 0 && before.pending_reg2_idx is None;
            &&& ngp && free && before.probing_state !is WaitingForProbes ==> {
                &&& reg1 == Some(seq![0x92u8, 0x00u8] + before.srtla_id@)
                &&& after.pending_reg2_idx == Some(conn_idx)
                &&& after.reg1_target_idx == Some(conn_idx)
                &&& after.pending_timeout_at_ms == now + 4000
            }
            &&& !ngp || !free ==> reg1 is None
            &&& !ngp || !free ==> !(data.len() >= 2 && data[0] == 0x92) ==> after == before
            &&& after.has_connected <==> before.has_connected || data.len() >= 2 && data[0] == 0x92
                && data[1] == 0x02
        }),
{
    if data.len() >= 2 && data[0] == 0x92 && data[1] == 0x11 && before.active_connections == 0
        && before.pending_reg2_idx is None && before.probing_state !is WaitingForProbes {
        assert(registration_bytes(SRTLA_TYPE_REG1, before.srtla_id@) =~= seq![0x92u8, 0x00u8]
            + before.srtla_id@);
    }
}

/// The answer to a keepalive that is awaited, and came within ten seconds, is a sample and
/// proves delivery now; any other answer only ends the wait.
pub proof fn awaited_answer_proves_delivery(
    after: SrtlaConnection,
    before: SrtlaConnection,
    sent: u64,
    info: ConnectionInfo,
    now: u64,
)
    requires
        link_follows(after, before, keepalive_bytes(sent) + conn_info_bytes(info), now),
        sent <= now,
    ensures
        before.rtt.waiting_for_keepalive_response && now <= sent + 10_000 ==> {
            &&& after.last_ack_or_rtt_sample_ms == now
            &&& after.rtt.last_rtt_measurement_ms == now
            &&& after.rtt.slow().len() > 0
            &&& sent + after.rtt.slow().last() == now
            &&& after.phase == SrtlaConnection::phase_after_probe(before.phase)
        },
        !before.rtt.waiting_for_keepalive_response || now > sent + 10_000 ==> {
            &&& after.last_ack_or_rtt_sample_ms == before.last_ack_or_rtt_sample_ms
            &&& after.rtt.last_rtt_measurement_ms == before.rtt.last_rtt_measurement_ms
            &&& after.rtt.slow() == before.rtt.slow()
            &&& after.phase == before.phase
        },
        !after.rtt.waiting_for_keepalive_response,
        after.last_received == Some(now),
{
    extended_keepalive_roundtrip(sent, info);
    let data = keepalive_bytes(sent) + conn_info_bytes(info);
    assert(data[0] == 0x90 && data[1] == 0x00);
    if before.rtt.waiting_for_keepalive_response && now <= sent + 10_000 {
        let rtt = (now - sent) as u64;
        last_items_are_the_end(before.rtt.slow().push(rtt), 100, 0);
    }
}

/// The newest round-trip time counts; a packet that gives none leaves the last one.
pub proof fn newest_sample_counts(
    before: IncomingView,
    data: Seq<u8>,
    reg1: Option<Seq<u8>>,
    rtt_sample: Option<u64>,
)
    ensures
        rtt_sample is Some ==> taken_in(before, data, reg1, rtt_sample).rtt_sample == rtt_sample,
        rtt_sample is None ==> taken_in(before, data, reg1, rtt_sample).rtt_sample
            == before.rtt_sample,
        data.len() < 2 ==> taken_in(before, data, reg1, rtt_sample).forward == before.forward,
{
}

} // verus!
