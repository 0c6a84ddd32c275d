use srtla_send::config::ConfigSnapshot;
use srtla_send::connection::batch_send::BATCH_SIZE_THRESHOLD;
use srtla_send::connection::link::{LinkPhase, SrtlaConnection};
use srtla_send::mode::SchedulingMode;
use srtla_send::protocol::builders::{create_ack_packet, keepalive_packet_at};
use srtla_send::protocol::constants::{SRTLA_ID_LEN, SRT_TYPE_ACK, SRT_TYPE_NAK};
use srtla_send::protocol::parsers::extract_keepalive_conn_info;
use srtla_send::registration::SrtlaRegistrationManager;
use srtla_send::sender::packet_handler::{
    find_connection, flush_all_batches, forward_via_connection, handle_srt_packet,
    handle_uplink_packet, process_connection_events, select_pre_registration_connection,
    UplinkPacket,
};
use srtla_send::sender::selection::gate::SelectionInputs;
use srtla_send::sender::sequence::{
    cleanup_expired_sequence_tracking, SequenceTracker, SequenceTrackingEntry,
    MAX_SEQUENCE_TRACKING,
};
use srtla_send::sender::uplink_recv::{process_packet_internal, process_uplink_packet};
use smallvec::SmallVec;
use std::collections::{HashMap, VecDeque};

const NOW: u64 = 100_000;

fn connections(n: usize) -> Vec<SrtlaConnection> {
    (0..n)
        .map(|i| {
            let mut c = SrtlaConnection::new_registering(i as u64 + 1, format!("link {i}"), NOW);
            c.connected = true;
            c.last_received = Some(NOW);
            c.phase = LinkPhase::Live;
            c
        })
        .collect()
}

fn manager() -> SrtlaRegistrationManager {
    SrtlaRegistrationManager::with_ids([1; SRTLA_ID_LEN], [2; SRTLA_ID_LEN])
}

fn srt_ack(number: u32) -> Vec<u8> {
    let mut pkt = vec![0u8; 20];
    pkt[0..2].copy_from_slice(&SRT_TYPE_ACK.to_be_bytes());
    pkt[16..20].copy_from_slice(&number.to_be_bytes());
    pkt
}

fn srt_nak(numbers: &[u32]) -> Vec<u8> {
    let mut pkt = vec![0u8; 4];
    pkt[0..2].copy_from_slice(&SRT_TYPE_NAK.to_be_bytes());
    for n in numbers {
        pkt.extend_from_slice(&n.to_be_bytes());
    }
    pkt
}

fn data(seq: u32) -> Vec<u8> {
    let mut pkt = vec![7u8; 100];
    pkt[0..4].copy_from_slice(&seq.to_be_bytes());
    pkt
}

fn uplink(conn_id: u64, bytes: &[u8]) -> UplinkPacket {
    UplinkPacket { conn_id, bytes: SmallVec::from_slice_copy(bytes) }
}

#[test]
fn reg3_registers_a_link_and_drops_what_came_before() {
    let mut conn = SrtlaConnection::new_registering(1, "link".to_string(), NOW);
    let mut reg = manager();
    conn.register_packet(5, NOW);
    conn.reconnection.reconnect_failure_count = 3;
    let incoming = process_uplink_packet(&mut conn, 0, &mut reg, &[0x92, 0x02], NOW + 50);
    assert!(incoming.read_any);
    assert!(incoming.forward_to_client.is_empty());
    assert!(conn.connected);
    assert_eq!(conn.phase, LinkPhase::Warming { rtt_probes: 0, entered_ms: NOW + 50 });
    assert_eq!(conn.in_flight_packets, 0);
    assert_eq!(conn.connection_established_ms(), NOW + 50);
    assert_eq!(conn.reconnection.reconnect_failure_count, 0);
    process_uplink_packet(&mut conn, 0, &mut reg, &[0x92, 0x02], NOW + 90);
    assert_eq!(conn.connection_established_ms(), NOW + 50);
}

#[test]
fn reg_err_takes_a_link_down() {
    let mut conn = connections(1).pop().unwrap();
    process_uplink_packet(&mut conn, 0, &mut manager(), &[0x92, 0x10], NOW);
    assert!(!conn.connected);
    assert_eq!(conn.last_received, None);
}

#[test]
fn ngp_yields_a_reg1() {
    let mut conn = SrtlaConnection::new_registering(1, "link".to_string(), NOW);
    let mut reg = manager();
    let incoming = process_uplink_packet(&mut conn, 4, &mut reg, &[0x92, 0x11], NOW);
    assert_eq!(&incoming.reg1_send.unwrap()[2..], &[1u8; SRTLA_ID_LEN][..]);
    assert_eq!(reg.pending_reg2_idx(), Some(4));
    let incoming = process_uplink_packet(&mut conn, 4, &mut reg, &[0x92, 0x11], NOW);
    assert!(incoming.reg1_send.is_none());
}

#[test]
fn packets_for_the_client_are_passed_on_unchanged() {
    let mut conn = connections(1).pop().unwrap();
    let mut reg = manager();
    let handshake = [0x80, 0x00, 1, 2, 3];
    let incoming = process_uplink_packet(&mut conn, 0, &mut reg, &handshake, NOW + 1);
    assert_eq!(incoming.forward_to_client.len(), 1);
    assert_eq!(incoming.forward_to_client[0].as_slice(), &handshake);
    assert_eq!(conn.last_received, Some(NOW + 1));

    let incoming = process_uplink_packet(&mut conn, 0, &mut reg, &srt_ack(9), NOW);
    assert_eq!(incoming.ack_numbers.as_slice(), &[9]);
    assert_eq!(incoming.forward_to_client[0].as_slice(), srt_ack(9).as_slice());

    let incoming = process_uplink_packet(&mut conn, 0, &mut reg, &srt_nak(&[3, 4]), NOW);
    assert_eq!(incoming.nak_numbers.as_slice(), &[3, 4]);
    assert_eq!(incoming.forward_to_client.len(), 1);

    let incoming =
        process_uplink_packet(&mut conn, 0, &mut reg, &create_ack_packet(&[8, 9]), NOW);
    assert_eq!(incoming.srtla_ack_numbers.as_slice(), &[8, 9]);
    assert!(incoming.forward_to_client.is_empty());

    let incoming = process_uplink_packet(&mut conn, 0, &mut reg, &[0x80], NOW);
    assert!(incoming.read_any && incoming.forward_to_client.is_empty());
}

#[test]
fn packets_add_up() {
    let mut conn = connections(1).pop().unwrap();
    let mut reg = manager();
    let mut incoming = Default::default();
    for pkt in [srt_ack(1), srt_nak(&[5]), srt_ack(2), srt_nak(&[6, 7])] {
        process_packet_internal(&mut conn, 0, &mut reg, &pkt, &mut incoming, NOW);
    }
    assert_eq!(incoming.ack_numbers.as_slice(), &[1, 2]);
    assert_eq!(incoming.nak_numbers.as_slice(), &[5, 6, 7]);
    assert_eq!(incoming.forward_to_client.len(), 4);
}

#[test]
fn echoed_keepalives_are_measured_and_prove_delivery() {
    let mut conn = connections(1).pop().unwrap();
    conn.phase = LinkPhase::Warming { rtt_probes: 1, entered_ms: NOW };
    let sent = conn.keepalive_packet(NOW);
    assert_eq!(extract_keepalive_conn_info(&sent).unwrap().window, 20_000);
    let incoming = process_uplink_packet(&mut conn, 0, &mut manager(), &sent, NOW + 42);
    assert_eq!(incoming.rtt_sample, Some(42));
    assert_eq!(conn.last_ack_or_rtt_sample_ms, NOW + 42);
    assert_eq!(conn.phase, LinkPhase::Live);
    assert_eq!(conn.rtt.rtt_min_ms, 42);
    let again =
        process_uplink_packet(&mut conn, 0, &mut manager(), &keepalive_packet_at(NOW), NOW + 60);
    assert_eq!(again.rtt_sample, None);
}

#[test]
fn events_reach_the_right_links() {
    let mut conns = connections(3);
    for c in conns.iter_mut() {
        for seq in 1..=3 {
            c.register_packet(seq, NOW - 40);
        }
    }
    conns[2].register_packet(50, NOW - 10);
    let mut reg = manager();
    let tracker = SequenceTracker::new();

    let incoming = process_uplink_packet(&mut conns[0], 0, &mut reg, &srt_ack(2), NOW);
    let samples = process_connection_events(0, &mut conns, &tracker, false, &incoming, NOW);
    assert_eq!(samples, vec![(0, 40), (1, 40), (2, 40)]);
    assert_eq!(conns[0].in_flight_packets, 1);
    assert_eq!(conns[2].in_flight_packets, 2);

    let pkt = create_ack_packet(&[50]);
    let incoming = process_uplink_packet(&mut conns[0], 0, &mut reg, &pkt, NOW);
    process_connection_events(0, &mut conns, &tracker, true, &incoming, NOW);
    assert_eq!(conns[2].in_flight_packets, 1);
    assert_eq!(conns[2].last_ack_or_rtt_sample_ms, NOW);
    assert_eq!(conns[0].last_ack_or_rtt_sample_ms, 0);
    assert_eq!(conns[0].window, 20_001);
    assert_eq!(conns[2].window, 20_001);

    let incoming = process_uplink_packet(&mut conns[0], 0, &mut reg, &srt_nak(&[3]), NOW);
    process_connection_events(0, &mut conns, &tracker, false, &incoming, NOW);
    assert_eq!(conns[0].total_nak_count(), 1);
    assert_eq!(conns[1].total_nak_count(), 0);
    assert_eq!(conns[0].window, 19_901);
}

#[test]
fn naks_go_to_the_tracked_link() {
    let mut conns = connections(2);
    conns[0].register_packet(7, NOW);
    conns[1].register_packet(7, NOW);
    let mut tracker = SequenceTracker::new();
    tracker.insert(7, 2, NOW);
    let mut reg = manager();
    let incoming = process_uplink_packet(&mut conns[0], 0, &mut reg, &srt_nak(&[7, 7]), NOW);
    process_connection_events(0, &mut conns, &tracker, false, &incoming, NOW + 10);
    assert_eq!(conns[0].total_nak_count(), 0);
    assert_eq!(conns[1].total_nak_count(), 1, "the second NAK finds nothing");

    let incoming = process_uplink_packet(&mut conns[0], 0, &mut reg, &srt_nak(&[7]), NOW);
    process_connection_events(0, &mut conns, &tracker, false, &incoming, NOW + 5_001);
    assert_eq!(conns[0].total_nak_count(), 1, "an expired entry is not used");
}

#[test]
fn events_of_unknown_links_are_dropped() {
    let mut conns = connections(1);
    conns[0].register_packet(1, NOW);
    let incoming = process_uplink_packet(&mut conns[0], 0, &mut manager(), &srt_ack(1), NOW);
    let samples =
        process_connection_events(1, &mut conns, &SequenceTracker::new(), false, &incoming, NOW);
    assert!(samples.is_empty());
    assert_eq!(conns[0].in_flight_packets, 1);
}

#[test]
fn uplink_packets_find_their_link() {
    let mut conns = connections(3);
    conns[1].register_packet(4, NOW - 25);
    let mut reg = manager();
    let tracker = SequenceTracker::new();
    assert_eq!(find_connection(&conns, 2), Some(1));
    assert_eq!(find_connection(&conns, 9), None);
    let outcome =
        handle_uplink_packet(&uplink(3, &srt_ack(4)), &mut conns, &mut reg, &tracker, false, NOW)
            .unwrap();
    assert_eq!(outcome.idx, 2);
    assert_eq!(outcome.samples, vec![(1, 25)]);
    assert_eq!(conns[2].last_received, Some(NOW));
    assert_eq!(conns[1].in_flight_packets, 0);
    assert!(handle_uplink_packet(&uplink(3, &[]), &mut conns, &mut reg, &tracker, false, NOW)
        .is_none());
    assert!(handle_uplink_packet(&uplink(8, &[1, 2]), &mut conns, &mut reg, &tracker, false, NOW)
        .is_none());
}

#[test]
fn any_live_link_carries_packets_before_registration() {
    let mut conns = connections(3);
    assert_eq!(select_pre_registration_connection(&conns, Some(2), NOW), Some(2));
    conns[2].connected = false;
    assert_eq!(select_pre_registration_connection(&conns, Some(2), NOW), Some(0));
    conns[0].last_received = Some(NOW - 15_000);
    assert_eq!(select_pre_registration_connection(&conns, None, NOW), Some(1));
    assert_eq!(select_pre_registration_connection(&conns, Some(9), NOW), Some(1));
    for c in conns.iter_mut() {
        c.connected = true;
        c.last_received = Some(NOW - 15_000);
    }
    assert_eq!(select_pre_registration_connection(&conns, Some(1), NOW), None);
}

#[test]
fn forwarding_queues_tracks_and_flushes() {
    let mut conns = connections(2);
    let mut last = None;
    let mut switched = 0;
    let mut tracker = SequenceTracker::new();
    for i in 0..BATCH_SIZE_THRESHOLD as u32 {
        let out = forward_via_connection(
            0,
            &data(i),
            Some(i),
            &mut conns,
            &mut last,
            &mut switched,
            &mut tracker,
            NOW + i as u64,
        );
        assert!(out.switched_from.is_none());
        if i + 1 < BATCH_SIZE_THRESHOLD as u32 {
            assert!(out.full_batch.is_none());
        } else {
            let batch = out.full_batch.unwrap();
            assert_eq!(batch.len(), BATCH_SIZE_THRESHOLD);
            assert_eq!(batch[3].bytes(), data(3).as_slice());
        }
    }
    assert_eq!(last, Some(0));
    assert_eq!(switched, NOW);
    assert_eq!(conns[0].in_flight_packets, BATCH_SIZE_THRESHOLD as i32);
    assert_eq!(tracker.get(5, NOW + 100), Some(1));

    forward_via_connection(
        0, &data(90), Some(90), &mut conns, &mut last, &mut switched, &mut tracker, NOW + 50,
    );
    let out = forward_via_connection(
        1, &data(91), None, &mut conns, &mut last, &mut switched, &mut tracker, NOW + 60,
    );
    let (from, batch) = out.switched_from.unwrap();
    assert_eq!((from, batch.len()), (0, 1));
    assert_eq!(batch[0].seq, Some(90));
    assert_eq!(switched, NOW + 60);
    assert_eq!(conns[1].batch_sender.queued_count(), 1);
    assert_eq!(tracker.get(91, NOW + 60), None);

    let out = forward_via_connection(
        5, &data(92), None, &mut conns, &mut last, &mut switched, &mut tracker, NOW + 70,
    );
    assert!(out.switched_from.is_none() && out.full_batch.is_none());
    assert_eq!(last, Some(1));
}

#[test]
fn all_batches_are_flushed() {
    let mut conns = connections(3);
    conns[0].queue_data_packet(&data(1), Some(1), NOW);
    conns[2].queue_data_packet(&data(2), Some(2), NOW);
    conns[2].queue_data_packet(&data(3), None, NOW);
    let batches = flush_all_batches(&mut conns, NOW + 15);
    let shape: Vec<(usize, usize)> = batches.iter().map(|b| (b.0, b.1.len())).collect();
    assert_eq!(shape, vec![(0, 1), (2, 2)]);
    assert_eq!(conns[2].in_flight_packets, 1);
    assert_eq!(conns[1].last_sent, None);
    assert_eq!(conns[0].last_sent, Some(NOW + 15));
    assert!(flush_all_batches(&mut conns, NOW + 30).is_empty());
}

#[test]
fn client_packets_are_routed() {
    let mut conns = connections(2);
    conns[0].window = 10_000;
    let mut last = None;
    let mut switched = 0;
    let mut tracker = SequenceTracker::new();
    let config = ConfigSnapshot { mode: SchedulingMode::Classic, ..ConfigSnapshot::default() };
    let inputs =
        SelectionInputs { scores: &[], rtt_scores: &[], last_switch_time_ms: 0, uptime_ms: 0 };
    assert!(handle_srt_packet(
        &[], &mut conns, &mut last, &mut switched, &mut tracker, true, &config, &inputs, NOW,
    )
    .is_none());
    assert!(handle_srt_packet(
        &data(6), &mut conns, &mut last, &mut switched, &mut tracker, true, &config, &inputs, NOW,
    )
    .is_some());
    assert_eq!(last, Some(1));
    assert_eq!(tracker.get(6, NOW), Some(2));
    last = None;
    handle_srt_packet(
        &data(7), &mut conns, &mut last, &mut switched, &mut tracker, false, &config, &inputs, NOW,
    );
    assert_eq!(last, Some(0), "before registration the first live link will do");
    for c in conns.iter_mut() {
        c.last_received = Some(NOW - 15_000);
    }
    assert!(handle_srt_packet(
        &data(8), &mut conns, &mut last, &mut switched, &mut tracker, true, &config, &inputs, NOW,
    )
    .is_none());
}

#[test]
fn tracker_evicts_the_oldest() {
    let mut tracker = SequenceTracker::new();
    for seq in 0..MAX_SEQUENCE_TRACKING as u32 {
        tracker.insert(seq, 1, NOW);
    }
    assert_eq!(tracker.get(0, NOW), Some(1));
    tracker.insert(99_999, 2, NOW);
    assert_eq!(tracker.get(0, NOW), None);
    assert_eq!(tracker.get(1, NOW), Some(1));
    assert_eq!(tracker.get(99_999, NOW), Some(2));
    assert_eq!(tracker.seq_to_conn.len(), MAX_SEQUENCE_TRACKING);
}

#[test]
fn tracker_forgets_removed_links_and_old_numbers() {
    let mut tracker = SequenceTracker::new();
    tracker.insert(1, 10, NOW);
    tracker.insert(2, 20, NOW);
    tracker.insert(3, 10, NOW + 4_000);
    tracker.retain_connections(&[10]);
    assert_eq!(tracker.get(2, NOW), None);
    assert_eq!(tracker.seq_order.iter().copied().collect::<Vec<u32>>(), vec![1, 3]);
    tracker.cleanup(NOW + 5_001);
    assert_eq!(tracker.get(3, NOW + 5_001), Some(10));
    assert_eq!(tracker.seq_to_conn.len(), 1);
    assert_eq!(tracker.last_cleanup_ms, NOW + 5_001);
}

#[test]
fn sweeps_are_spaced() {
    let mut map = HashMap::new();
    let mut order = VecDeque::new();
    map.insert(1, SequenceTrackingEntry { conn_id: 1, timestamp_ms: 0 });
    order.push_back(1);
    let mut last = 6_000;
    cleanup_expired_sequence_tracking(&mut map, &mut order, &mut last, 10_999);
    assert_eq!(map.len(), 1);
    cleanup_expired_sequence_tracking(&mut map, &mut order, &mut last, 11_000);
    assert!(map.is_empty() && order.is_empty());
    assert_eq!(last, 11_000);
    let entry = SequenceTrackingEntry { conn_id: 1, timestamp_ms: 100 };
    assert!(!entry.is_expired(5_100));
    assert!(entry.is_expired(5_101));
}

#[test]
fn cumulative_acks_clear_all_up_to_them() {
    let mut conn = connections(1).pop().unwrap();
    for seq in [10, 20, 30, 200] {
        conn.register_packet(seq, NOW);
    }
    assert_eq!(conn.handle_srt_ack(20, NOW), None, "no time has passed");
    assert_eq!(conn.in_flight_packets, 2);
    assert_eq!(conn.handle_srt_ack(30, NOW + 12), Some(12));
    assert_eq!(conn.handle_srt_ack(25, NOW + 12), None);
    assert_eq!(conn.in_flight_packets, 1);
    conn.register_packet(5, NOW);
    conn.handle_srt_ack(60, NOW + 20);
    assert_eq!(conn.in_flight_packets, 2, "a number below the last ACK stays on a small step");
    conn.handle_srt_ack(1_000, NOW + 20);
    assert_eq!(conn.in_flight_packets, 0);
}

#[test]
fn queued_packets_count_at_once() {
    let mut conn = connections(1).pop().unwrap();
    let mut last = conn.get_score();
    assert_eq!(last, 20_000);
    for i in 0..10 {
        conn.queue_data_packet(&data(i), Some(i), NOW);
        assert!(conn.get_score() < last);
        last = conn.get_score();
    }
    assert_eq!(last, 1_818);
}
