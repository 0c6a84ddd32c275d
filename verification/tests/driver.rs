use smallvec::SmallVec;
use srtla_send::config::ConfigSnapshot;
use srtla_send::connection::link::{LinkPhase, SrtlaConnection};
use srtla_send::mode::SchedulingMode;
use srtla_send::protocol::constants::SRTLA_ID_LEN;
use srtla_send::registration::SrtlaRegistrationManager;
use srtla_send::sender::addresses::address_lines;
use srtla_send::sender::connections::{uplink_label, PendingConnectionChanges};
use srtla_send::sender::driver::{check_addresses, SenderState, StartError};
use srtla_send::sender::housekeeping::{ConnectionFailure, LinkAction, RecoveryPacket};
use srtla_send::sender::keyframe::{KeyframeDetector, SRT_DATA_SIZE};
use srtla_send::sender::packet_handler::UplinkPacket;
use srtla_send::sender::routing::{is_critical_packet, link_by_arrival, special_link};
use srtla_send::sender::selection::classifier::{LinkClassification, WeakReason};
use srtla_send::sender::selection::enhanced::LinkScore;
use srtla_send::sender::selection::gate::SelectionInputs;
use srtla_send::sender::selection::iods::IodsFilter;
use srtla_send::sender::selection::link_cc::{CcState, ClimbMode, LinkCcSnapshot};
use std::collections::HashMap;

const NOW: u64 = 100_000;

fn state(ips: &[&str]) -> SenderState {
    let conns = ips
        .iter()
        .enumerate()
        .map(|(i, ip)| {
            let mut c = SrtlaConnection::new_registering(
                i as u64 + 1,
                uplink_label("rec", 5000, ip),
                NOW,
            );
            c.connected = true;
            c.last_received = Some(NOW);
            c.phase = LinkPhase::Live;
            c.reconnection.connection_established_ms = NOW - 50_000;
            c
        })
        .collect();
    let reg = SrtlaRegistrationManager::with_ids([1; SRTLA_ID_LEN], [2; SRTLA_ID_LEN]);
    SenderState::new(conns, reg).ok().unwrap()
}

fn classic() -> ConfigSnapshot {
    ConfigSnapshot { mode: SchedulingMode::Classic, ..ConfigSnapshot::default() }
}

fn reload(ips: &[&str]) -> PendingConnectionChanges {
    PendingConnectionChanges {
        new_ips: Some(ips.iter().map(|s| s.to_string()).collect()),
        receiver_host: "rec".to_string(),
        receiver_port: 5000,
    }
}

#[test]
fn a_sender_needs_addresses_and_links() {
    assert!(check_addresses(&["10.0.0.1".to_string()], "ips.txt").is_ok());
    let refused = check_addresses(&[], "ips.txt").err().unwrap();
    assert_eq!(refused.to_text(), "no IPs in list: ips.txt");
    let reg = SrtlaRegistrationManager::new();
    let refused = SenderState::new(Vec::new(), reg).err().unwrap();
    assert!(matches!(refused, StartError::NoUplinks));
    assert_eq!(refused.to_text(), "no uplinks available");
}

#[test]
fn packets_go_out_and_are_acknowledged() {
    let mut s = state(&["10.0.0.1", "10.0.0.2"]);
    s.reg.has_connected = true;
    let inputs =
        SelectionInputs { scores: &[], rtt_scores: &[], last_switch_time_ms: 0, uptime_ms: 0 };
    let mut pkt = vec![0u8; 40];
    pkt[3] = 9;
    assert!(s.has_room());
    assert!(s.client_packet(&pkt, &classic(), &inputs, NOW).is_some());
    assert_eq!(s.last_selected_idx, Some(0));
    assert_eq!(s.last_switch_time_ms, NOW);
    let batches = s.flush(NOW + 15);
    assert_eq!(batches.len(), 1);
    assert_eq!(batches[0].1[0].bytes(), pkt.as_slice());
    assert_eq!(s.connections[0].in_flight_packets, 1);

    let mut ack = vec![0u8; 20];
    ack[0..2].copy_from_slice(&[0x80, 0x02]);
    ack[19] = 9;
    let packet = UplinkPacket { conn_id: 2, bytes: SmallVec::from_slice_copy(&ack) };
    let outcome = s.uplink_packet(&packet, &classic(), NOW + 40).unwrap();
    assert_eq!(outcome.idx, 1);
    assert_eq!(outcome.samples, vec![(0, 40)]);
    assert_eq!(s.connections[0].in_flight_packets, 0);

    assert!(s.packet_for(1, &pkt, NOW + 45).is_some());
    assert_eq!(s.last_selected_idx, Some(1));
    assert!(s.packet_for(2, &pkt, NOW + 45).is_none());
    assert!(s.packet_for(0, &[], NOW + 45).is_none());
    assert_eq!(s.seq_tracker.get(9, NOW + 45), Some(2));

    s.send_failed(0, NOW + 50);
    assert!(!s.connections[0].connected);
    s.send_failed(9, NOW + 50);
    assert!(s.connections[1].connected);
}

#[test]
fn rounds_retry_and_end() {
    let mut s = state(&["10.0.0.1", "10.0.0.2"]);
    s.connections[0].last_received = Some(NOW - 15_000);
    s.begin_round(NOW);
    assert!(matches!(s.serve_link(0, &classic(), NOW), LinkAction::Reconnect));
    assert!(matches!(s.link_retried(0, true, NOW), RecoveryPacket::Reg2(_)));
    assert_eq!(s.connections[0].reconnection.startup_grace_deadline_ms, NOW + 5_000);
    assert!(matches!(s.serve_link(1, &classic(), NOW), LinkAction::Serve(_)));
    let end = s.end_round(NOW);
    assert!(end.outcome.is_ok());
    assert!(end.applied.is_none());
    assert!(!end.report_due);
    assert_eq!(s.status_elapsed_ms, 1_000);
    assert_eq!(s.reg.active_connections, 1);
    let due: Vec<bool> = (0..30).map(|_| s.end_round(NOW).report_due).collect();
    assert_eq!(due.iter().filter(|d| **d).count(), 1);

    for c in s.connections.iter_mut() {
        c.mark_for_recovery(NOW);
    }
    assert!(s.end_round(NOW).outcome.is_ok());
    assert_eq!(s.all_failed_at, Some(NOW));
    assert_eq!(s.end_round(NOW + 10_001).outcome, Err(ConnectionFailure::NeverConnected));
    assert!(matches!(s.serve_link(0, &classic(), NOW + 20_000), LinkAction::Reconnect));
    s.link_retried(0, false, NOW + 20_000);
    assert_eq!(s.connections[0].reconnection.startup_grace_deadline_ms, 0);
}

#[test]
fn reloads_wait_for_the_end_of_the_round() {
    let mut s = state(&["10.0.0.1", "10.0.0.2"]);
    s.last_selected_idx = Some(1);
    s.seq_tracker.insert(4, 2, NOW);
    s.queue_reload(reload(&["10.0.0.7"]));
    s.queue_reload(reload(&["10.0.0.1", "10.0.0.3"]));
    assert_eq!(s.connections.len(), 2);
    let end = s.end_round(NOW);
    let (list, changes) = end.applied.unwrap();
    assert_eq!(list.new_ips.unwrap()[1], "10.0.0.3");
    assert_eq!(changes.removed, vec![2]);
    assert_eq!(changes.needed, vec![1]);
    assert_eq!(s.connections.len(), 1);
    assert_eq!(s.last_selected_idx, None);
    assert_eq!(s.seq_tracker.get(4, NOW), None);
    let label = uplink_label("rec", 5000, "10.0.0.3");
    s.add_link(SrtlaConnection::new_registering(3, label, NOW));
    assert_eq!(s.connections[1].label, "rec:5000 via 10.0.0.3");
    assert!(s.end_round(NOW).applied.is_none());
    let mut nothing = reload(&[]);
    nothing.new_ips = None;
    s.queue_reload(nothing);
    assert!(s.end_round(NOW).applied.is_none());
    assert!(s.pending_changes.is_none());
}

#[test]
fn address_lists_are_read_by_lines() {
    assert_eq!(
        address_lines("10.0.0.1\r\n\n  10.0.0.2\t\n \u{3000}\nnot an address\n::1"),
        ["10.0.0.1", "10.0.0.2", "not an address", "::1"]
    );
    assert!(address_lines("").is_empty());
    assert!(address_lines(" \n\n").is_empty());
    for c in (0..0x11_0000u32).filter_map(char::from_u32).filter(|c| c.is_whitespace()) {
        let text: String = [c].iter().collect();
        assert!(address_lines(&text).is_empty(), "{c:?}");
    }
    assert_eq!(address_lines("\u{200b}"), ["\u{200b}"]);
}

#[test]
fn full_data_packets_in_a_row_are_critical() {
    let mut det = KeyframeDetector::new();
    let mut data = vec![0u8; SRT_DATA_SIZE];
    for _ in 0..4 {
        assert!(!is_critical_packet(&mut det, &data, false));
    }
    assert!(is_critical_packet(&mut det, &data, false));
    data[0] = 0x80;
    assert!(!is_critical_packet(&mut det, &data, false));
    assert!(is_critical_packet(&mut det, &data, true));
    assert!(det.is_in_burst());
    assert!(!is_critical_packet(&mut det, &[0u8; 100], false));
    assert!(!det.is_in_burst());
    det.consecutive_max_mtu = u32::MAX;
    let before = det.total_bursts();
    assert!(!is_critical_packet(&mut det, &[0u8; SRT_DATA_SIZE], false));
    assert_eq!(det.total_bursts(), before);
}

#[test]
fn packets_go_by_arrival_in_order() {
    let mut iods = IodsFilter::new();
    assert_eq!(link_by_arrival(&mut iods, &[Some(30), None, Some(20)]), Some(2));
    assert_eq!(iods.last_arrival, 20);
    assert_eq!(link_by_arrival(&mut iods, &[Some(25), Some(21), Some(10)]), Some(1));
    assert_eq!(iods.last_arrival, 21);
    assert_eq!(link_by_arrival(&mut iods, &[Some(9), None, Some(5)]), Some(2));
    assert_eq!(iods.last_arrival, 21);
    assert_eq!(link_by_arrival(&mut iods, &[None, None]), None);
}

#[test]
fn critical_packets_take_the_best_link() {
    let mut s = state(&["10.0.0.1", "10.0.0.2"]);
    s.connections[1].quality_cache.multiplier = i64::MAX;
    let mut iods = IodsFilter::new();
    let arrivals = [Some(5), Some(9)];
    assert_eq!(special_link(true, true, &s.connections, &arrivals, &mut iods), Some(1));
    assert_eq!(iods.last_arrival, 0);
    assert_eq!(special_link(false, true, &s.connections, &arrivals, &mut iods), Some(0));
    assert_eq!(iods.last_arrival, 5);
    assert_eq!(special_link(false, false, &s.connections, &arrivals, &mut iods), None);
    for c in s.connections.iter_mut() {
        c.connected = false;
    }
    assert_eq!(special_link(true, false, &s.connections, &arrivals, &mut iods), None);
    assert_eq!(special_link(true, true, &s.connections, &arrivals, &mut iods), Some(0));
}

#[test]
fn starved_links_are_probed_in_turn() {
    let mut s = state(&["10.0.0.1", "10.0.0.2", "10.0.0.3"]);
    assert_eq!(s.probe_target(0, NOW), None);
    s.connections[1].weak = true;
    s.connections[2].weak = true;
    assert_eq!(s.probe_target(0, NOW), Some(1));
    assert_eq!(s.connections[1].last_probe_ms, NOW);
    assert_eq!(s.probe_target(0, NOW), Some(2));
    assert_eq!(s.probe_target(0, NOW + 199), None);
    assert_eq!(s.probe_target(0, NOW + 200), Some(1));
    assert_eq!(s.probe_target(1, NOW + 900), None);
    assert_eq!(s.probe_target(7, NOW + 900), None);
    s.connections[0].weak = true;
    assert_eq!(s.probe_target(0, NOW + 900), None);
}

#[test]
fn one_packet_is_diverted_as_a_probe() {
    let mut s = state(&["10.0.0.1", "10.0.0.2"]);
    s.reg.has_connected = true;
    s.connections[1].weak = true;
    let score = |x: i64| LinkScore { open: x, open_hold: x, gated: x, gated_hold: x };
    let list = [score(100), score(50)];
    let inputs =
        SelectionInputs { scores: &list, rtt_scores: &[], last_switch_time_ms: 0, uptime_ms: 1_000 };
    let plain = ConfigSnapshot::default();
    let exploring = ConfigSnapshot { exploration_enabled: true, ..plain };
    let data = [0u8; 100];
    let mut control = data;
    control[0] = 0x80;

    assert!(s.client_packet_or_probe(&data, &plain, &inputs, NOW).is_some());
    assert_eq!(s.last_selected_idx, Some(0));
    assert!(s.client_packet_or_probe(&control, &exploring, &inputs, NOW).is_some());
    assert_eq!(s.last_selected_idx, Some(0));
    assert_eq!(s.connections[1].last_probe_ms, 0);
    assert!(s.client_packet_or_probe(&data, &exploring, &inputs, NOW).is_some());
    assert_eq!(s.last_selected_idx, Some(1));
    assert_eq!(s.connections[1].last_probe_ms, NOW);
    assert!(s.client_packet_or_probe(&data, &exploring, &inputs, NOW).is_some());
    assert_eq!(s.last_selected_idx, Some(0));
}

#[test]
fn verdicts_are_noted_on_their_links() {
    let mut s = state(&["10.0.0.1", "10.0.0.2"]);
    s.connections[1].cc_target_bps = 7;
    let verdict = |conn_id: u64, weak: bool| LinkClassification {
        conn_id,
        weak,
        reason: WeakReason::Healthy,
        share_permille: 0,
        threshold_permille: 0,
    };
    let mut shown = HashMap::new();
    shown.insert(
        1,
        LinkCcSnapshot {
            state: CcState::BackingOff,
            climb_mode: ClimbMode::Normal,
            target_bps: 900_000,
            loss_permille: 60,
        },
    );
    s.note_verdicts(&[verdict(1, false), verdict(2, true)], &shown);
    assert!(!s.connections[0].weak && s.connections[1].weak);
    assert_eq!(s.connections[0].cc_target_bps, 900_000);
    assert!(s.connections[0].cc_backing_off);
    assert_eq!(s.connections[1].cc_target_bps, 7);
    assert!(!s.connections[1].cc_backing_off);
}
