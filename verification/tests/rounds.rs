use srtla_send::connection::link::{LinkPhase, SrtlaConnection};
use srtla_send::protocol::constants::SRTLA_ID_LEN;
use srtla_send::protocol::parsers::extract_keepalive_timestamp;
use srtla_send::registration::SrtlaRegistrationManager;
use srtla_send::sender::connections::{apply_connection_changes, uplink_label};
use srtla_send::sender::housekeeping::{
    begin_housekeeping, finish_housekeeping, housekeep_link, note_reconnected, recovery_packet,
    ConnectionFailure, LinkAction, RecoveryPacket, GLOBAL_TIMEOUT_MS,
};
use srtla_send::sender::selection::sbd::SharedBottleneckDetector;
use srtla_send::sender::sequence::SequenceTracker;
use srtla_send::sender::status::{
    connection_status, describe_score, status_due, LastSelected, StatusWarning,
};
use srtla_send::sender::uplink::plan_readers;

const NOW: u64 = 100_000;

fn connections(n: usize) -> Vec<SrtlaConnection> {
    (0..n)
        .map(|i| {
            let mut c = SrtlaConnection::new_registering(i as u64 + 1, format!("link {i}"), NOW);
            c.connected = true;
            c.last_received = Some(NOW);
            c.phase = LinkPhase::Live;
            c.reconnection.connection_established_ms = NOW - 50_000;
            c
        })
        .collect()
}

fn manager() -> SrtlaRegistrationManager {
    SrtlaRegistrationManager::with_ids([1; SRTLA_ID_LEN], [2; SRTLA_ID_LEN])
}

/// One round, in which every attempt to connect again fails.
fn round(
    conns: &mut Vec<SrtlaConnection>,
    reg: &mut SrtlaRegistrationManager,
    all_failed_at: &mut Option<u64>,
    now: u64,
) -> Result<(), ConnectionFailure> {
    begin_housekeeping(conns, reg, now);
    for c in conns.iter_mut() {
        if let LinkAction::Reconnect = housekeep_link(c, false, now) {
            c.mark_for_recovery(now);
        }
    }
    finish_housekeeping(conns, reg, all_failed_at, now).1
}

#[test]
fn all_failed_timeout_measures_elapsed_since_failure() {
    let mut conns = connections(2);
    let mut reg = manager();
    reg.has_connected = true;
    let mut all_failed_at: Option<u64> = None;

    let mut now = NOW + GLOBAL_TIMEOUT_MS + 1000;
    for c in conns.iter_mut() {
        c.mark_for_recovery(now);
        c.reconnection.last_reconnect_attempt_ms = now;
    }

    let armed = round(&mut conns, &mut reg, &mut all_failed_at, now);
    assert!(armed.is_ok(), "arming the all-failed timer must not error on a transient blip");
    assert!(all_failed_at.is_some(), "the failure timer should be armed");

    now += GLOBAL_TIMEOUT_MS - 1000;
    let within = round(&mut conns, &mut reg, &mut all_failed_at, now);
    assert!(within.is_ok(), "no error until the whole time has elapsed since the links failed");

    now += 2000;
    let fired = round(&mut conns, &mut reg, &mut all_failed_at, now);
    assert!(fired.is_err(), "the timeout must fire once the whole time has elapsed since failure");
    assert_eq!(fired.unwrap_err().to_text(), "Failed to re-establish any connections");
}

#[test]
fn never_connected_is_told_apart_and_recovery_stops_the_clock() {
    let mut conns = connections(1);
    let mut reg = manager();
    let mut all_failed_at = None;
    conns[0].mark_for_recovery(NOW);
    assert!(round(&mut conns, &mut reg, &mut all_failed_at, NOW).is_ok());
    conns[0].last_received = Some(NOW + 9_000);
    assert!(round(&mut conns, &mut reg, &mut all_failed_at, NOW + 9_000).is_ok());
    assert_eq!(all_failed_at, None);
    conns[0].mark_for_recovery(NOW + 9_500);
    assert!(round(&mut conns, &mut reg, &mut all_failed_at, NOW + 9_500).is_ok());
    assert!(round(&mut conns, &mut reg, &mut all_failed_at, NOW + 19_500).is_ok());
    let gone = round(&mut conns, &mut reg, &mut all_failed_at, NOW + 19_501).unwrap_err();
    assert_eq!(gone, ConnectionFailure::NeverConnected);
    assert_eq!(gone.to_text(), "Failed to establish any initial connections");
}

#[test]
fn live_links_get_keepalives() {
    let mut conn = connections(1).pop().unwrap();
    match housekeep_link(&mut conn, false, NOW) {
        LinkAction::Serve(packets) => {
            assert_eq!(packets.len(), 1);
            assert_eq!(extract_keepalive_timestamp(&packets[0]), Some(NOW));
        }
        _ => panic!("the link is alive"),
    }
    assert!(conn.rtt.waiting_for_keepalive_response);
    match housekeep_link(&mut conn, false, NOW + 500) {
        LinkAction::Serve(packets) => assert!(packets.is_empty()),
        _ => panic!("the link is alive"),
    }
    assert_eq!(conn.last_keepalive_sent, Some(NOW));
}

#[test]
fn windows_recover_only_outside_classic_mode() {
    let mut conn = connections(1).pop().unwrap();
    conn.window = 5_000;
    conn.congestion.last_nak_time_ms = NOW - 5_000;
    housekeep_link(&mut conn, true, NOW);
    assert_eq!(conn.window, 5_000);
    housekeep_link(&mut conn, false, NOW);
    assert_eq!(conn.window, 5_007);
}

#[test]
fn a_link_without_naks_recovers_too() {
    let mut conn = connections(1).pop().unwrap();
    conn.window = 5_000;
    assert_eq!(conn.congestion.last_nak_time_ms, 0);
    housekeep_link(&mut conn, false, NOW);
    assert_eq!(conn.window, 5_060);
    housekeep_link(&mut conn, false, NOW + 1_000);
    assert_eq!(conn.window, 5_060);
    conn.congestion.fast_recovery_mode = true;
    housekeep_link(&mut conn, false, NOW + 1_001);
    assert_eq!(conn.window, 5_180);
    assert!(conn.congestion.fast_recovery_mode);
}

#[test]
fn timed_out_links_reconnect_by_their_delays() {
    let mut conn = connections(1).pop().unwrap();
    conn.last_received = Some(NOW - 15_000);
    assert!(matches!(housekeep_link(&mut conn, false, NOW), LinkAction::Reconnect));
    assert!(matches!(housekeep_link(&mut conn, false, NOW + 999), LinkAction::Wait));
    assert!(matches!(housekeep_link(&mut conn, false, NOW + 1_000), LinkAction::Reconnect));
    conn.register_packet(3, NOW);
    note_reconnected(&mut conn, NOW + 2_000);
    assert!(!conn.connected);
    assert_eq!(conn.in_flight_packets, 0);
    assert_eq!(conn.reconnection.reconnect_failure_count, 0);
    assert_eq!(conn.reconnection.startup_grace_deadline_ms, NOW + 7_000);
    assert_eq!(conn.connection_established_ms(), NOW - 50_000);
}

#[test]
fn recovering_links_register_again() {
    let mut reg = manager();
    assert!(matches!(recovery_packet(&mut reg, 1, NOW), RecoveryPacket::Reg2(_)));
    reg.build_reg1_for(1, NOW - 500);
    assert!(matches!(recovery_packet(&mut reg, 0, NOW), RecoveryPacket::Defer));
    assert!(matches!(recovery_packet(&mut reg, 1, NOW), RecoveryPacket::Reg1(_)));
    assert_eq!(reg.pending_timeout_at_ms, NOW + 4_000);
}

#[test]
fn the_probed_link_gets_a_new_grace_period() {
    let mut conns = connections(2);
    let mut reg = manager();
    reg.start_probing(&[Some(NOW), Some(NOW)], NOW, NOW);
    reg.handle_probe_response(1, NOW + 20);
    begin_housekeeping(&mut conns, &mut reg, NOW + 100);
    assert!(reg.is_probing());
    begin_housekeeping(&mut conns, &mut reg, NOW + 2_000);
    assert!(!reg.is_probing());
    assert_eq!(conns[1].reconnection.startup_grace_deadline_ms, NOW + 7_000);
    assert_eq!(conns[0].reconnection.startup_grace_deadline_ms, NOW + 5_000);
}

fn ips(list: &[&str]) -> Vec<String> {
    list.iter().map(|s| s.to_string()).collect()
}

fn linked(list: &[&str]) -> Vec<SrtlaConnection> {
    list.iter()
        .enumerate()
        .map(|(i, ip)| {
            SrtlaConnection::new_registering(i as u64 + 1, uplink_label("rec", 5000, ip), NOW)
        })
        .collect()
}

#[test]
fn address_changes_remove_and_ask_for_links() {
    assert_eq!(uplink_label("rec", 5000, "10.0.0.1"), "rec:5000 via 10.0.0.1");
    let mut conns = linked(&["10.0.0.1", "10.0.0.2", "10.0.0.3"]);
    let mut last = Some(2);
    let mut tracker = SequenceTracker::new();
    tracker.insert(1, 1, NOW);
    tracker.insert(2, 2, NOW);
    let changes = apply_connection_changes(
        &mut conns,
        &ips(&["10.0.0.9", "10.0.0.3", "10.0.0.9", "10.0.0.1", "10.0.0.8"]),
        "rec",
        5000,
        &mut last,
        &mut tracker,
    );
    assert_eq!(changes.removed, vec![2]);
    assert_eq!(changes.needed, vec![0, 4]);
    let kept: Vec<u64> = conns.iter().map(|c| c.conn_id).collect();
    assert_eq!(kept, vec![1, 3]);
    assert_eq!(last, None);
    assert_eq!(tracker.get(1, NOW), Some(1));
    assert_eq!(tracker.get(2, NOW), None);
}

#[test]
fn the_same_addresses_change_nothing() {
    let mut conns = linked(&["10.0.0.1", "10.0.0.2"]);
    let mut last = Some(1);
    let mut tracker = SequenceTracker::new();
    let changes = apply_connection_changes(
        &mut conns,
        &ips(&["10.0.0.1", "10.0.0.2"]),
        "rec",
        5000,
        &mut last,
        &mut tracker,
    );
    assert!(changes.removed.is_empty() && changes.needed.is_empty());
    assert_eq!(conns.len(), 2);
    assert_eq!(last, Some(1));
}

#[test]
fn readers_follow_the_links() {
    let changes = plan_readers(&[1, 2, 2, 5], &[2, 7, 9]);
    assert_eq!(changes.start, vec![1, 5]);
    assert_eq!(changes.stop, vec![7, 9]);
}

#[test]
fn status_is_reported() {
    let mut conns = connections(5);
    conns[0].register_packet(1, NOW);
    for c in conns.iter_mut().skip(1) {
        c.last_received = Some(NOW - 15_000);
    }
    let report = connection_status(&conns, Some(7), NOW);
    assert_eq!((report.total, report.active, report.timed_out), (5, 1, 4));
    assert_eq!(report.log_entries, 1);
    assert_eq!(report.log_capacity, 1_280);
    assert_eq!(report.last_selected, LastSelected::OutOfBounds(7));
    assert_eq!(report.warning, StatusWarning::FewActiveLinks);
    conns[0].last_received = Some(NOW - 15_000);
    assert_eq!(connection_status(&conns, None, NOW).warning, StatusWarning::NoActiveLinks);
    assert_eq!(describe_score(-1), "DISCONNECTED");
    assert_eq!(describe_score(0), "AT_CAPACITY");
    assert_eq!(describe_score(412), "412");
    let mut elapsed = 28_000;
    assert!(!status_due(&mut elapsed));
    assert!(status_due(&mut elapsed));
    assert_eq!(elapsed, 0);
}

fn table(n: usize, alike: &[(usize, usize)]) -> Vec<Vec<bool>> {
    let mut t = vec![vec![false; n]; n];
    for (a, b) in alike {
        t[*a][*b] = true;
    }
    t
}

#[test]
fn test_no_data_no_groups() {
    let mut sbd = SharedBottleneckDetector::new();
    sbd.detect(&[], &table(0, &[]));
    assert!(sbd.groups().is_empty());
}

#[test]
fn test_two_bottlenecked_links_grouped() {
    let mut sbd = SharedBottleneckDetector::new();
    sbd.detect(&[0, 1], &table(2, &[(0, 1)]));
    assert_eq!(sbd.groups(), &vec![vec![0, 1]]);
    assert!(sbd.is_correlated(0));
    assert!(!sbd.is_correlated(2));
}

#[test]
fn bottlenecks_join_along_chains() {
    let mut sbd = SharedBottleneckDetector::default();
    sbd.detect(&[10, 11, 12, 13, 14, 15], &table(6, &[(0, 3), (3, 5), (1, 4)]));
    let mut groups = sbd.groups().clone();
    groups.sort();
    assert_eq!(groups, vec![vec![10, 13, 15], vec![11, 14]]);
    assert!(!sbd.is_correlated(12));
    sbd.detect(&[4], &table(1, &[]));
    assert!(sbd.groups().is_empty());
}

#[test]
fn links_are_grouped_by_chains() {
    let mut sbd = SharedBottleneckDetector::new();
    let links = [4, 9, 2, 7, 5];
    sbd.detect(&links, &table(5, &[(0, 2), (2, 4)]));
    let mut groups = sbd.groups().to_vec();
    groups.sort();
    assert_eq!(groups, vec![vec![4, 2, 5]]);
    for link in [4, 2, 5] {
        assert!(sbd.is_correlated(link));
    }
    for link in [9, 7, 0, 1] {
        assert!(!sbd.is_correlated(link));
    }
    sbd.detect(&links, &table(5, &[(0, 2), (1, 3)]));
    let mut groups = sbd.groups().to_vec();
    groups.sort();
    assert_eq!(groups, vec![vec![4, 2], vec![9, 7]]);
    sbd.detect(&links, &table(5, &[]));
    assert!(sbd.groups().is_empty());
}
