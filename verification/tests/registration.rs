use srtla_send::connection::link::SrtlaConnection;
use srtla_send::protocol::constants::{SRTLA_ID_LEN, SRTLA_TYPE_REG2};
use srtla_send::protocol::types::get_packet_type;
use srtla_send::registration::{
    ProbingState, RegistrationEvent, SrtlaRegistrationManager, PROBE_TIMEOUT_MS,
};

const NOW: u64 = 100_000;

fn id(seed: u8) -> [u8; SRTLA_ID_LEN] {
    let mut id = [0u8; SRTLA_ID_LEN];
    for (i, b) in id.iter_mut().enumerate() {
        *b = (i as u8).wrapping_add(seed);
    }
    id
}

fn manager() -> SrtlaRegistrationManager {
    SrtlaRegistrationManager::with_ids(id(1), id(2))
}

fn reg2(id: &[u8; SRTLA_ID_LEN]) -> Vec<u8> {
    let mut pkt = SRTLA_TYPE_REG2.to_be_bytes().to_vec();
    pkt.extend_from_slice(id);
    pkt
}

#[test]
fn fresh_ids_differ() {
    let a = SrtlaRegistrationManager::new();
    let b = SrtlaRegistrationManager::new();
    assert_ne!(a.srtla_id, b.srtla_id);
    assert_ne!(a.srtla_id, a.probe_id);
    assert!(!a.has_connected);
}

#[test]
fn handshake_runs_through() {
    let mut reg = manager();
    assert_eq!(
        reg.process_registration_packet(1, &[0x92, 0x11], NOW),
        Some(RegistrationEvent::RegNgp)
    );
    let sends = reg.reg_driver_pending_sends(2, NOW);
    let (idx, reg1) = sends.reg1.unwrap();
    assert_eq!(idx, 1);
    assert_eq!(&reg1[2..], &id(1)[..]);
    assert!(sends.broadcast_reg2.is_none());
    assert_eq!(reg.pending_reg2_idx(), Some(1));
    assert!(reg.reg_driver_pending_sends(2, NOW + 60_000).reg1.is_none());

    let group = id(77);
    assert_eq!(
        reg.process_registration_packet(0, &reg2(&group), NOW),
        Some(RegistrationEvent::Reg2)
    );
    assert_eq!(reg.srtla_id, id(1), "a REG2 on another link changes nothing");
    reg.process_registration_packet(1, &reg2(&group), NOW);
    assert_eq!(reg.srtla_id, group);
    let sends = reg.reg_driver_pending_sends(2, NOW);
    assert!(sends.reg1.is_none());
    let broadcast = sends.broadcast_reg2.unwrap();
    assert_eq!(get_packet_type(&broadcast), Some(SRTLA_TYPE_REG2));
    assert_eq!(&broadcast[2..], &group[..]);
    assert!(reg.reg_driver_pending_sends(2, NOW).broadcast_reg2.is_none());

    assert_eq!(
        reg.process_registration_packet(1, &[0x92, 0x02], NOW),
        Some(RegistrationEvent::Reg3)
    );
    assert!(reg.has_connected);
}

#[test]
fn short_reg2_is_ignored() {
    let mut reg = manager();
    reg.build_reg1_for(0, NOW);
    let whole = reg2(&id(9));
    assert_eq!(
        reg.process_registration_packet(0, &whole[..200], NOW),
        Some(RegistrationEvent::Reg2)
    );
    assert_eq!(reg.pending_reg2_idx(), Some(0));
}

#[test]
fn ngp_is_answered_at_once() {
    let mut reg = manager();
    reg.process_registration_packet(2, &[0x92, 0x11], NOW);
    assert!(reg.reg1_if_ngp_immediate(1, NOW).is_none());
    assert!(reg.reg1_if_ngp_immediate(2, NOW).is_some());
    assert!(reg.reg1_if_ngp_immediate(2, NOW).is_none());
}

#[test]
fn errors_end_the_attempt() {
    let mut reg = manager();
    reg.build_reg1_for(0, NOW);
    assert_eq!(
        reg.process_registration_packet(0, &[0x92, 0x10], NOW),
        Some(RegistrationEvent::RegErr)
    );
    assert_eq!(reg.pending_reg2_idx(), None);
    assert_eq!(reg.reg1_next_send_at_ms, NOW + 4_000);
}

#[test]
fn waits_for_reg2_are_given_up() {
    let mut reg = manager();
    reg.build_reg1_for(3, NOW);
    assert_eq!(reg.clear_pending_if_timed_out(NOW + 3_999), None);
    assert_eq!(reg.clear_pending_if_timed_out(NOW + 4_000), Some(3));
    assert_eq!(reg.pending_reg2_idx(), None);
}

#[test]
fn probing_picks_the_fastest_link() {
    let mut reg = manager();
    assert!(reg.should_start_probing());
    reg.start_probing(&[Some(NOW), None, Some(NOW + 5)], NOW, NOW);
    assert_eq!(reg.probing_state, ProbingState::WaitingForProbes);
    assert!(reg.is_probing());
    reg.process_registration_packet(0, &[0x92, 0x11], NOW + 80);
    assert!(!reg.check_probing_complete(NOW + 90));
    reg.handle_probe_response(2, NOW + 45);
    reg.handle_probe_response(2, NOW + 500);
    assert!(reg.check_probing_complete(NOW + 90));
    assert_eq!(reg.get_selected_connection_idx(), Some(2));
    assert_eq!(reg.probe_results[1].rtt_ms, Some(40));
    assert!(!reg.is_probing());
}

#[test]
fn probing_falls_back_to_the_first_link() {
    let mut reg = manager();
    reg.start_probing(&[Some(NOW), Some(NOW)], NOW, NOW);
    assert!(!reg.check_probing_complete(NOW + PROBE_TIMEOUT_MS - 1));
    assert!(reg.check_probing_complete(NOW + PROBE_TIMEOUT_MS));
    assert_eq!(reg.get_selected_connection_idx(), Some(0));

    let mut reg = manager();
    reg.start_probing(&[None, None], NOW, NOW);
    assert_eq!(reg.probing_state, ProbingState::Complete);
    assert_eq!(reg.get_selected_connection_idx(), Some(0));
}

#[test]
fn other_packets_are_left_alone() {
    let mut reg = manager();
    assert_eq!(reg.process_registration_packet(0, &[0x90, 0x00], NOW), None);
    assert_eq!(reg.process_registration_packet(0, &[0x92], NOW), None);
}

#[test]
fn connected_links_are_counted() {
    let mut conns: Vec<SrtlaConnection> = (0..3)
        .map(|i| SrtlaConnection::new_registering(i, format!("link {i}"), NOW))
        .collect();
    conns[1].connected = true;
    conns[2].connected = true;
    let mut reg = manager();
    reg.update_active_connections(&conns);
    assert_eq!(reg.active_connections, 2);
    assert_eq!(&reg.build_reg2(0)[2..], &id(1)[..]);
}
