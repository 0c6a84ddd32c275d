use srtla_send::protocol::builders::{
    create_ack_packet, create_keepalive_packet, create_keepalive_packet_ext, create_reg1_packet,
    create_reg2_packet, keepalive_packet_at, keepalive_packet_ext_at,
};
use srtla_send::protocol::constants::{
    SRTLA_ID_LEN, SRTLA_KEEPALIVE_EXT_LEN, SRTLA_KEEPALIVE_MAGIC, SRTLA_TYPE_ACK,
    SRTLA_TYPE_KEEPALIVE, SRTLA_TYPE_REG1, SRTLA_TYPE_REG2, SRTLA_TYPE_REG2_LEN, SRT_TYPE_ACK,
    SRT_TYPE_NAK,
};
use srtla_send::protocol::parsers::{
    extract_keepalive_conn_info, extract_keepalive_timestamp, parse_srt_ack,
    parse_srt_handshake_latency, parse_srt_nak, parse_srtla_ack,
};
use srtla_send::protocol::types::{
    get_packet_type, get_srt_sequence_number, is_srt_ack, is_srt_data_retransmit, is_srtla_keepalive,
    is_srtla_reg1, is_srtla_reg2, is_srtla_reg3, ConnectionInfo,
};

fn sample_info() -> ConnectionInfo {
    ConnectionInfo {
        conn_id: 42,
        window: 25000,
        in_flight: 8,
        rtt_ms: 120,
        nak_count: 5,
        bitrate_bytes_per_sec: 2_500_000,
    }
}

fn roundtrip() {
    let info = sample_info();
    let pkt = create_keepalive_packet_ext(info);
    assert_eq!(pkt.len(), SRTLA_KEEPALIVE_EXT_LEN);
    assert_eq!(get_packet_type(&pkt), Some(SRTLA_TYPE_KEEPALIVE));
    assert!(extract_keepalive_timestamp(&pkt).is_some());
    let extracted = extract_keepalive_conn_info(&pkt).unwrap();
    assert_eq!(extracted, info);
}

fn standard_has_no_info() {
    let pkt = create_keepalive_packet();
    assert_eq!(pkt.len(), 10);
    assert!(extract_keepalive_timestamp(&pkt).is_some());
    assert!(extract_keepalive_conn_info(&pkt).is_none());
}

fn backwards_compat() {
    let info = ConnectionInfo {
        conn_id: 1,
        window: 20000,
        in_flight: 5,
        rtt_ms: 100,
        nak_count: 2,
        bitrate_bytes_per_sec: 1_000_000,
    };
    let ext_pkt = create_keepalive_packet_ext(info);
    let timestamp_from_ext = extract_keepalive_timestamp(&ext_pkt);
    assert!(timestamp_from_ext.is_some());
    let std_pkt = create_keepalive_packet();
    let timestamp_from_std = extract_keepalive_timestamp(&std_pkt);
    assert!(timestamp_from_std.is_some());
    let diff = timestamp_from_ext.unwrap().abs_diff(timestamp_from_std.unwrap());
    assert!(diff < 1000);
}

fn wrong_magic() {
    let mut pkt = [0u8; SRTLA_KEEPALIVE_EXT_LEN];
    pkt[0..2].copy_from_slice(&SRTLA_TYPE_KEEPALIVE.to_be_bytes());
    pkt[10..12].copy_from_slice(&0xdeadu16.to_be_bytes());
    assert!(extract_keepalive_conn_info(&pkt).is_none());
}

fn wrong_version() {
    let mut pkt = [0u8; SRTLA_KEEPALIVE_EXT_LEN];
    pkt[0..2].copy_from_slice(&SRTLA_TYPE_KEEPALIVE.to_be_bytes());
    pkt[10..12].copy_from_slice(&SRTLA_KEEPALIVE_MAGIC.to_be_bytes());
    pkt[12..14].copy_from_slice(&0x9999u16.to_be_bytes());
    assert!(extract_keepalive_conn_info(&pkt).is_none());
}

#[test]
fn protocol_test_extended_keepalive_roundtrip() {
    roundtrip();
}

#[test]
fn protocol_test_standard_keepalive_no_conn_info() {
    standard_has_no_info();
}

#[test]
fn protocol_test_extended_keepalive_backwards_compat() {
    backwards_compat();
}

#[test]
fn protocol_test_extended_keepalive_wrong_magic() {
    wrong_magic();
}

#[test]
fn protocol_test_extended_keepalive_wrong_version() {
    wrong_version();
}

#[test]
fn mod_test_extended_keepalive_roundtrip() {
    roundtrip();
}

#[test]
fn mod_test_standard_keepalive_no_conn_info() {
    standard_has_no_info();
}

#[test]
fn mod_test_extended_keepalive_backwards_compat() {
    backwards_compat();
}

#[test]
fn mod_test_extended_keepalive_wrong_magic() {
    wrong_magic();
}

#[test]
fn mod_test_extended_keepalive_wrong_version() {
    wrong_version();
}

#[test]
fn wall_clock_is_plausible() {
    let now = std::time::SystemTime::now()
        .duration_since(std::time::UNIX_EPOCH)
        .unwrap()
        .as_millis() as u64;
    let sent = extract_keepalive_timestamp(&create_keepalive_packet()).unwrap();
    assert!(sent.abs_diff(now) < 10_000);
}

#[test]
fn keepalives_hold_the_given_time() {
    let pkt = keepalive_packet_at(0x0102_0304_0506_0708);
    assert_eq!(pkt, [0x90, 0x00, 1, 2, 3, 4, 5, 6, 7, 8]);
    let ext = keepalive_packet_ext_at(sample_info(), 77);
    assert_eq!(extract_keepalive_timestamp(&ext), Some(77));
    assert_eq!(extract_keepalive_conn_info(&ext), Some(sample_info()));
    assert_eq!(extract_keepalive_timestamp(&ext[..9]), None);
}

#[test]
fn registration_packets_carry_their_id() {
    let mut id = [0u8; SRTLA_ID_LEN];
    for (i, b) in id.iter_mut().enumerate() {
        *b = i as u8;
    }
    let reg1 = create_reg1_packet(&id);
    let reg2 = create_reg2_packet(&id);
    assert_eq!(get_packet_type(&reg1), Some(SRTLA_TYPE_REG1));
    assert_eq!(get_packet_type(&reg2), Some(SRTLA_TYPE_REG2));
    assert_eq!(reg2.len(), SRTLA_TYPE_REG2_LEN);
    assert_eq!(&reg1[2..], &id[..]);
    assert_eq!(&reg2[2..], &id[..]);
    assert!(is_srtla_reg1(&reg1) && !is_srtla_reg1(&reg2));
    assert!(is_srtla_reg2(&reg2) && !is_srtla_reg2(&reg1));
    assert!(is_srtla_reg3(&[0x92, 0x02]));
}

#[test]
fn srtla_acks_come_back() {
    let acks = [1u32, 2, 0x7fff_ffff, 99, 5];
    let pkt = create_ack_packet(&acks);
    assert_eq!(get_packet_type(&pkt), Some(SRTLA_TYPE_ACK));
    assert_eq!(pkt.len(), 4 + 4 * acks.len());
    let parsed = parse_srtla_ack(&pkt);
    assert_eq!(parsed.as_slice(), &acks);
    assert!(parse_srtla_ack(&pkt[..4]).is_empty());
}

#[test]
fn many_acks_spill_to_the_heap_and_come_back() {
    let acks: Vec<u32> = (0..300).collect();
    let pkt = create_ack_packet(&acks);
    assert_eq!(parse_srtla_ack(&pkt).as_slice(), acks.as_slice());
}

fn nak(words: &[u32]) -> Vec<u8> {
    let mut pkt = vec![0u8; 4];
    pkt[0..2].copy_from_slice(&SRT_TYPE_NAK.to_be_bytes());
    for w in words {
        pkt.extend_from_slice(&w.to_be_bytes());
    }
    pkt
}

#[test]
fn naks_list_single_packets_and_ranges() {
    assert_eq!(parse_srt_nak(&nak(&[7])).as_slice(), &[7]);
    assert_eq!(parse_srt_nak(&nak(&[0x8000_0005, 8, 20])).as_slice(), &[5, 6, 7, 8, 20]);
    assert!(parse_srt_nak(&nak(&[])[..3]).is_empty());
}

#[test]
fn wide_nak_ranges_are_cut() {
    let parsed = parse_srt_nak(&nak(&[0x8000_0000, 0x7fff_ffff]));
    assert_eq!(parsed.len(), 1000);
    assert_eq!(parsed.as_slice()[0], 0);
}

#[test]
fn cumulative_acks_are_read() {
    let mut pkt = vec![0u8; 20];
    pkt[0..2].copy_from_slice(&SRT_TYPE_ACK.to_be_bytes());
    pkt[16..20].copy_from_slice(&123_456u32.to_be_bytes());
    assert!(is_srt_ack(&pkt));
    assert_eq!(parse_srt_ack(&pkt), Some(123_456));
    assert_eq!(parse_srt_ack(&pkt[..19]), None);
    pkt[1] = 0x03;
    assert_eq!(parse_srt_ack(&pkt), None);
}

#[test]
fn data_packets_have_a_number() {
    let mut pkt = vec![0u8; 16];
    pkt[0..4].copy_from_slice(&0x0000_1234u32.to_be_bytes());
    assert_eq!(get_srt_sequence_number(&pkt), Some(0x1234));
    assert!(!is_srt_data_retransmit(&pkt));
    pkt[4] |= 0x04;
    assert!(is_srt_data_retransmit(&pkt));
    pkt[0] |= 0x80;
    assert_eq!(get_srt_sequence_number(&pkt), None);
    assert_eq!(get_srt_sequence_number(&pkt[..3]), None);
}

#[test]
fn short_packets_have_no_type() {
    assert_eq!(get_packet_type(&[0x90]), None);
    assert!(!is_srtla_keepalive(&[]));
    assert!(is_srtla_keepalive(&[0x90, 0x00]));
}

fn handshake(req_type: u32, ext_flags: u16, blocks: &[u32]) -> Vec<u8> {
    let mut words = vec![0x8000_0000u32, 0, 0, 0];
    let mut cif = vec![0u32; 12];
    cif[0] = 5;
    cif[1] = ext_flags as u32;
    cif[5] = req_type;
    words.extend_from_slice(&cif);
    words.extend_from_slice(blocks);
    let mut pkt = Vec::new();
    for w in words {
        pkt.extend_from_slice(&w.to_be_bytes());
    }
    pkt
}

#[test]
fn handshake_latency_is_read() {
    let block = [0x0001_0003u32, 0x0001_0500, 0x0000_00bf, (120 << 16) | 250];
    let found = parse_srt_handshake_latency(&handshake(0xffff_ffff, 1, &block)).unwrap();
    assert!(!found.is_response);
    assert_eq!(found.rcv_ms, Some(120));
    assert_eq!(found.snd_ms, Some(250));
    assert!(parse_srt_handshake_latency(&handshake(1, 1, &block)).is_none());
    assert!(parse_srt_handshake_latency(&handshake(0xffff_ffff, 0, &block)).is_none());
    assert!(parse_srt_handshake_latency(&[0u8; 20]).is_none());
}
