use srtla_send::extensions::{
    create_connection_info_packet, create_extension_hello, has_extension,
    is_connection_info_packet, parse_connection_info, parse_extension_packet, SRTLA_EXT_ACK,
    SRTLA_EXT_CAP_CONN_INFO, SRTLA_EXT_CONN_INFO, SRTLA_EXT_CONN_INFO_VERSION, SRTLA_EXT_HELLO,
    SRTLA_EXT_HELLO_LEN, SRTLA_EXT_VERSION,
};
use srtla_send::protocol::types::get_packet_type;

#[test]
fn test_extension_hello_creation() {
    let pkt = create_extension_hello(SRTLA_EXT_CAP_CONN_INFO);
    assert_eq!(pkt.len(), SRTLA_EXT_HELLO_LEN);
    assert_eq!(get_packet_type(&pkt), Some(SRTLA_EXT_HELLO));
    assert_eq!(u16::from_be_bytes([pkt[2], pkt[3]]), SRTLA_EXT_VERSION);
    assert_eq!(
        u32::from_be_bytes([pkt[4], pkt[5], pkt[6], pkt[7]]),
        SRTLA_EXT_CAP_CONN_INFO
    );
}

#[test]
fn test_extension_packet_parsing() {
    let caps = SRTLA_EXT_CAP_CONN_INFO | 0x00000004;
    let pkt = create_extension_hello(caps);

    let parsed = parse_extension_packet(&pkt).unwrap();
    assert_eq!(parsed.version, SRTLA_EXT_VERSION);
    assert_eq!(parsed.capabilities, caps);
}

#[test]
fn test_has_extension() {
    let caps = SRTLA_EXT_CAP_CONN_INFO | 0x00000004;

    assert!(has_extension(caps, SRTLA_EXT_CAP_CONN_INFO));
    assert!(has_extension(caps, 0x00000004));
    assert!(!has_extension(caps, 0x00000002));
}

#[test]
fn test_connection_info_roundtrip() {
    let pkt = create_connection_info_packet(42, 15000, 8, 200_000, 25, 8_000_000);

    let info = parse_connection_info(&pkt).unwrap();
    assert_eq!(info.version, SRTLA_EXT_CONN_INFO_VERSION);
    assert_eq!(info.conn_id, 42);
    assert_eq!(info.window, 15000);
    assert_eq!(info.in_flight, 8);
    assert_eq!(info.rtt_us, 200_000);
    assert_eq!(info.nak_count, 25);
    assert_eq!(info.bitrate_bytes_per_sec, 8_000_000);
}

#[test]
fn test_is_connection_info_packet() {
    let pkt = create_connection_info_packet(1, 20000, 5, 150_000, 10, 5_000_000);
    assert!(is_connection_info_packet(&pkt));

    let short_pkt = vec![0u8; 10];
    assert!(!is_connection_info_packet(&short_pkt));
}

#[test]
fn test_extension_range() {
    assert!(SRTLA_EXT_HELLO >= 0x9f00 && SRTLA_EXT_HELLO <= 0x9fff);
    assert!(SRTLA_EXT_ACK >= 0x9f00 && SRTLA_EXT_ACK <= 0x9fff);
    assert!(SRTLA_EXT_CONN_INFO >= 0x9f00 && SRTLA_EXT_CONN_INFO <= 0x9fff);
}

#[test]
fn negative_windows_survive_the_trip() {
    let pkt = create_connection_info_packet(7, -1, i32::MIN, u64::MAX, 0, u32::MAX);
    let info = parse_connection_info(&pkt).unwrap();
    assert_eq!(info.window, -1);
    assert_eq!(info.in_flight, i32::MIN);
    assert_eq!(info.rtt_us, u64::MAX);
    assert_eq!(info.bitrate_bytes_per_sec, u32::MAX);
}

#[test]
fn other_packets_are_no_extensions() {
    assert!(parse_extension_packet(&[0x90, 0x00, 0, 1, 0, 0, 0, 1, 0, 0]).is_none());
    assert!(parse_extension_packet(&[0x9f]).is_none());
    assert!(parse_connection_info(&[0u8; 32]).is_none());
}
