//! Extensions of the protocol that sender and receiver agree on after
//! registration: a HELLO announces what the sender knows, an ACK what the
//! receiver knows, as bits of a word. Types 0x9f00 to 0x9fff are set aside for
//! them.

use crate::bytes::{
    half_at, half_bytes, half_roundtrip, long_at, long_bytes, long_roundtrip, put_half, put_long,
    put_word, read_half, read_long, read_word, signed_roundtrip, word_at, word_bytes,
    word_roundtrip,
};
use crate::protocol::types::{has_type, is_type};
use vstd::prelude::*;

verus! {

/// Type of a HELLO.
pub const SRTLA_EXT_HELLO: u16 = 0x9ff0;

/// Length of a HELLO: type, version, capabilities, two reserved bytes.
pub const SRTLA_EXT_HELLO_LEN: usize = 10;

/// Type of an ACK, which is laid out as a HELLO.
pub const SRTLA_EXT_ACK: u16 = 0x9ff1;

/// Length of an ACK.
pub const SRTLA_EXT_ACK_LEN: usize = 10;

/// Version of the agreement.
pub const SRTLA_EXT_VERSION: u16 = 0x0001;

/// Capability: connection info.
pub const SRTLA_EXT_CAP_CONN_INFO: u32 = 0x0000_0001;

/// Type of a connection info packet.
pub const SRTLA_EXT_CONN_INFO: u16 = 0x9f00;

/// Length of a connection info packet.
pub const SRTLA_EXT_CONN_INFO_LEN: usize = 32;

/// Version of a connection info packet.
pub const SRTLA_EXT_CONN_INFO_VERSION: u16 = 0x0001;

/// What a HELLO or an ACK says.
#[derive(Debug, Clone, Copy, PartialEq, Eq, Structural)]
pub struct ExtensionCapabilities {
    pub version: u16,
    pub capabilities: u32,
}

/// What a connection info packet says.
#[derive(Debug, Clone, Copy, PartialEq, Eq, Structural)]
pub struct ConnectionInfoData {
    pub version: u16,
    pub conn_id: u32,
    pub window: i32,
    pub in_flight: i32,
    pub rtt_us: u64,
    pub nak_count: u32,
    pub bitrate_bytes_per_sec: u32,
}

/// The bytes of a HELLO.
pub open spec fn hello_bytes(capabilities: u32) -> Seq<u8> {
    half_bytes(SRTLA_EXT_HELLO) + half_bytes(SRTLA_EXT_VERSION) + word_bytes(capabilities)
        + half_bytes(0)
}

/// What a HELLO or an ACK says.
pub open spec fn capabilities_of(s: Seq<u8>) -> Option<ExtensionCapabilities> {
    if s.len() >= SRTLA_EXT_HELLO_LEN && (has_type(s, SRTLA_EXT_HELLO) || has_type(
        s,
        SRTLA_EXT_ACK,
    )) {
        Some(ExtensionCapabilities { version: half_at(s, 2), capabilities: word_at(s, 4) })
    } else {
        None
    }
}

/// The bytes of a connection info packet.
pub open spec fn info_bytes(info: ConnectionInfoData) -> Seq<u8> {
    half_bytes(SRTLA_EXT_CONN_INFO) + half_bytes(info.version) + word_bytes(info.conn_id)
        + word_bytes(info.window as u32) + word_bytes(info.in_flight as u32) + long_bytes(
        info.rtt_us,
    ) + word_bytes(info.nak_count) + word_bytes(info.bitrate_bytes_per_sec)
}

/// What a connection info packet says.
pub open spec fn info_of(s: Seq<u8>) -> Option<ConnectionInfoData> {
    if s.len() >= SRTLA_EXT_CONN_INFO_LEN && has_type(s, SRTLA_EXT_CONN_INFO) {
        Some(
            ConnectionInfoData {
                version: half_at(s, 2),
                conn_id: word_at(s, 4),
                window: word_at(s, 8) as i32,
                in_flight: word_at(s, 12) as i32,
                rtt_us: long_at(s, 16),
                nak_count: word_at(s, 24),
                bitrate_bytes_per_sec: word_at(s, 28),
            },
        )
    } else {
        None
    }
}

/// Builds a HELLO that announces the given capabilities.
pub fn create_extension_hello(capabilities: u32) -> (pkt: [u8; SRTLA_EXT_HELLO_LEN])
    ensures
        pkt@ == hello_bytes(capabilities),
{
    let mut pkt: [u8; SRTLA_EXT_HELLO_LEN] = [0u8; SRTLA_EXT_HELLO_LEN];
    put_half(&mut pkt, 0, SRTLA_EXT_HELLO);
    put_half(&mut pkt, 2, SRTLA_EXT_VERSION);
    put_word(&mut pkt, 4, capabilities);
    put_half(&mut pkt, 8, 0);
    assert(pkt@ =~= hello_bytes(capabilities));
    pkt
}

/// What a HELLO or an ACK says; none where the packet is too short or of another
/// type.
pub fn parse_extension_packet(buf: &[u8]) -> (caps: Option<ExtensionCapabilities>)
    ensures
        caps == capabilities_of(buf@),
{
    if buf.len() < SRTLA_EXT_HELLO_LEN {
        return None;
    }
    if !is_type(buf, SRTLA_EXT_HELLO) && !is_type(buf, SRTLA_EXT_ACK) {
        return None;
    }
    Some(
        ExtensionCapabilities {
            version: read_half(buf, 2),
            capabilities: read_word(buf, 4),
        },
    )
}

/// Whether capabilities hold any bit of `flag`.
pub fn has_extension(capabilities: u32, flag: u32) -> (r: bool)
    ensures
        r == ((capabilities & flag) != 0),
{
    (capabilities & flag) != 0
}

/// Builds a connection info packet.
pub fn create_connection_info_packet(
    conn_id: u32,
    window: i32,
    in_flight: i32,
    rtt_us: u64,
    nak_count: u32,
    bitrate_bytes_per_sec: u32,
) -> (pkt: [u8; SRTLA_EXT_CONN_INFO_LEN])
    ensures
        pkt@ == info_bytes(
            ConnectionInfoData {
                version: SRTLA_EXT_CONN_INFO_VERSION,
                conn_id,
                window,
                in_flight,
                rtt_us,
                nak_count,
                bitrate_bytes_per_sec,
            },
        ),
{
    let mut pkt: [u8; SRTLA_EXT_CONN_INFO_LEN] = [0u8; SRTLA_EXT_CONN_INFO_LEN];
    put_half(&mut pkt, 0, SRTLA_EXT_CONN_INFO);
    put_half(&mut pkt, 2, SRTLA_EXT_CONN_INFO_VERSION);
    put_word(&mut pkt, 4, conn_id);
    put_word(&mut pkt, 8, window as u32);
    put_word(&mut pkt, 12, in_flight as u32);
    put_long(&mut pkt, 16, rtt_us);
    put_word(&mut pkt, 24, nak_count);
    put_word(&mut pkt, 28, bitrate_bytes_per_sec);
    assert(pkt@ =~= info_bytes(
        ConnectionInfoData {
            version: SRTLA_EXT_CONN_INFO_VERSION,
            conn_id,
            window,
            in_flight,
            rtt_us,
            nak_count,
            bitrate_bytes_per_sec,
        },
    ));
    pkt
}

/// What a connection info packet says; none where the packet is too short or of
/// another type.
pub fn parse_connection_info(buf: &[u8]) -> (info: Option<ConnectionInfoData>)
    ensures
        info == info_of(buf@),
{
    if buf.len() < SRTLA_EXT_CONN_INFO_LEN || !is_type(buf, SRTLA_EXT_CONN_INFO) {
        return None;
    }
    Some(
        ConnectionInfoData {
            version: read_half(buf, 2),
            conn_id: read_word(buf, 4),
            window: read_word(buf, 8) as i32,
            in_flight: read_word(buf, 12) as i32,
            rtt_us: read_long(buf, 16),
            nak_count: read_word(buf, 24),
            bitrate_bytes_per_sec: read_word(buf, 28),
        },
    )
}

/// Whether a packet is a connection info packet of the right length.
pub open spec fn is_info(s: Seq<u8>) -> bool {
    s.len() == SRTLA_EXT_CONN_INFO_LEN && has_type(s, SRTLA_EXT_CONN_INFO)
}

/// Whether a packet is a connection info packet of the right length.
pub fn is_connection_info_packet(buf: &[u8]) -> (r: bool)
    ensures
        r == is_info(buf@),
{
    buf.len() == SRTLA_EXT_CONN_INFO_LEN && is_type(buf, SRTLA_EXT_CONN_INFO)
}

/// A HELLO gives back the capabilities that it announces.
pub proof fn hello_roundtrip(capabilities: u32)
    ensures
        capabilities_of(hello_bytes(capabilities)) == Some(
            ExtensionCapabilities { version: SRTLA_EXT_VERSION, capabilities },
        ),
{
    let s = hello_bytes(capabilities);
    assert(s.subrange(0, 2) =~= half_bytes(SRTLA_EXT_HELLO));
    assert(s.subrange(2, 4) =~= half_bytes(SRTLA_EXT_VERSION));
    assert(s.subrange(4, 8) =~= word_bytes(capabilities));
    half_roundtrip(s, 0, SRTLA_EXT_HELLO);
    half_roundtrip(s, 2, SRTLA_EXT_VERSION);
    word_roundtrip(s, 4, capabilities);
}

/// A connection info packet gives back what it was built from.
pub proof fn connection_info_roundtrip(info: ConnectionInfoData)
    ensures
        info_of(info_bytes(info)) == Some(info),
{
    let s = info_bytes(info);
    assert(s.subrange(0, 2) =~= half_bytes(SRTLA_EXT_CONN_INFO));
    assert(s.subrange(2, 4) =~= half_bytes(info.version));
    assert(s.subrange(4, 8) =~= word_bytes(info.conn_id));
    assert(s.subrange(8, 12) =~= word_bytes(info.window as u32));
    assert(s.subrange(12, 16) =~= word_bytes(info.in_flight as u32));
    assert(s.subrange(16, 24) =~= long_bytes(info.rtt_us));
    assert(s.subrange(24, 28) =~= word_bytes(info.nak_count));
    assert(s.subrange(28, 32) =~= word_bytes(info.bitrate_bytes_per_sec));
    half_roundtrip(s, 0, SRTLA_EXT_CONN_INFO);
    half_roundtrip(s, 2, info.version);
    word_roundtrip(s, 4, info.conn_id);
    word_roundtrip(s, 8, info.window as u32);
    word_roundtrip(s, 12, info.in_flight as u32);
    long_roundtrip(s, 16, info.rtt_us);
    word_roundtrip(s, 24, info.nak_count);
    word_roundtrip(s, 28, info.bitrate_bytes_per_sec);
    signed_roundtrip(info.window);
    signed_roundtrip(info.in_flight);
}

/// Packets are told apart by their first two bytes and their length: capabilities come from
/// ten bytes or more that begin with 0x9ff0 or 0x9ff1, connection info from 32 or more that
/// begin with 0x9f00, and nothing from others. A packet that was built is recognised.
pub proof fn packets_are_told_apart(s: Seq<u8>, info: ConnectionInfoData)
    requires
        s.len() >= 2,
    ensures
        capabilities_of(s) is Some <==> s.len() >= 10 && s[0] == 0x9f && (s[1] == 0xf0 || s[1]
            == 0xf1),
        info_of(s) is Some <==> s.len() >= 32 && s[0] == 0x9f && s[1] == 0x00,
        is_info(s) <==> s.len() == 32 && s[0] == 0x9f && s[1] == 0x00,
        capabilities_of(s) is Some ==> capabilities_of(s)->0.version == s[2] * 256 + s[3],
        is_info(info_bytes(info)),
{
    let p = info_bytes(info);
    assert(p.subrange(0, 2) =~= half_bytes(SRTLA_EXT_CONN_INFO));
    half_roundtrip(p, 0, SRTLA_EXT_CONN_INFO);
}

} // verus!
