//! Packet types and the tests that tell packets apart.

use crate::bytes::{half_at, read_half, read_word, word_at, word_bytes, word_roundtrip};
use crate::protocol::constants::{
    SRTLA_TYPE_KEEPALIVE, SRTLA_TYPE_REG1, SRTLA_TYPE_REG1_LEN, SRTLA_TYPE_REG2,
    SRTLA_TYPE_REG2_LEN, SRTLA_TYPE_REG3, SRTLA_TYPE_REG3_LEN, SRT_TYPE_ACK,
};
use vstd::prelude::*;

verus! {

/// What an extended keepalive tells the receiver about a link.
#[derive(Debug, Clone, Copy, PartialEq, Eq, Structural)]
pub struct ConnectionInfo {
    pub conn_id: u32,
    pub window: i32,
    pub in_flight: i32,
    pub rtt_ms: u32,
    pub nak_count: u32,
    pub bitrate_bytes_per_sec: u32,
}

/// The delays that an SRT conclusion handshake declares, in milliseconds. A
/// delay is absent where the peer does not deliver by timestamps in that
/// direction.
#[derive(Debug, Clone, Copy, PartialEq, Eq, Structural)]
pub struct SrtHandshakeLatency {
    /// True for the far end's response, false for the request.
    pub is_response: bool,
    pub rcv_ms: Option<u16>,
    pub snd_ms: Option<u16>,
}

/// The type of a packet: its first two bytes, where it has them.
pub open spec fn packet_type(s: Seq<u8>) -> Option<u16> {
    if s.len() < 2 {
        None
    } else {
        Some(half_at(s, 0))
    }
}

/// Whether `s` is a packet of type `t`.
pub open spec fn has_type(s: Seq<u8>, t: u16) -> bool {
    s.len() >= 2 && half_at(s, 0) == t
}

/// The sequence number of an SRT data packet: its first word, whose top bit is
/// clear. Control packets have none.
pub open spec fn data_sequence(s: Seq<u8>) -> Option<u32> {
    if s.len() >= 4 && word_at(s, 0) < 0x8000_0000 {
        Some(word_at(s, 0))
    } else {
        None
    }
}

/// The type of a packet.
pub fn get_packet_type(buf: &[u8]) -> (t: Option<u16>)
    ensures
        t == packet_type(buf@),
{
    if buf.len() < 2 {
        return None;
    }
    Some(read_half(buf, 0))
}

/// Whether a packet is of type `t`.
pub(crate) fn is_type(buf: &[u8], t: u16) -> (r: bool)
    ensures
        r == has_type(buf@, t),
{
    buf.len() >= 2 && read_half(buf, 0) == t
}

/// The sequence number of an SRT data packet.
pub fn get_srt_sequence_number(buf: &[u8]) -> (seq: Option<u32>)
    ensures
        seq == data_sequence(buf@),
{
    if buf.len() < 4 {
        return None;
    }
    let word: u32 = read_word(buf, 0);
    if word < 0x8000_0000 {
        Some(word)
    } else {
        None
    }
}

/// Whether a packet is of type `t` and `len` bytes long.
pub open spec fn is_whole(s: Seq<u8>, t: u16, len: int) -> bool {
    s.len() == len && has_type(s, t)
}

/// Whether a packet is an SRT data packet that its sender marked as sent again.
pub open spec fn is_resent(s: Seq<u8>) -> bool {
    s.len() >= 8 && (s[0] & 0x80) == 0 && (s[4] & 0x04) != 0
}

/// Whether a packet is a REG1 of the right length.
pub fn is_srtla_reg1(buf: &[u8]) -> (r: bool)
    ensures
        r == is_whole(buf@, SRTLA_TYPE_REG1, SRTLA_TYPE_REG1_LEN as int),
{
    buf.len() == SRTLA_TYPE_REG1_LEN && is_type(buf, SRTLA_TYPE_REG1)
}

/// Whether a packet is a REG2 of the right length.
pub fn is_srtla_reg2(buf: &[u8]) -> (r: bool)
    ensures
        r == is_whole(buf@, SRTLA_TYPE_REG2, SRTLA_TYPE_REG2_LEN as int),
{
    buf.len() == SRTLA_TYPE_REG2_LEN && is_type(buf, SRTLA_TYPE_REG2)
}

/// Whether a packet is a REG3 of the right length.
pub fn is_srtla_reg3(buf: &[u8]) -> (r: bool)
    ensures
        r == is_whole(buf@, SRTLA_TYPE_REG3, SRTLA_TYPE_REG3_LEN as int),
{
    buf.len() == SRTLA_TYPE_REG3_LEN && is_type(buf, SRTLA_TYPE_REG3)
}

/// Whether a packet is an SRTLA keepalive.
pub fn is_srtla_keepalive(buf: &[u8]) -> (r: bool)
    ensures
        r == has_type(buf@, SRTLA_TYPE_KEEPALIVE),
{
    is_type(buf, SRTLA_TYPE_KEEPALIVE)
}

/// Whether a packet is an SRT ACK.
pub fn is_srt_ack(buf: &[u8]) -> (r: bool)
    ensures
        r == has_type(buf@, SRT_TYPE_ACK),
{
    is_type(buf, SRT_TYPE_ACK)
}

/// Whether a packet is an SRT data packet that its sender marked as sent again:
/// a data packet with the retransmission bit of the second header word set.
pub fn is_srt_data_retransmit(buf: &[u8]) -> (r: bool)
    ensures
        r == is_resent(buf@),
{
    buf.len() >= 8 && (buf[0] & 0x80) == 0 && (buf[4] & 0x04) != 0
}

/// A packet whose first word has its top bit clear is data and has that word as its
/// number; any other packet, and any that is too short, has none.
pub proof fn data_packets_have_numbers(number: u32, rest: Seq<u8>)
    ensures
        data_sequence(word_bytes(number) + rest) == if number < 0x8000_0000 {
            Some(number)
        } else {
            None
        },
        rest.len() < 4 ==> data_sequence(rest) is None,
        rest.len() >= 1 && rest[0] >= 0x80 ==> data_sequence(rest) is None,
        rest.len() >= 4 && rest[0] < 0x80 ==> data_sequence(rest) is Some,
{
    let s = word_bytes(number) + rest;
    assert(s.subrange(0, 4) =~= word_bytes(number));
    word_roundtrip(s, 0, number);
}

/// The type of a packet is its first two bytes, and two packets have the same type
/// exactly where these agree.
pub proof fn type_is_the_first_two_bytes(s: Seq<u8>, t: u16)
    ensures
        has_type(s, t) <==> s.len() >= 2 && s[0] == t / 0x100 && s[1] == t % 0x100,
        packet_type(s) == Some(t) <==> has_type(s, t),
        packet_type(s) is None <==> s.len() < 2,
{
}

/// Registration packets are told by their type and their length, 258 bytes for REG1 and
/// REG2, two for REG3; a packet is one of them at most.
pub proof fn registration_packets_have_their_lengths(s: Seq<u8>)
    ensures
        is_whole(s, SRTLA_TYPE_REG1, SRTLA_TYPE_REG1_LEN as int) <==> s.len() == 258 && s[0] == 0x92
            && s[1] == 0x00,
        is_whole(s, SRTLA_TYPE_REG2, SRTLA_TYPE_REG2_LEN as int) <==> s.len() == 258 && s[0] == 0x92
            && s[1] == 0x01,
        is_whole(s, SRTLA_TYPE_REG3, SRTLA_TYPE_REG3_LEN as int) <==> s.len() == 2 && s[0] == 0x92
            && s[1] == 0x02,
        has_type(s, SRTLA_TYPE_KEEPALIVE) <==> s.len() >= 2 && s[0] == 0x90 && s[1] == 0x00,
        has_type(s, SRT_TYPE_ACK) <==> s.len() >= 2 && s[0] == 0x80 && s[1] == 0x02,
{
}

/// A packet was sent again where it is data, of eight bytes or more, and the bit of value
/// four in its fifth byte is set; a control packet never was.
pub proof fn resent_packets_are_data(s: Seq<u8>)
    requires
        s.len() >= 8,
    ensures
        is_resent(s) <==> s[0] < 0x80 && (s[4] / 4) % 2 == 1,
        is_resent(s) ==> data_sequence(s) is Some,
        is_resent(s.take(7)) == false,
{
    let a = s[0];
    let b = s[4];
    assert((a & 0x80) == 0 <==> a < 0x80) by (bit_vector);
    assert((b & 0x04) != 0 <==> (b / 4) % 2 == 1) by (bit_vector);
}

} // verus!
