//! Packets that the sender (and, for ACKs, a receiver) builds.

use crate::bytes::{half_bytes, long_bytes, put_half, put_long, put_word, word_bytes};
use crate::protocol::constants::{
    SRTLA_ID_LEN, SRTLA_KEEPALIVE_EXT_LEN, SRTLA_KEEPALIVE_EXT_VERSION, SRTLA_KEEPALIVE_LEN,
    SRTLA_KEEPALIVE_MAGIC, SRTLA_TYPE_ACK, SRTLA_TYPE_KEEPALIVE, SRTLA_TYPE_REG1,
    SRTLA_TYPE_REG1_LEN, SRTLA_TYPE_REG2, SRTLA_TYPE_REG2_LEN,
};
use crate::protocol::lists::{packet_bytes, packet_from_vec};
use crate::protocol::types::ConnectionInfo;
use smallvec::SmallVec;
use vstd::prelude::*;

verus! {

/// A registration packet: type, then the id.
pub open spec fn registration_bytes(kind: u16, id: Seq<u8>) -> Seq<u8> {
    half_bytes(kind) + id
}

/// A plain keepalive: type, then the timestamp.
pub open spec fn keepalive_bytes(timestamp_ms: u64) -> Seq<u8> {
    half_bytes(SRTLA_TYPE_KEEPALIVE) + long_bytes(timestamp_ms)
}

/// The part of an extended keepalive that follows the plain one.
pub open spec fn conn_info_bytes(info: ConnectionInfo) -> Seq<u8> {
    half_bytes(SRTLA_KEEPALIVE_MAGIC) + half_bytes(SRTLA_KEEPALIVE_EXT_VERSION) + word_bytes(
        info.conn_id,
    ) + word_bytes(info.window as u32) + word_bytes(info.in_flight as u32) + word_bytes(info.rtt_ms)
        + word_bytes(info.nak_count) + word_bytes(info.bitrate_bytes_per_sec)
}

/// The words of a list, one after the other.
pub open spec fn words_bytes(words: Seq<u32>) -> Seq<u8>
    decreases words.len(),
{
    if words.len() == 0 {
        Seq::empty()
    } else {
        words_bytes(words.drop_last()) + word_bytes(words.last())
    }
}

/// An SRTLA ACK: type, two bytes of padding, then the acknowledged numbers.
pub open spec fn ack_bytes(acks: Seq<u32>) -> Seq<u8> {
    half_bytes(SRTLA_TYPE_ACK) + seq![0u8, 0u8] + words_bytes(acks)
}

fn registration_packet(kind: u16, id: &[u8; SRTLA_ID_LEN]) -> (pkt: [u8; SRTLA_TYPE_REG1_LEN])
    ensures
        pkt@ == registration_bytes(kind, id@),
{
    let mut pkt: [u8; SRTLA_TYPE_REG1_LEN] = [0u8; SRTLA_TYPE_REG1_LEN];
    put_half(&mut pkt, 0, kind);
    let mut i: usize = 0;
    while i < 256
        invariant
            i <= 256,
            pkt@.len() == 258,
            pkt@.take(2) == half_bytes(kind),
            forall|k: int| 0 <= k < i ==> pkt@[2 + k] == id@[k],
        decreases 256 - i,
    {
        pkt[2 + i] = id[i];
        assert(pkt@.take(2) =~= half_bytes(kind));
        i += 1;
    }
    assert(pkt@ =~= pkt@.take(2) + id@);
    pkt
}

/// REG1: asks the receiver to open a connection group under `id`.
pub fn create_reg1_packet(id: &[u8; SRTLA_ID_LEN]) -> (pkt: [u8; SRTLA_TYPE_REG1_LEN])
    ensures
        pkt@ == registration_bytes(SRTLA_TYPE_REG1, id@),
{
    registration_packet(SRTLA_TYPE_REG1, id)
}

/// REG2: adds the link it is sent on to the group `id`.
pub fn create_reg2_packet(id: &[u8; SRTLA_ID_LEN]) -> (pkt: [u8; SRTLA_TYPE_REG2_LEN])
    ensures
        pkt@ == registration_bytes(SRTLA_TYPE_REG2, id@),
{
    registration_packet(SRTLA_TYPE_REG2, id)
}

/// `chrono::Utc::now().timestamp_millis()`: the wall clock, in milliseconds
/// since the epoch. Nothing is claimed of the result: it depends on the time of
/// the call.
#[verifier::external_body]
fn utc_now_ms() -> (now: u64) {
    chrono::Utc::now().timestamp_millis() as u64
}

/// A plain keepalive that carries the timestamp `now_ms`.
pub fn keepalive_packet_at(now_ms: u64) -> (pkt: [u8; SRTLA_KEEPALIVE_LEN])
    ensures
        pkt@ == keepalive_bytes(now_ms),
{
    let mut pkt: [u8; SRTLA_KEEPALIVE_LEN] = [0u8; SRTLA_KEEPALIVE_LEN];
    put_half(&mut pkt, 0, SRTLA_TYPE_KEEPALIVE);
    put_long(&mut pkt, 2, now_ms);
    assert(pkt@ =~= keepalive_bytes(now_ms));
    pkt
}

/// A plain keepalive that carries the wall clock.
pub fn create_keepalive_packet() -> (pkt: [u8; SRTLA_KEEPALIVE_LEN])
    ensures
        exists|now_ms: u64| pkt@ == #[trigger] keepalive_bytes(now_ms),
{
    keepalive_packet_at(utc_now_ms())
}

/// An extended keepalive that carries the timestamp `now_ms` and `info`. Its
/// first ten bytes are the plain keepalive, which is all that a receiver
/// without the extension reads.
pub fn keepalive_packet_ext_at(info: ConnectionInfo, now_ms: u64) -> (pkt: [u8; SRTLA_KEEPALIVE_EXT_LEN])
    ensures
        pkt@ == keepalive_bytes(now_ms) + conn_info_bytes(info),
{
    let mut pkt: [u8; SRTLA_KEEPALIVE_EXT_LEN] = [0u8; SRTLA_KEEPALIVE_EXT_LEN];
    put_half(&mut pkt, 0, SRTLA_TYPE_KEEPALIVE);
    put_long(&mut pkt, 2, now_ms);
    put_half(&mut pkt, 10, SRTLA_KEEPALIVE_MAGIC);
    put_half(&mut pkt, 12, SRTLA_KEEPALIVE_EXT_VERSION);
    put_word(&mut pkt, 14, info.conn_id);
    put_word(&mut pkt, 18, info.window as u32);
    put_word(&mut pkt, 22, info.in_flight as u32);
    put_word(&mut pkt, 26, info.rtt_ms);
    put_word(&mut pkt, 30, info.nak_count);
    put_word(&mut pkt, 34, info.bitrate_bytes_per_sec);
    assert(pkt@ =~= keepalive_bytes(now_ms) + conn_info_bytes(info));
    pkt
}

/// An extended keepalive that carries the wall clock and `info`.
pub fn create_keepalive_packet_ext(info: ConnectionInfo) -> (pkt: [u8; SRTLA_KEEPALIVE_EXT_LEN])
    ensures
        exists|now_ms: u64|
            pkt@ == #[trigger] keepalive_bytes(now_ms) + conn_info_bytes(info),
{
    keepalive_packet_ext_at(info, utc_now_ms())
}

/// An SRTLA ACK for the given sequence numbers, in order.
pub fn create_ack_packet(acks: &[u32]) -> (pkt: SmallVec<u8, 64>)
    ensures
        packet_bytes(&pkt) == ack_bytes(acks@),
{
    let mut out: Vec<u8> = Vec::new();
    out.push((SRTLA_TYPE_ACK / 0x100) as u8);
    out.push((SRTLA_TYPE_ACK % 0x100) as u8);
    out.push(0);
    out.push(0);
    assert(out@ =~= ack_bytes(acks@.take(0)));
    let mut i: usize = 0;
    while i < acks.len()
        invariant
            i <= acks@.len(),
            out@ == ack_bytes(acks@.take(i as int)),
        decreases acks@.len() - i,
    {
        let v: u32 = acks[i];
        let ghost before = out@;
        out.push((v / 0x100_0000) as u8);
        out.push(((v / 0x1_0000) % 0x100) as u8);
        out.push(((v / 0x100) % 0x100) as u8);
        out.push((v % 0x100) as u8);
        assert(out@ =~= before + word_bytes(v));
        let ghost next = acks@.take(i + 1);
        assert(next.drop_last() =~= acks@.take(i as int));
        assert(next.last() == v);
        assert(out@ =~= ack_bytes(next));
        i += 1;
    }
    assert(acks@.take(acks@.len() as int) =~= acks@);
    packet_from_vec(out)
}

/// Packets begin with their type and have their lengths: REG1 0x9200 and REG2 0x9201 with
/// the id, a keepalive 0x9000 with eight bytes of time, 38 bytes in all with the link's
/// figures, and an SRTLA ACK 0x9100 with two bytes of nothing and four for each number.
pub proof fn packets_begin_with_their_types(
    id: Seq<u8>,
    timestamp_ms: u64,
    info: ConnectionInfo,
    acks: Seq<u32>,
)
    ensures
        registration_bytes(SRTLA_TYPE_REG1, id) == seq![0x92u8, 0x00u8] + id,
        registration_bytes(SRTLA_TYPE_REG2, id) == seq![0x92u8, 0x01u8] + id,
        keepalive_bytes(timestamp_ms).len() == 10,
        keepalive_bytes(timestamp_ms).take(2) == seq![0x90u8, 0x00u8],
        (keepalive_bytes(timestamp_ms) + conn_info_bytes(info)).len() == 38,
        conn_info_bytes(info).take(4) == seq![0xc0u8, 0x1fu8, 0x00u8, 0x01u8],
        ack_bytes(acks).len() == 4 + 4 * acks.len(),
        ack_bytes(acks).take(4) == seq![0x91u8, 0x00u8, 0x00u8, 0x00u8],
    decreases acks.len(),
{
    assert(registration_bytes(SRTLA_TYPE_REG1, id) =~= seq![0x92u8, 0x00u8] + id);
    assert(registration_bytes(SRTLA_TYPE_REG2, id) =~= seq![0x92u8, 0x01u8] + id);
    assert(keepalive_bytes(timestamp_ms).take(2) =~= seq![0x90u8, 0x00u8]);
    assert(conn_info_bytes(info).take(4) =~= seq![0xc0u8, 0x1fu8, 0x00u8, 0x01u8]);
    assert(ack_bytes(acks).take(4) =~= seq![0x91u8, 0x00u8, 0x00u8, 0x00u8]);
    if acks.len() > 0 {
        packets_begin_with_their_types(id, timestamp_ms, info, acks.drop_last());
    }
}

} // verus!
