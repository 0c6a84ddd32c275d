//! What the sender reads out of packets.

use crate::bytes::{
    half_at, half_bytes, half_roundtrip, long_at, long_bytes, long_roundtrip, read_half, read_long,
    read_word, signed_roundtrip, word_at, word_bytes, word_roundtrip,
};
use crate::protocol::builders::{ack_bytes, conn_info_bytes, keepalive_bytes, words_bytes};
use crate::protocol::constants::{
    NAK_RANGE_LIMIT, SRTLA_KEEPALIVE_EXT_LEN, SRTLA_KEEPALIVE_EXT_VERSION, SRTLA_KEEPALIVE_LEN,
    SRTLA_KEEPALIVE_MAGIC, SRTLA_TYPE_ACK, SRTLA_TYPE_KEEPALIVE, SRT_CONTROL_HEADER_LEN,
    SRT_HANDSHAKE_CIF_LEN, SRT_HS_EXT_CMD_HSREQ, SRT_HS_EXT_CMD_HSRSP, SRT_HS_EXT_FLAG_HSREQ,
    SRT_HS_EXT_HSREQ_WORDS, SRT_HS_OPT_TSBPDRCV, SRT_HS_OPT_TSBPDSND, SRT_HS_REQTYPE_CONCLUSION,
    SRT_HS_VERSION_5, SRT_TYPE_ACK, SRT_TYPE_HANDSHAKE, SRT_TYPE_NAK,
};
use crate::protocol::lists::{no_numbers, numbers, push_number};
use crate::protocol::types::{has_type, is_type, ConnectionInfo, SrtHandshakeLatency};
use smallvec::SmallVec;
use vstd::prelude::*;

verus! {

/// The timestamp of a keepalive.
pub open spec fn keepalive_timestamp(s: Seq<u8>) -> Option<u64> {
    if s.len() >= SRTLA_KEEPALIVE_LEN && has_type(s, SRTLA_TYPE_KEEPALIVE) {
        Some(long_at(s, 2))
    } else {
        None
    }
}

/// Whether `s` is an extended keepalive of the version in use.
pub open spec fn is_extended_keepalive(s: Seq<u8>) -> bool {
    &&& s.len() >= SRTLA_KEEPALIVE_EXT_LEN
    &&& has_type(s, SRTLA_TYPE_KEEPALIVE)
    &&& half_at(s, 10) == SRTLA_KEEPALIVE_MAGIC
    &&& half_at(s, 12) == SRTLA_KEEPALIVE_EXT_VERSION
}

/// The connection info that an extended keepalive carries.
pub open spec fn keepalive_conn_info(s: Seq<u8>) -> Option<ConnectionInfo> {
    if is_extended_keepalive(s) {
        Some(
            ConnectionInfo {
                conn_id: word_at(s, 14),
                window: word_at(s, 18) as i32,
                in_flight: word_at(s, 22) as i32,
                rtt_ms: word_at(s, 26),
                nak_count: word_at(s, 30),
                bitrate_bytes_per_sec: word_at(s, 34),
            },
        )
    } else {
        None
    }
}

/// The number up to which an SRT ACK acknowledges.
pub open spec fn ack_number(s: Seq<u8>) -> Option<u32> {
    if s.len() >= 20 && has_type(s, SRT_TYPE_ACK) {
        Some(word_at(s, 16))
    } else {
        None
    }
}

/// The whole words of `s` from byte 4 on. A rest of fewer than four bytes is
/// left out.
pub open spec fn payload_words(s: Seq<u8>) -> Seq<u32> {
    Seq::new(((s.len() - 4) / 4) as nat, |k: int| word_at(s, 4 + 4 * k))
}

/// The numbers from `first` to `last`, of which at most `room` are taken.
pub open spec fn number_range(first: u32, last: u32, room: nat) -> Seq<u32> {
    let count = if last < first {
        0
    } else {
        (last - first + 1) as nat
    };
    Seq::new(
        if count < room {
            count
        } else {
            room
        },
        |k: int| (first + k) as u32,
    )
}

/// What a list of NAK words adds to `found`: a word with a clear top bit stands
/// for itself; one with the top bit set starts a range that the next word ends,
/// and a range stops growing the list at `NAK_RANGE_LIMIT` numbers. A range
/// whose end is missing ends the list.
pub open spec fn nak_expansion(words: Seq<u32>, found: Seq<u32>) -> Seq<u32>
    decreases words.len(),
{
    if words.len() == 0 {
        found
    } else if words[0] < 0x8000_0000 {
        nak_expansion(words.skip(1), found.push(words[0]))
    } else if words.len() == 1 {
        found
    } else {
        let room = if found.len() < NAK_RANGE_LIMIT {
            (NAK_RANGE_LIMIT - found.len()) as nat
        } else {
            0
        };
        nak_expansion(
            words.skip(2),
            found + number_range((words[0] - 0x8000_0000) as u32, words[1], room),
        )
    }
}

/// The sequence numbers that an SRT NAK reports lost.
pub open spec fn nak_numbers(s: Seq<u8>) -> Seq<u32> {
    if s.len() >= 8 && has_type(s, SRT_TYPE_NAK) {
        nak_expansion(payload_words(s), Seq::empty())
    } else {
        Seq::empty()
    }
}

/// The sequence numbers that an SRTLA ACK acknowledges.
pub open spec fn srtla_ack_numbers(s: Seq<u8>) -> Seq<u32> {
    if s.len() >= 8 && has_type(s, SRTLA_TYPE_ACK) {
        payload_words(s)
    } else {
        Seq::empty()
    }
}

/// The delays declared by the extension block whose body starts at `at`.
pub open spec fn block_latency(s: Seq<u8>, at: int, cmd: u32) -> SrtHandshakeLatency {
    let flags = word_at(s, at + 4);
    let latency = word_at(s, at + 8);
    SrtHandshakeLatency {
        is_response: cmd == SRT_HS_EXT_CMD_HSRSP,
        rcv_ms: if (flags & SRT_HS_OPT_TSBPDRCV) != 0 {
            Some((latency / 0x1_0000) as u16)
        } else {
            None
        },
        snd_ms: if (flags & SRT_HS_OPT_TSBPDSND) != 0 {
            Some((latency % 0x1_0000) as u16)
        } else {
            None
        },
    }
}

/// The delays declared by the first handshake request or response among the
/// extension blocks that start at `at`. A block is one word, the command in its
/// upper half and the body's length in words in its lower half, and the body.
/// A block that runs past the packet, or a request or response that is too
/// short, ends the search.
pub open spec fn blocks_latency(s: Seq<u8>, at: int) -> Option<SrtHandshakeLatency>
    decreases s.len() - at,
{
    if s.len() - at < 4 {
        None
    } else {
        let cmd = word_at(s, at) / 0x1_0000;
        let len = (word_at(s, at) % 0x1_0000) * 4;
        if at + 4 + len > s.len() {
            None
        } else if cmd == SRT_HS_EXT_CMD_HSREQ || cmd == SRT_HS_EXT_CMD_HSRSP {
            if len < SRT_HS_EXT_HSREQ_WORDS * 4 {
                None
            } else {
                Some(block_latency(s, at + 4, cmd))
            }
        } else {
            blocks_latency(s, at + 4 + len)
        }
    }
}

/// Whether `s` is a handshake in the conclusion phase, of the version that
/// carries extension blocks, that announces a request or response block.
pub open spec fn is_conclusion_handshake(s: Seq<u8>) -> bool {
    &&& has_type(s, SRT_TYPE_HANDSHAKE)
    &&& s.len() >= SRT_CONTROL_HEADER_LEN + SRT_HANDSHAKE_CIF_LEN
    &&& word_at(s, SRT_CONTROL_HEADER_LEN as int) == SRT_HS_VERSION_5
    &&& word_at(s, SRT_CONTROL_HEADER_LEN + 20) == SRT_HS_REQTYPE_CONCLUSION
    &&& (word_at(s, SRT_CONTROL_HEADER_LEN + 4) & SRT_HS_EXT_FLAG_HSREQ) != 0
}

/// The delays that a handshake declares.
pub open spec fn handshake_latency(s: Seq<u8>) -> Option<SrtHandshakeLatency> {
    if is_conclusion_handshake(s) {
        blocks_latency(s, SRT_CONTROL_HEADER_LEN + SRT_HANDSHAKE_CIF_LEN)
    } else {
        None
    }
}

/// The big-endian word at `off`, where it fits.
fn be32(buf: &[u8], off: usize) -> (word: Option<u32>)
    ensures
        word == if off + 4 <= buf@.len() {
            Some(word_at(buf@, off as int))
        } else {
            None
        },
{
    if buf.len() >= 4 && off <= buf.len() - 4 {
        Some(read_word(buf, off))
    } else {
        None
    }
}

/// The delays that an SRT conclusion handshake declares. The far end's response
/// says how long it holds a packet before delivering it: the deadline that every
/// link has to beat.
pub fn parse_srt_handshake_latency(buf: &[u8]) -> (found: Option<SrtHandshakeLatency>)
    ensures
        found == handshake_latency(buf@),
{
    if !is_type(buf, SRT_TYPE_HANDSHAKE) || buf.len() < SRT_CONTROL_HEADER_LEN
        + SRT_HANDSHAKE_CIF_LEN {
        return None;
    }
    if read_word(buf, SRT_CONTROL_HEADER_LEN) != SRT_HS_VERSION_5 {
        return None;
    }
    if read_word(buf, SRT_CONTROL_HEADER_LEN + 20) != SRT_HS_REQTYPE_CONCLUSION {
        return None;
    }
    if (read_word(buf, SRT_CONTROL_HEADER_LEN + 4) & SRT_HS_EXT_FLAG_HSREQ) == 0 {
        return None;
    }
    let mut at: usize = SRT_CONTROL_HEADER_LEN + SRT_HANDSHAKE_CIF_LEN;
    while buf.len() - at >= 4
        invariant
            at <= buf@.len(),
            is_conclusion_handshake(buf@),
            handshake_latency(buf@) == blocks_latency(buf@, at as int),
        decreases buf@.len() - at,
    {
        let spec_word: u32 = read_word(buf, at);
        let cmd: u32 = spec_word / 0x1_0000;
        let block_len: usize = ((spec_word % 0x1_0000) * 4) as usize;
        if buf.len() - at - 4 < block_len {
            return None;
        }
        if cmd == SRT_HS_EXT_CMD_HSREQ as u32 || cmd == SRT_HS_EXT_CMD_HSRSP as u32 {
            if block_len < SRT_HS_EXT_HSREQ_WORDS * 4 {
                return None;
            }
            let flags: u32 = read_word(buf, at + 8);
            let latency: u32 = read_word(buf, at + 12);
            let rcv_ms: Option<u16> = if (flags & SRT_HS_OPT_TSBPDRCV) != 0 {
                Some((latency / 0x1_0000) as u16)
            } else {
                None
            };
            let snd_ms: Option<u16> = if (flags & SRT_HS_OPT_TSBPDSND) != 0 {
                Some((latency % 0x1_0000) as u16)
            } else {
                None
            };
            return Some(
                SrtHandshakeLatency {
                    is_response: cmd == SRT_HS_EXT_CMD_HSRSP as u32,
                    rcv_ms,
                    snd_ms,
                },
            );
        }
        at = at + 4 + block_len;
    }
    None
}

/// The timestamp of a keepalive.
pub fn extract_keepalive_timestamp(buf: &[u8]) -> (ts: Option<u64>)
    ensures
        ts == keepalive_timestamp(buf@),
{
    if buf.len() < SRTLA_KEEPALIVE_LEN || !is_type(buf, SRTLA_TYPE_KEEPALIVE) {
        return None;
    }
    Some(read_long(buf, 2))
}

/// The connection info that an extended keepalive carries; none where the packet
/// is too short, of another type, or has another magic number or version.
pub fn extract_keepalive_conn_info(buf: &[u8]) -> (info: Option<ConnectionInfo>)
    ensures
        info == keepalive_conn_info(buf@),
{
    if buf.len() < SRTLA_KEEPALIVE_EXT_LEN || !is_type(buf, SRTLA_TYPE_KEEPALIVE) {
        return None;
    }
    if read_half(buf, 10) != SRTLA_KEEPALIVE_MAGIC {
        return None;
    }
    if read_half(buf, 12) != SRTLA_KEEPALIVE_EXT_VERSION {
        return None;
    }
    Some(
        ConnectionInfo {
            conn_id: read_word(buf, 14),
            window: read_word(buf, 18) as i32,
            in_flight: read_word(buf, 22) as i32,
            rtt_ms: read_word(buf, 26),
            nak_count: read_word(buf, 30),
            bitrate_bytes_per_sec: read_word(buf, 34),
        },
    )
}

/// The number up to which an SRT ACK acknowledges.
pub fn parse_srt_ack(buf: &[u8]) -> (ack: Option<u32>)
    ensures
        ack == ack_number(buf@),
{
    if buf.len() < 20 || !is_type(buf, SRT_TYPE_ACK) {
        return None;
    }
    be32(buf, 16)
}

/// The sequence numbers that an SRT NAK reports lost, in order.
pub fn parse_srt_nak(buf: &[u8]) -> (out: SmallVec<u32, 4>)
    ensures
        numbers(&out) == nak_numbers(buf@),
{
    let mut out: SmallVec<u32, 4> = no_numbers();
    if buf.len() < 8 || !is_type(buf, SRT_TYPE_NAK) {
        return out;
    }
    let ghost words = payload_words(buf@);
    let mut count: usize = 0;
    let mut i: usize = 4;
    assert(words.skip(0) =~= words);
    while buf.len() - i >= 4
        invariant
            4 <= i <= buf@.len(),
            words == payload_words(buf@),
            (i - 4) % 4 == 0,
            (i - 4) / 4 <= words.len(),
            count == numbers(&out).len(),
            count <= (i - 4) / 4 + 1000,
            nak_expansion(words, Seq::empty()) == nak_expansion(
                words.skip((i - 4) / 4),
                numbers(&out),
            ),
        ensures
            numbers(&out) == nak_expansion(words, Seq::empty()),
        decreases buf@.len() - i,
    {
        let ghost k = (i - 4) / 4;
        let ghost rest = words.skip(k);
        let id: u32 = read_word(buf, i);
        assert(i == 4 + 4 * k);
        assert(k < words.len());
        assert(rest[0] == id);
        i += 4;
        if id >= 0x8000_0000 {
            if buf.len() - i < 4 {
                assert(rest.len() == 1);
                break;
            }
            let end: u32 = read_word(buf, i);
            assert(rest[1] == end);
            assert(rest.skip(2) =~= words.skip(k + 2));
            i += 4;
            let first: u32 = id - 0x8000_0000;
            let ghost base = numbers(&out);
            let ghost room: nat = if base.len() < NAK_RANGE_LIMIT {
                (NAK_RANGE_LIMIT - base.len()) as nat
            } else {
                0
            };
            let ghost whole = number_range(first, end, room);
            let mut seq: u32 = first;
            assert(whole.take(0) =~= Seq::<u32>::empty());
            assert(numbers(&out) =~= base + whole.take(0));
            while seq <= end && count < NAK_RANGE_LIMIT
                invariant
                    first < 0x8000_0000,
                    first <= seq <= first + 1000,
                    seq - first <= whole.len(),
                    whole == number_range(first, end, room),
                    room == if base.len() < NAK_RANGE_LIMIT {
                        (NAK_RANGE_LIMIT - base.len()) as nat
                    } else {
                        0
                    },
                    count == numbers(&out).len(),
                    count <= 1000 || count == base.len(),
                    numbers(&out) == base + whole.take(seq - first),
                decreases NAK_RANGE_LIMIT - count,
            {
                let ghost n = seq - first;
                assert(n < whole.len());
                assert(whole.take(n + 1) =~= whole.take(n).push(whole[n]));
                push_number(&mut out, seq);
                count += 1;
                assert(numbers(&out) =~= base + whole.take(n + 1));
                seq += 1;
            }
            assert(seq - first == whole.len());
            assert(whole.take(whole.len() as int) =~= whole);
        } else {
            assert(rest.skip(1) =~= words.skip(k + 1));
            push_number(&mut out, id);
            count += 1;
        }
    }
    assert(words.skip(words.len() as int).len() == 0);
    out
}

/// The sequence numbers that an SRTLA ACK acknowledges, in order.
pub fn parse_srtla_ack(buf: &[u8]) -> (out: SmallVec<u32, 4>)
    ensures
        numbers(&out) == srtla_ack_numbers(buf@),
{
    let mut out: SmallVec<u32, 4> = no_numbers();
    if buf.len() < 8 || !is_type(buf, SRTLA_TYPE_ACK) {
        return out;
    }
    let ghost words = payload_words(buf@);
    let mut i: usize = 4;
    while buf.len() - i >= 4
        invariant
            4 <= i <= buf@.len(),
            words == payload_words(buf@),
            (i - 4) % 4 == 0,
            numbers(&out) == words.take((i - 4) / 4),
        decreases buf@.len() - i,
    {
        let ghost k = (i - 4) / 4;
        assert(i == 4 + 4 * k);
        push_number(&mut out, read_word(buf, i));
        i += 4;
        assert(words.take(k + 1) =~= words.take(k).push(words[k]));
    }
    assert(words.take(words.len() as int) =~= words);
    out
}

/// A plain keepalive gives back its timestamp and carries no connection info.
pub proof fn keepalive_roundtrip(timestamp_ms: u64)
    ensures
        keepalive_timestamp(keepalive_bytes(timestamp_ms)) == Some(timestamp_ms),
        keepalive_conn_info(keepalive_bytes(timestamp_ms)) is None,
{
    let s = keepalive_bytes(timestamp_ms);
    assert(s.subrange(0, 2) =~= half_bytes(SRTLA_TYPE_KEEPALIVE));
    assert(s.subrange(2, 10) =~= long_bytes(timestamp_ms));
    half_roundtrip(s, 0, SRTLA_TYPE_KEEPALIVE);
    long_roundtrip(s, 2, timestamp_ms);
}

/// An extended keepalive gives back its timestamp, which it holds where the
/// plain one does, and its connection info.
pub proof fn extended_keepalive_roundtrip(timestamp_ms: u64, info: ConnectionInfo)
    ensures
        keepalive_timestamp(keepalive_bytes(timestamp_ms) + conn_info_bytes(info)) == Some(
            timestamp_ms,
        ),
        keepalive_conn_info(keepalive_bytes(timestamp_ms) + conn_info_bytes(info)) == Some(info),
{
    let s = keepalive_bytes(timestamp_ms) + conn_info_bytes(info);
    assert(s.subrange(0, 2) =~= half_bytes(SRTLA_TYPE_KEEPALIVE));
    assert(s.subrange(2, 10) =~= long_bytes(timestamp_ms));
    assert(s.subrange(10, 12) =~= half_bytes(SRTLA_KEEPALIVE_MAGIC));
    assert(s.subrange(12, 14) =~= half_bytes(SRTLA_KEEPALIVE_EXT_VERSION));
    assert(s.subrange(14, 18) =~= word_bytes(info.conn_id));
    assert(s.subrange(18, 22) =~= word_bytes(info.window as u32));
    assert(s.subrange(22, 26) =~= word_bytes(info.in_flight as u32));
    assert(s.subrange(26, 30) =~= word_bytes(info.rtt_ms));
    assert(s.subrange(30, 34) =~= word_bytes(info.nak_count));
    assert(s.subrange(34, 38) =~= word_bytes(info.bitrate_bytes_per_sec));
    half_roundtrip(s, 0, SRTLA_TYPE_KEEPALIVE);
    long_roundtrip(s, 2, timestamp_ms);
    half_roundtrip(s, 10, SRTLA_KEEPALIVE_MAGIC);
    half_roundtrip(s, 12, SRTLA_KEEPALIVE_EXT_VERSION);
    word_roundtrip(s, 14, info.conn_id);
    word_roundtrip(s, 18, info.window as u32);
    word_roundtrip(s, 22, info.in_flight as u32);
    word_roundtrip(s, 26, info.rtt_ms);
    word_roundtrip(s, 30, info.nak_count);
    word_roundtrip(s, 34, info.bitrate_bytes_per_sec);
    signed_roundtrip(info.window);
    signed_roundtrip(info.in_flight);
}

proof fn words_bytes_len(words: Seq<u32>)
    ensures
        words_bytes(words).len() == 4 * words.len(),
    decreases words.len(),
{
    if words.len() > 0 {
        words_bytes_len(words.drop_last());
    }
}

proof fn words_bytes_at(words: Seq<u32>, k: int)
    requires
        0 <= k < words.len(),
    ensures
        words_bytes(words).len() == 4 * words.len(),
        words_bytes(words).subrange(4 * k, 4 * k + 4) == word_bytes(words[k]),
    decreases words.len(),
{
    words_bytes_len(words);
    words_bytes_len(words.drop_last());
    let front = words_bytes(words.drop_last());
    let all = words_bytes(words);
    if k == words.len() - 1 {
        assert(all.subrange(4 * k, 4 * k + 4) =~= word_bytes(words[k]));
    } else {
        words_bytes_at(words.drop_last(), k);
        assert(all.subrange(4 * k, 4 * k + 4) =~= front.subrange(4 * k, 4 * k + 4));
    }
}

/// An SRTLA ACK gives back the numbers it was built from, in order.
pub proof fn srtla_ack_roundtrip(acks: Seq<u32>)
    ensures
        srtla_ack_numbers(ack_bytes(acks)) == acks,
{
    let s = ack_bytes(acks);
    words_bytes_len(acks);
    assert(s.subrange(0, 2) =~= half_bytes(SRTLA_TYPE_ACK));
    half_roundtrip(s, 0, SRTLA_TYPE_ACK);
    assert forall|k: int| 0 <= k < acks.len() implies #[trigger] word_at(s, 4 + 4 * k)
        == acks[k] by {
        words_bytes_at(acks, k);
        let at = 4 + 4 * k;
        assert(s.subrange(at, at + 4) =~= words_bytes(acks).subrange(4 * k, 4 * k + 4));
        word_roundtrip(s, at, acks[k]);
    }
    if acks.len() > 0 {
        assert(payload_words(s) =~= acks);
    }
    assert(srtla_ack_numbers(s) =~= acks);
}

/// An entry of a loss list: one number, or the numbers from the first to the last.
pub enum NakEntry {
    One(u32),
    Range(u32, u32),
}

/// Whether an entry can be told from the other kind: its first number has its top bit
/// clear, and a range does not run backwards.
pub open spec fn is_entry(e: NakEntry) -> bool {
    match e {
        NakEntry::One(n) => n < 0x8000_0000,
        NakEntry::Range(first, last) => first < 0x8000_0000 && first <= last,
    }
}

/// The words that stand for a loss list: a number as it is; a range as its first number
/// with the top bit set, and its last.
pub open spec fn list_words(entries: Seq<NakEntry>) -> Seq<u32>
    decreases entries.len(),
{
    if entries.len() == 0 {
        Seq::empty()
    } else {
        (match entries[0] {
            NakEntry::One(n) => seq![n],
            NakEntry::Range(first, last) => seq![(first + 0x8000_0000) as u32, last],
        }) + list_words(entries.skip(1))
    }
}

/// The numbers that a loss list names, in order.
pub open spec fn list_numbers(entries: Seq<NakEntry>) -> Seq<u32>
    decreases entries.len(),
{
    if entries.len() == 0 {
        Seq::empty()
    } else {
        (match entries[0] {
            NakEntry::One(n) => seq![n],
            NakEntry::Range(first, last) => Seq::new(
                (last - first + 1) as nat,
                |k: int| (first + k) as u32,
            ),
        }) + list_numbers(entries.skip(1))
    }
}

/// An SRT NAK with the given loss list.
pub open spec fn nak_bytes(entries: Seq<NakEntry>) -> Seq<u8> {
    half_bytes(0x8003) + seq![0u8, 0u8] + words_bytes(list_words(entries))
}

proof fn payload_of_words(s: Seq<u8>, words: Seq<u32>)
    requires
        s.len() == 4 + 4 * words.len(),
        s.skip(4) == words_bytes(words),
        words.len() > 0,
    ensures
        payload_words(s) == words,
{
    words_bytes_len(words);
    assert forall|k: int| 0 <= k < words.len() implies #[trigger] word_at(s, 4 + 4 * k)
        == words[k] by {
        words_bytes_at(words, k);
        let at = 4 + 4 * k;
        assert(s.subrange(at, at + 4) =~= words_bytes(words).subrange(4 * k, 4 * k + 4));
        word_roundtrip(s, at, words[k]);
    }
    assert(payload_words(s) =~= words);
}

/// Entries are read one after the other: what follows a list adds to what the list
/// gave. A range is expanded wherever it stands.
pub proof fn entries_are_read_in_order(entries: Seq<NakEntry>, rest: Seq<u32>, found: Seq<u32>)
    requires
        forall|i: int| 0 <= i < entries.len() ==> is_entry(#[trigger] entries[i]),
        found.len() + list_numbers(entries).len() <= 1000,
    ensures
        nak_expansion(list_words(entries) + rest, found) == nak_expansion(
            rest,
            found + list_numbers(entries),
        ),
    decreases entries.len(),
{
    if entries.len() == 0 {
        assert(list_words(entries) + rest =~= rest);
        assert(found + list_numbers(entries) =~= found);
    } else {
        let more = entries.skip(1);
        let words = list_words(entries) + rest;
        assert forall|i: int| 0 <= i < more.len() implies is_entry(#[trigger] more[i]) by {
            assert(is_entry(entries[i + 1]));
        }
        assert(is_entry(entries[0]));
        match entries[0] {
            NakEntry::One(n) => {
                assert(words[0] == n);
                assert(words.skip(1) =~= list_words(more) + rest);
                assert(found + list_numbers(entries) =~= found.push(n) + list_numbers(more));
                entries_are_read_in_order(more, rest, found.push(n));
            },
            NakEntry::Range(first, last) => {
                let own = Seq::new((last - first + 1) as nat, |k: int| (first + k) as u32);
                assert(words[0] == first + 0x8000_0000);
                assert(words[1] == last);
                assert(words.len() >= 2);
                assert(words.skip(2) =~= list_words(more) + rest);
                let room = (NAK_RANGE_LIMIT - found.len()) as nat;
                assert(number_range(first, last, room) =~= own);
                assert(found + list_numbers(entries) =~= (found + own) + list_numbers(more));
                entries_are_read_in_order(more, rest, found + own);
            },
        }
    }
}

proof fn nak_words_are_read(entries: Seq<NakEntry>)
    ensures
        list_words(entries).len() > 0 ==> nak_numbers(nak_bytes(entries)) == nak_expansion(
            list_words(entries),
            Seq::empty(),
        ),
        list_words(entries).len() == 0 ==> nak_numbers(nak_bytes(entries)) == Seq::<u32>::empty(),
{
    let s = nak_bytes(entries);
    let words = list_words(entries);
    words_bytes_len(words);
    assert(s.subrange(0, 2) =~= half_bytes(0x8003));
    half_roundtrip(s, 0, 0x8003);
    assert(s.skip(4) =~= words_bytes(words));
    if words.len() > 0 {
        payload_of_words(s, words);
    }
}

/// A NAK gives back the numbers of its loss list, each range expanded, in order, as
/// long as they are no more than 1000.
pub proof fn nak_roundtrip(entries: Seq<NakEntry>)
    requires
        forall|i: int| 0 <= i < entries.len() ==> is_entry(#[trigger] entries[i]),
        list_numbers(entries).len() <= 1000,
    ensures
        nak_numbers(nak_bytes(entries)) == list_numbers(entries),
{
    let words = list_words(entries);
    nak_words_are_read(entries);
    entries_are_read_in_order(entries, Seq::empty(), Seq::empty());
    assert(words + Seq::<u32>::empty() =~= words);
    assert(Seq::<u32>::empty() + list_numbers(entries) =~= list_numbers(entries));
    if words.len() == 0 {
        assert(entries.len() == 0);
        assert(list_numbers(entries) =~= Seq::<u32>::empty());
    }
}

/// A range that is too long gives its first 1000 numbers, and what follows it still
/// gives its single numbers.
pub proof fn long_range_is_cut(first: u32, last: u32, after: u32)
    requires
        first < 0x8000_0000,
        last - first >= 1000,
        after < 0x8000_0000,
    ensures
        nak_numbers(nak_bytes(seq![NakEntry::Range(first, last), NakEntry::One(after)]))
            == Seq::new(1000, |k: int| (first + k) as u32).push(after),
{
    let entries = seq![NakEntry::Range(first, last), NakEntry::One(after)];
    let words = list_words(entries);
    let rest = entries.skip(1);
    assert(rest =~= seq![NakEntry::One(after)]);
    assert(rest.skip(1) =~= Seq::<NakEntry>::empty());
    assert(list_words(rest.skip(1)) =~= Seq::<u32>::empty());
    assert(list_words(rest) =~= seq![after]);
    assert(words =~= seq![(first + 0x8000_0000) as u32, last, after]);
    nak_words_are_read(entries);
    let cut = Seq::new(1000, |k: int| (first + k) as u32);
    assert(number_range(first, last, 1000) =~= cut);
    assert(Seq::<u32>::empty() + cut =~= cut);
    assert(words.skip(2) =~= seq![after]);
    let one = seq![after];
    assert(one.skip(1) =~= Seq::<u32>::empty());
    assert(nak_expansion(one.skip(1), cut.push(after)) == cut.push(after));
    assert(nak_expansion(one, cut) == cut.push(after));
    assert(words[0] >= 0x8000_0000 && words.len() == 3);
    assert(nak_expansion(words, Seq::empty()) == nak_expansion(
        words.skip(2),
        Seq::<u32>::empty() + number_range(
            (words[0] - 0x8000_0000) as u32,
            words[1],
            1000,
        ),
    ));
}

/// A range whose end is missing is left out; what stands before it is read.
pub proof fn open_range_is_left_out(entries: Seq<NakEntry>, first: u32)
    requires
        forall|i: int| 0 <= i < entries.len() ==> is_entry(#[trigger] entries[i]),
        list_numbers(entries).len() <= 1000,
        first >= 0x8000_0000,
    ensures
        nak_expansion(list_words(entries) + seq![first], Seq::empty()) == list_numbers(entries),
{
    entries_are_read_in_order(entries, seq![first], Seq::empty());
    assert(Seq::<u32>::empty() + list_numbers(entries) =~= list_numbers(entries));
}

/// Only a NAK reports losses, and only an SRTLA ACK acknowledges single packets.
pub proof fn other_packets_report_nothing(s: Seq<u8>)
    ensures
        s.len() < 8 || s[0] != 0x80 || s[1] != 0x03 ==> nak_numbers(s) == Seq::<u32>::empty(),
        s.len() < 8 || s[0] != 0x91 || s[1] != 0x00 ==> srtla_ack_numbers(s)
            == Seq::<u32>::empty(),
        s.len() < 20 || s[0] != 0x80 || s[1] != 0x02 ==> ack_number(s) is None,
        s.len() < 10 || s[0] != 0x90 || s[1] != 0x00 ==> keepalive_timestamp(s) is None,
{
}

/// An SRT ACK gives back the number that stands behind its header.
pub proof fn srt_ack_roundtrip(header: Seq<u8>, number: u32, rest: Seq<u8>)
    requires
        header.len() == 14,
    ensures
        ack_number(half_bytes(0x8002) + header + word_bytes(number) + rest) == Some(number),
{
    let s = half_bytes(0x8002) + header + word_bytes(number) + rest;
    assert(s.subrange(0, 2) =~= half_bytes(0x8002));
    assert(s.subrange(16, 20) =~= word_bytes(number));
    half_roundtrip(s, 0, 0x8002);
    word_roundtrip(s, 16, number);
}

/// A conclusion handshake gives back the delays of its first block, where that is a
/// request or a response: the receiver's and the sender's, each where its flag is set.
pub proof fn handshake_roundtrip(
    s: Seq<u8>,
    extension: u32,
    cmd: u16,
    words: u16,
    flags: u32,
    rcv: u16,
    snd: u16,
)
    requires
        s.len() >= 68 + 4 * words,
        3 <= words,
        s.subrange(0, 2) == half_bytes(0x8000),
        s.subrange(16, 20) == word_bytes(5),
        s.subrange(20, 24) == word_bytes(extension),
        extension % 2 == 1,
        s.subrange(36, 40) == word_bytes(0xffff_ffff),
        s.subrange(64, 68) == word_bytes((cmd * 0x1_0000 + words) as u32),
        cmd == 1 || cmd == 2,
        s.subrange(72, 76) == word_bytes(flags),
        s.subrange(76, 80) == word_bytes((rcv * 0x1_0000 + snd) as u32),
    ensures
        handshake_latency(s) == Some(
            SrtHandshakeLatency {
                is_response: cmd == 2,
                rcv_ms: if (flags / 2) % 2 == 1 {
                    Some(rcv)
                } else {
                    None
                },
                snd_ms: if flags % 2 == 1 {
                    Some(snd)
                } else {
                    None
                },
            },
        ),
{
    half_roundtrip(s, 0, 0x8000);
    word_roundtrip(s, 16, 5);
    word_roundtrip(s, 20, extension);
    word_roundtrip(s, 36, 0xffff_ffff);
    word_roundtrip(s, 64, (cmd * 0x1_0000 + words) as u32);
    word_roundtrip(s, 72, flags);
    word_roundtrip(s, 76, (rcv * 0x1_0000 + snd) as u32);
    assert((extension & 1u32) == extension % 2) by (bit_vector);
    assert((flags & 1u32) == flags % 2) by (bit_vector);
    assert(((flags & 2u32) != 0) == ((flags / 2) % 2 == 1)) by (bit_vector);
}

/// A block with another command is stepped over, with as many words as it says.
pub proof fn other_block_is_stepped_over(s: Seq<u8>, at: int, cmd: u16, words: u16)
    requires
        0 <= at,
        at + 4 + 4 * words <= s.len(),
        s.subrange(at, at + 4) == word_bytes((cmd * 0x1_0000 + words) as u32),
        cmd != 1 && cmd != 2,
    ensures
        blocks_latency(s, at) == blocks_latency(s, at + 4 + 4 * words),
{
    let head = (cmd * 0x1_0000 + words) as u32;
    word_roundtrip(s, at, head);
    assert(head / 0x1_0000 == cmd && head % 0x1_0000 == words);
    assert(word_at(s, at) == head);
    assert(s.len() - at >= 4);
}

/// No other packet declares delays: not one of another type or too short, not one of
/// another version or phase, and not one that announces no block.
pub proof fn other_packets_declare_no_delay(s: Seq<u8>)
    requires
        s.len() < 64 || s[0] != 0x80 || s[1] != 0 || word_at(s, 16) != 5 || word_at(s, 36)
            != 0xffff_ffff || word_at(s, 20) % 2 == 0,
    ensures
        handshake_latency(s) is None,
{
    let extension = word_at(s, 20);
    assert((extension & 1u32) == extension % 2) by (bit_vector);
}

} // verus!
