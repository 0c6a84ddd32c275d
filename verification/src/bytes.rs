//! Big-endian integers inside byte strings.

use vstd::prelude::*;

verus! {

/// The two bytes of `s` at `i`, read as a big-endian number.
pub open spec fn half_at(s: Seq<u8>, i: int) -> u16 {
    (s[i] * 0x100 + s[i + 1]) as u16
}

/// The four bytes of `s` at `i`, read as a big-endian number.
pub open spec fn word_at(s: Seq<u8>, i: int) -> u32 {
    (s[i] * 0x100_0000 + s[i + 1] * 0x1_0000 + s[i + 2] * 0x100 + s[i + 3]) as u32
}

/// The eight bytes of `s` at `i`, read as a big-endian number.
pub open spec fn long_at(s: Seq<u8>, i: int) -> u64 {
    (word_at(s, i) * 0x1_0000_0000 + word_at(s, i + 4)) as u64
}

/// The big-endian encoding of a 16-bit number.
pub open spec fn half_bytes(v: u16) -> Seq<u8> {
    seq![(v / 0x100) as u8, (v % 0x100) as u8]
}

/// The big-endian encoding of a 32-bit number.
pub open spec fn word_bytes(v: u32) -> Seq<u8> {
    seq![
        (v / 0x100_0000) as u8,
        ((v / 0x1_0000) % 0x100) as u8,
        ((v / 0x100) % 0x100) as u8,
        (v % 0x100) as u8,
    ]
}

/// The big-endian encoding of a 64-bit number.
pub open spec fn long_bytes(v: u64) -> Seq<u8> {
    word_bytes((v / 0x1_0000_0000) as u32) + word_bytes((v % 0x1_0000_0000) as u32)
}

/// Reading an encoded 16-bit number gives it back, wherever it stands.
pub proof fn half_roundtrip(s: Seq<u8>, i: int, v: u16)
    requires
        0 <= i,
        i + 2 <= s.len(),
        s.subrange(i, i + 2) == half_bytes(v),
    ensures
        half_at(s, i) == v,
{
    let t = s.subrange(i, i + 2);
    assert(t[0] == s[i] && t[1] == s[i + 1]);
}

/// Reading an encoded 32-bit number gives it back, wherever it stands.
pub proof fn word_roundtrip(s: Seq<u8>, i: int, v: u32)
    requires
        0 <= i,
        i + 4 <= s.len(),
        s.subrange(i, i + 4) == word_bytes(v),
    ensures
        word_at(s, i) == v,
{
    let t = s.subrange(i, i + 4);
    assert(t[0] == s[i] && t[1] == s[i + 1] && t[2] == s[i + 2] && t[3] == s[i + 3]);
}

/// Reading an encoded 64-bit number gives it back, wherever it stands.
pub proof fn long_roundtrip(s: Seq<u8>, i: int, v: u64)
    requires
        0 <= i,
        i + 8 <= s.len(),
        s.subrange(i, i + 8) == long_bytes(v),
    ensures
        long_at(s, i) == v,
{
    let hi = (v / 0x1_0000_0000) as u32;
    let lo = (v % 0x1_0000_0000) as u32;
    assert(s.subrange(i, i + 4) =~= s.subrange(i, i + 8).subrange(0, 4));
    assert(s.subrange(i + 4, i + 8) =~= s.subrange(i, i + 8).subrange(4, 8));
    assert(long_bytes(v).subrange(0, 4) =~= word_bytes(hi));
    assert(long_bytes(v).subrange(4, 8) =~= word_bytes(lo));
    word_roundtrip(s, i, hi);
    word_roundtrip(s, i + 4, lo);
}

/// A signed number survives being carried as an unsigned one.
pub proof fn signed_roundtrip(v: i32)
    ensures
        (v as u32) as i32 == v,
{
    assert((v as u32) as i32 == v) by (bit_vector);
}

/// Reads a big-endian 16-bit number.
pub fn read_half(buf: &[u8], at: usize) -> (v: u16)
    requires
        at + 2 <= buf@.len(),
    ensures
        v == half_at(buf@, at as int),
{
    (buf[at] as u16) * 0x100 + (buf[at + 1] as u16)
}

/// Reads a big-endian 32-bit number.
pub fn read_word(buf: &[u8], at: usize) -> (v: u32)
    requires
        at + 4 <= buf@.len(),
    ensures
        v == word_at(buf@, at as int),
{
    (buf[at] as u32) * 0x100_0000 + (buf[at + 1] as u32) * 0x1_0000 + (buf[at + 2] as u32) * 0x100
        + (buf[at + 3] as u32)
}

/// Reads a big-endian 64-bit number.
pub fn read_long(buf: &[u8], at: usize) -> (v: u64)
    requires
        at + 8 <= buf@.len(),
    ensures
        v == long_at(buf@, at as int),
{
    let end: usize = buf.len();
    assert(at + 4 <= end);
    (read_word(buf, at) as u64) * 0x1_0000_0000 + (read_word(buf, at + 4) as u64)
}

/// Writes a big-endian 16-bit number over the bytes at `at`.
pub fn put_half(buf: &mut [u8], at: usize, v: u16)
    requires
        at + 2 <= old(buf)@.len(),
    ensures
        final(buf)@ == old(buf)@.take(at as int) + half_bytes(v) + old(buf)@.skip(at + 2),
{
    buf[at] = (v / 0x100) as u8;
    buf[at + 1] = (v % 0x100) as u8;
    assert(buf@ =~= old(buf)@.take(at as int) + half_bytes(v) + old(buf)@.skip(at + 2));
}

/// Writes a big-endian 32-bit number over the bytes at `at`.
pub fn put_word(buf: &mut [u8], at: usize, v: u32)
    requires
        at + 4 <= old(buf)@.len(),
    ensures
        final(buf)@ == old(buf)@.take(at as int) + word_bytes(v) + old(buf)@.skip(at + 4),
{
    buf[at] = (v / 0x100_0000) as u8;
    buf[at + 1] = ((v / 0x1_0000) % 0x100) as u8;
    buf[at + 2] = ((v / 0x100) % 0x100) as u8;
    buf[at + 3] = (v % 0x100) as u8;
    assert(buf@ =~= old(buf)@.take(at as int) + word_bytes(v) + old(buf)@.skip(at + 4));
}

/// Writes a big-endian 64-bit number over the bytes at `at`.
pub fn put_long(buf: &mut [u8], at: usize, v: u64)
    requires
        at + 8 <= old(buf)@.len(),
    ensures
        final(buf)@ == old(buf)@.take(at as int) + long_bytes(v) + old(buf)@.skip(at + 8),
{
    let end: usize = buf.len();
    assert(at + 4 <= end);
    put_word(buf, at, (v / 0x1_0000_0000) as u32);
    put_word(buf, at + 4, (v % 0x1_0000_0000) as u32);
    assert(buf@ =~= old(buf)@.take(at as int) + long_bytes(v) + old(buf)@.skip(at + 8));
}

/// Numbers are read and written with the highest byte first.
pub proof fn highest_byte_comes_first(s: Seq<u8>, i: int)
    requires
        0 <= i,
        i + 8 <= s.len(),
    ensures
        half_at(s, i) == s[i] * 256 + s[i + 1],
        word_at(s, i) == half_at(s, i) * 65536 + half_at(s, i + 2),
        long_at(s, i) == word_at(s, i) * 4294967296 + word_at(s, i + 4),
        half_bytes(half_at(s, i)) == s.subrange(i, i + 2),
        word_bytes(word_at(s, i)) == s.subrange(i, i + 4),
{
    assert(half_bytes(half_at(s, i)) =~= s.subrange(i, i + 2));
    assert(word_bytes(word_at(s, i)) =~= s.subrange(i, i + 4));
}

} // verus!
