//! The log of packets in flight on a link: sequence number to send time.

use rustc_hash::FxHashMap;
use vstd::prelude::*;

verus! {

/// The hasher builder of `rustc_hash`.
#[verifier::external_type_specification]
#[verifier::external_body]
pub struct ExFxBuildHasher(rustc_hash::FxBuildHasher);

/// What a map of `rustc_hash` holds.
pub uninterp spec fn log_entries(map: &FxHashMap<i32, u64>) -> Map<i32, u64>;

/// A log with nothing in it.
pub open spec fn no_entries() -> Map<i32, u64> {
    Map::empty()
}

/// Packets for which a log may set room aside at once.
pub const MAX_CAPACITY: usize = 0x10_0000;

/// `FxHashMap::with_capacity_and_hasher`: a map with nothing in it. A capacity whose
/// size in bytes does not fit its type would panic.
#[verifier::external_body]
fn empty_map(capacity: usize) -> (map: FxHashMap<i32, u64>)
    requires
        capacity <= MAX_CAPACITY,
    ensures
        log_entries(&map) == no_entries(),
{
    FxHashMap::with_capacity_and_hasher(capacity, Default::default())
}

/// `FxHashMap::insert`: the key is mapped to the value; other keys stay as they
/// were.
#[verifier::external_body]
fn map_insert(map: &mut FxHashMap<i32, u64>, key: i32, value: u64)
    ensures
        log_entries(final(map)) == log_entries(old(map)).insert(key, value),
{
    map.insert(key, value);
}

/// `FxHashMap::remove`: the key is gone, and its value is returned if it had
/// one.
#[verifier::external_body]
fn map_remove(map: &mut FxHashMap<i32, u64>, key: i32) -> (value: Option<u64>)
    ensures
        log_entries(final(map)) == log_entries(old(map)).remove(key),
        value == if log_entries(old(map)).contains_key(key) {
            Some(log_entries(old(map))[key])
        } else {
            None
        },
{
    map.remove(&key)
}

/// `FxHashMap::get`: a copy of the key's value, if it has one.
#[verifier::external_body]
fn map_get(map: &FxHashMap<i32, u64>, key: i32) -> (value: Option<u64>)
    ensures
        value == if log_entries(map).contains_key(key) {
            Some(log_entries(map)[key])
        } else {
            None
        },
{
    map.get(&key).copied()
}

/// `FxHashMap::len`: the number of keys.
#[verifier::external_body]
fn map_len(map: &FxHashMap<i32, u64>) -> (len: usize)
    ensures
        len == log_entries(map).len(),
{
    map.len()
}

/// `FxHashMap::clear`: no key is left.
#[verifier::external_body]
fn map_clear(map: &mut FxHashMap<i32, u64>)
    ensures
        log_entries(final(map)) == no_entries(),
{
    map.clear();
}

/// `FxHashMap::retain` with [`lies_after`]: the keys above `mark` stay, with
/// their values.
#[verifier::external_body]
fn map_retain_after(map: &mut FxHashMap<i32, u64>, mark: i32)
    ensures
        log_entries(final(map)) == log_entries(old(map)).remove_keys(up_to(i32::MIN as int, mark as int)),
{
    map.retain(|key, _| lies_after(*key, mark));
}

/// The sequence numbers from `low` to `high`.
pub open spec fn up_to(low: int, high: int) -> Set<i32> {
    Set::new(|seq: i32| low <= seq <= high)
}

/// Whether a sequence number is above `mark`.
fn lies_after(seq: i32, mark: i32) -> (r: bool)
    ensures
        r == (seq > mark),
{
    seq > mark
}

/// Packets in flight: sequence number to the time they were sent.
pub struct PacketLog {
    map: FxHashMap<i32, u64>,
}

impl View for PacketLog {
    type V = Map<i32, u64>;

    closed spec fn view(&self) -> Map<i32, u64> {
        log_entries(&self.map)
    }
}

impl PacketLog {
    /// An empty log with room for `capacity` packets.
    pub fn with_capacity(capacity: usize) -> (log: Self)
        requires
            capacity <= MAX_CAPACITY,
        ensures
            log@ == no_entries(),
    {
        PacketLog { map: empty_map(capacity) }
    }

    /// Logs a packet; one logged before under the same number is replaced.
    pub fn insert(&mut self, seq: i32, sent_ms: u64)
        ensures
            final(self)@ == old(self)@.insert(seq, sent_ms),
    {
        map_insert(&mut self.map, seq, sent_ms);
    }

    /// Takes a packet out of the log; its send time, if it was in it.
    pub fn remove(&mut self, seq: i32) -> (sent_ms: Option<u64>)
        ensures
            final(self)@ == old(self)@.remove(seq),
            sent_ms == if old(self)@.contains_key(seq) {
                Some(old(self)@[seq])
            } else {
                None
            },
    {
        map_remove(&mut self.map, seq)
    }

    /// The send time of a packet in the log.
    pub fn get(&self, seq: i32) -> (sent_ms: Option<u64>)
        ensures
            sent_ms == if self@.contains_key(seq) {
                Some(self@[seq])
            } else {
                None
            },
    {
        map_get(&self.map, seq)
    }

    /// How many packets are in the log.
    pub fn len(&self) -> (len: usize)
        ensures
            len == self@.len(),
    {
        map_len(&self.map)
    }

    /// Empties the log.
    pub fn clear(&mut self)
        ensures
            final(self)@ == no_entries(),
    {
        map_clear(&mut self.map);
    }

    /// Keeps only the packets above `mark`.
    pub fn retain_after(&mut self, mark: i32)
        ensures
            final(self)@ == old(self)@.remove_keys(up_to(i32::MIN as int, mark as int)),
    {
        map_retain_after(&mut self.map, mark);
    }

    /// Takes out the packets above `low`, up to and including `high`.
    pub fn remove_range(&mut self, low: i32, high: i32)
        requires
            low <= high,
        ensures
            final(self)@ == old(self)@.remove_keys(up_to(low + 1, high as int)),
    {
        let mut seq: i32 = low;
        assert(self@ =~= old(self)@.remove_keys(up_to(low + 1, low as int)));
        while seq < high
            invariant
                low <= seq <= high,
                self@ == old(self)@.remove_keys(up_to(low + 1, seq as int)),
            decreases high - seq,
        {
            seq += 1;
            let _ = self.remove(seq);
            assert(self@ =~= old(self)@.remove_keys(up_to(low + 1, seq as int)));
        }
    }
}

} // verus!
