//! Keyframes by their shape: a run of packets of full size.

use crate::connection::link::{OrderKey, SrtlaConnection};
use crate::sender::selection::rank::{best_of, first_max, first_max_facts};
use vstd::prelude::*;

verus! {

/// Payload of a full SRT data packet.
pub const SRT_DATA_SIZE: usize = 1316;

/// Full packets in a row that make a burst.
pub const BURST_THRESHOLD: u32 = 5;

/// The key of minus infinity.
pub const LOWEST_KEY: OrderKey = -0x7ff0_0000_0000_0000;

/// Where the stream stands.
#[derive(Debug, Clone, Copy, PartialEq, Eq, Structural)]
pub struct KeyframeDetector {
    /// Full packets since the last shorter one.
    pub consecutive_max_mtu: u32,
    pub in_burst: bool,
    /// Packets of the present burst.
    pub burst_packet_count: u32,
    /// Bursts so far.
    pub total_bursts: u64,
}

impl KeyframeDetector {
    /// Nothing seen.
    pub open spec fn spec_new() -> Self {
        KeyframeDetector {
            consecutive_max_mtu: 0,
            in_burst: false,
            burst_packet_count: 0,
            total_bursts: 0,
        }
    }

    /// Nothing seen.
    pub fn new() -> (det: Self)
        ensures
            det == Self::spec_new(),
    {
        KeyframeDetector {
            consecutive_max_mtu: 0,
            in_burst: false,
            burst_packet_count: 0,
            total_bursts: 0,
        }
    }

    /// The state after a packet of `packet_len` bytes.
    pub open spec fn after(&self, packet_len: usize) -> Self {
        if packet_len == SRT_DATA_SIZE {
            let run = self.consecutive_max_mtu + 1;
            let burst = self.in_burst || run >= BURST_THRESHOLD;
            KeyframeDetector {
                consecutive_max_mtu: run as u32,
                in_burst: burst,
                burst_packet_count: if burst {
                    (self.burst_packet_count + 1) as u32
                } else {
                    self.burst_packet_count
                },
                total_bursts: if burst && !self.in_burst {
                    (self.total_bursts + 1) as u64
                } else {
                    self.total_bursts
                },
            }
        } else {
            KeyframeDetector {
                consecutive_max_mtu: 0,
                in_burst: false,
                burst_packet_count: if self.in_burst {
                    0
                } else {
                    self.burst_packet_count
                },
                total_bursts: self.total_bursts,
            }
        }
    }

    /// Takes in the size of a data packet; whether the packet belongs to a burst.
    pub fn observe(&mut self, packet_len: usize) -> (critical: bool)
        requires
            old(self).consecutive_max_mtu < u32::MAX,
            old(self).burst_packet_count < u32::MAX,
            old(self).total_bursts < u64::MAX,
        ensures
            *final(self) == old(self).after(packet_len),
            critical == final(self).in_burst,
    {
        if packet_len == SRT_DATA_SIZE {
            self.consecutive_max_mtu += 1;
            if !self.in_burst && self.consecutive_max_mtu >= BURST_THRESHOLD {
                self.in_burst = true;
                self.total_bursts += 1;
            }
            if self.in_burst {
                self.burst_packet_count += 1;
                return true;
            }
        } else {
            self.consecutive_max_mtu = 0;
            if self.in_burst {
                self.in_burst = false;
                self.burst_packet_count = 0;
            }
        }
        false
    }

    /// Whether a burst is under way.
    pub fn is_in_burst(&self) -> (r: bool)
        ensures
            r == self.in_burst,
    {
        self.in_burst
    }

    /// Bursts so far.
    pub fn total_bursts(&self) -> (n: u64)
        ensures
            n == self.total_bursts,
    {
        self.total_bursts
    }
}

impl Default for KeyframeDetector {
    fn default() -> (det: Self)
        ensures
            det == Self::spec_new(),
    {
        Self::new()
    }
}

/// The state after packets of the given sizes.
pub open spec fn after_all(det: KeyframeDetector, sizes: Seq<usize>) -> KeyframeDetector
    decreases sizes.len(),
{
    if sizes.len() == 0 {
        det
    } else {
        after_all(det, sizes.drop_last()).after(sizes.last())
    }
}

/// How many packets at the end of `sizes` are of full size.
pub open spec fn full_run(sizes: Seq<usize>) -> nat
    decreases sizes.len(),
{
    if sizes.len() == 0 || sizes.last() != SRT_DATA_SIZE {
        0
    } else {
        full_run(sizes.drop_last()) + 1
    }
}

/// How many runs of full packets reach `BURST_THRESHOLD`: each counts once, with the
/// packet that takes it there.
pub open spec fn bursts_in(sizes: Seq<usize>) -> nat
    decreases sizes.len(),
{
    if sizes.len() == 0 {
        0
    } else {
        bursts_in(sizes.drop_last()) + if full_run(sizes) == BURST_THRESHOLD {
            1nat
        } else {
            0nat
        }
    }
}

/// A burst is under way exactly where the stream ends in `BURST_THRESHOLD` or more
/// packets of full size, and there were as many bursts as runs of that length.
pub proof fn burst_is_a_run_of_full_packets(sizes: Seq<usize>)
    requires
        sizes.len() <= u32::MAX,
    ensures
        after_all(KeyframeDetector::spec_new(), sizes).in_burst <==> full_run(sizes)
            >= BURST_THRESHOLD,
        after_all(KeyframeDetector::spec_new(), sizes).consecutive_max_mtu == full_run(sizes),
        after_all(KeyframeDetector::spec_new(), sizes).total_bursts == bursts_in(sizes),
        full_run(sizes) <= sizes.len(),
        bursts_in(sizes) <= sizes.len(),
    decreases sizes.len(),
{
    if sizes.len() > 0 {
        burst_is_a_run_of_full_packets(sizes.drop_last());
    }
}

/// Quality of the links that a critical packet may take: those that are connected
/// and past registration.
pub open spec fn quality_keys(conns: Seq<SrtlaConnection>) -> Seq<Option<i64>> {
    Seq::new(
        conns.len(),
        |i: int|
            if conns[i].connected && conns[i].phase !is Registering {
                Some(conns[i].quality_cache.multiplier)
            } else {
                None
            },
    )
}

/// The first among the links of the highest quality.
pub fn select_best_quality_idx(conns: &[SrtlaConnection]) -> (idx: Option<usize>)
    ensures
        idx == first_max(quality_keys(conns@), LOWEST_KEY),
        idx is Some ==> idx->0 < conns@.len(),
{
    let ghost all = quality_keys(conns@);
    let mut keys: Vec<Option<i64>> = Vec::new();
    let mut i: usize = 0;
    while i < conns.len()
        invariant
            i <= conns@.len(),
            all == quality_keys(conns@),
            keys@ == all.take(i as int),
        decreases conns@.len() - i,
    {
        if conns[i].connected && conns[i].is_schedulable() {
            keys.push(Some(conns[i].quality_cache.multiplier));
        } else {
            keys.push(None);
        }
        i += 1;
        assert(keys@ =~= all.take(i as int));
    }
    assert(keys@ =~= all);
    best_of(keys.as_slice(), LOWEST_KEY)
}

/// A burst begins with the fifth packet of 1316 bytes in a row and lasts until one of
/// another size, from whatever state.
pub proof fn burst_begins_with_the_fifth(det: KeyframeDetector, packet_len: usize)
    requires
        det.consecutive_max_mtu < u32::MAX,
        det.burst_packet_count < u32::MAX,
        det.total_bursts < u64::MAX,
    ensures
        packet_len != 1316 ==> !det.after(packet_len).in_burst && det.after(
            packet_len,
        ).consecutive_max_mtu == 0 && det.after(packet_len).total_bursts == det.total_bursts,
        packet_len == 1316 ==> {
            &&& det.after(packet_len).consecutive_max_mtu == det.consecutive_max_mtu + 1
            &&& det.after(packet_len).in_burst <==> det.in_burst || det.consecutive_max_mtu >= 4
            &&& det.in_burst ==> det.after(packet_len).burst_packet_count == det.burst_packet_count
                + 1
            &&& det.after(packet_len).total_bursts == det.total_bursts + if !det.in_burst
                && det.consecutive_max_mtu >= 4 {
                1int
            } else {
                0int
            }
        },
{
}

/// A critical packet goes to a connected link past registration, and no such link has a
/// better quality.
pub proof fn critical_packets_take_the_best_quality(conns: Seq<SrtlaConnection>, j: int)
    requires
        conns.len() <= usize::MAX,
        0 <= j < conns.len(),
        conns[j].connected,
        conns[j].phase !is Registering,
        conns[j].quality_cache.multiplier >= 0,
    ensures
        first_max(quality_keys(conns), LOWEST_KEY) matches Some(i) && {
            &&& i < conns.len()
            &&& conns[i as int].connected
            &&& conns[i as int].phase !is Registering
            &&& conns[j].quality_cache.multiplier <= conns[i as int].quality_cache.multiplier
            &&& j < i ==> conns[j].quality_cache.multiplier
                < conns[i as int].quality_cache.multiplier
        },
{
    let keys = quality_keys(conns);
    first_max_facts(keys, LOWEST_KEY);
    assert(keys[j] == Some(conns[j].quality_cache.multiplier));
}

/// The packets of a burst are counted from its first on: the count grows by one with each
/// and is nothing once the burst is over; outside a burst it stays.
pub proof fn packets_of_a_burst_are_counted(det: KeyframeDetector, packet_len: usize)
    requires
        det.consecutive_max_mtu < u32::MAX,
        det.burst_packet_count < u32::MAX,
        det.total_bursts < u64::MAX,
    ensures
        det.after(packet_len).in_burst ==> det.after(packet_len).burst_packet_count
            == det.burst_packet_count + 1,
        det.in_burst && !det.after(packet_len).in_burst ==> det.after(
            packet_len,
        ).burst_packet_count == 0,
        !det.in_burst && !det.after(packet_len).in_burst ==> det.after(
            packet_len,
        ).burst_packet_count == det.burst_packet_count,
{
}

} // verus!
