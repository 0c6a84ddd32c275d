//! Packets that go round the mode's rule: critical ones take the best link, and with
//! prediction on, each packet takes the link on which it arrives first.

use crate::connection::link::{OrderKey, SrtlaConnection};
use crate::protocol::types::{data_sequence, get_srt_sequence_number};
use crate::sender::keyframe::{
    critical_packets_take_the_best_quality, quality_keys, select_best_quality_idx,
    KeyframeDetector, LOWEST_KEY,
};
use crate::sender::selection::edpf::{
    arrives, is_earliest, is_earliest_link, select_from, select_from_indices,
};
use crate::sender::selection::iods::IodsFilter;
use crate::sender::selection::rank::{first_max, first_max_facts};
use vstd::prelude::*;

verus! {

/// Whether the detector can count one packet more.
pub open spec fn can_count(det: KeyframeDetector) -> bool {
    &&& det.consecutive_max_mtu < u32::MAX
    &&& det.burst_packet_count < u32::MAX
    &&& det.total_bursts < u64::MAX
}

/// Whether a packet takes the detector from `before` to `after`, and is critical or not.
pub open spec fn judges_packet(
    before: KeyframeDetector,
    after: KeyframeDetector,
    pkt: Seq<u8>,
    window_open: bool,
    critical: bool,
) -> bool {
    let counted = data_sequence(pkt) is Some && can_count(before);
    &&& after == if counted {
        before.after(pkt.len() as usize)
    } else {
        before
    }
    &&& critical == (window_open || counted && after.in_burst)
}

/// Whether a packet is critical: it is part of a burst of full data packets, or a
/// window for critical packets is open. Only data packets are counted, and none once
/// a counter is at its end.
pub fn is_critical_packet(det: &mut KeyframeDetector, pkt: &[u8], window_open: bool) -> (r: bool)
    ensures
        judges_packet(*old(det), *final(det), pkt@, window_open, r),
{
    let mut burst: bool = false;
    if get_srt_sequence_number(pkt).is_some() && det.consecutive_max_mtu < u32::MAX
        && det.burst_packet_count < u32::MAX && det.total_bursts < u64::MAX {
        burst = det.observe(pkt.len());
    }
    window_open || burst
}

/// The numbers of `n` links.
pub open spec fn all_links(n: nat) -> Seq<usize> {
    Seq::new(n, |i: int| i as usize)
}

/// The links on which a packet would not arrive before the latest one scheduled.
pub open spec fn orderly_links(
    filter: IodsFilter,
    arrivals: Seq<Option<OrderKey>>,
) -> Seq<usize> {
    all_links(arrivals.len()).filter(|i: usize| filter.keeps_order(arrivals, i))
}

/// Whether a packet goes to `idx` by its predicted arrival, which takes the filter
/// from `before` to `after`: to the link where it arrives first in order, or, where
/// there is none, to the one where it arrives first at all.
pub open spec fn goes_by_arrival(
    before: IodsFilter,
    after: IodsFilter,
    arrivals: Seq<Option<OrderKey>>,
    idx: Option<usize>,
) -> bool {
    let orderly = orderly_links(before, arrivals);
    &&& match idx {
        Some(i) => {
            ||| exists|p: int| #[trigger] is_earliest(arrivals, orderly, p) && orderly[p] == i
            ||| {
                &&& forall|q: int|
                    0 <= q < orderly.len() ==> !arrives(arrivals, #[trigger] orderly[q] as int)
                &&& is_earliest_link(arrivals, i as int)
            }
        },
        None => forall|j: int| !#[trigger] arrives(arrivals, j),
    }
    &&& after.last_arrival == if idx is Some && arrivals[idx->0 as int]->0 > before.last_arrival {
        arrivals[idx->0 as int]->0
    } else {
        before.last_arrival
    }
}

/// The link for a packet by its predicted arrival, which the filter notes.
pub fn link_by_arrival(iods: &mut IodsFilter, arrivals: &[Option<OrderKey>]) -> (idx: Option<usize>)
    ensures
        goes_by_arrival(*old(iods), *final(iods), arrivals@, idx),
        idx is Some ==> idx->0 < arrivals@.len(),
{
    let mut all: Vec<usize> = Vec::new();
    let mut i: usize = 0;
    while i < arrivals.len()
        invariant
            i <= arrivals@.len(),
            all@ == all_links(i as nat),
        decreases arrivals@.len() - i,
    {
        all.push(i);
        i += 1;
        assert(all@ =~= all_links(i as nat));
    }
    let valid: Vec<usize> = iods.filter_valid(all.as_slice(), arrivals);
    assert(valid@ == orderly_links(*old(iods), arrivals@));
    let mut idx: Option<usize> = select_from_indices(arrivals, valid.as_slice());
    if idx.is_none() {
        idx = select_from(arrivals);
    }
    if let Some(i) = idx {
        assert(arrives(arrivals@, i as int));
        if let Some(arrival) = arrivals[i] {
            iods.record_scheduled(arrival);
        }
    }
    idx
}

/// Whether a packet goes round the mode's rule to `idx`, which takes the filter from
/// `before` to `after`.
pub open spec fn goes_round_the_rule(
    critical: bool,
    edpf: bool,
    conns: Seq<SrtlaConnection>,
    arrivals: Seq<Option<OrderKey>>,
    before: IodsFilter,
    after: IodsFilter,
    idx: Option<usize>,
) -> bool {
    let best = first_max(quality_keys(conns), LOWEST_KEY);
    if critical && best is Some {
        idx == best && after == before
    } else if edpf {
        goes_by_arrival(before, after, arrivals, idx)
    } else {
        idx is None && after == before
    }
}

/// The link for a packet that goes round the mode's rule, if it does: a critical one
/// takes the link of the highest quality, where there is one, and with prediction on,
/// any packet goes by its predicted arrival.
pub fn special_link(
    critical: bool,
    edpf: bool,
    conns: &[SrtlaConnection],
    arrivals: &[Option<OrderKey>],
    iods: &mut IodsFilter,
) -> (idx: Option<usize>)
    ensures
        goes_round_the_rule(
            critical,
            edpf,
            conns@,
            arrivals@,
            *old(iods),
            *final(iods),
            idx,
        ),
{
    if critical {
        let best: Option<usize> = select_best_quality_idx(conns);
        if best.is_some() {
            return best;
        }
    }
    if !edpf {
        return None;
    }
    link_by_arrival(iods, arrivals)
}

/// With a usable prediction for any link, a packet that goes by its arrival finds one.
pub proof fn predicted_packet_finds_a_link(
    before: IodsFilter,
    after: IodsFilter,
    arrivals: Seq<Option<OrderKey>>,
    idx: Option<usize>,
    i: int,
)
    requires
        goes_by_arrival(before, after, arrivals, idx),
        arrives(arrivals, i),
    ensures
        idx is Some,
        arrives(arrivals, idx->0 as int),
        after.last_arrival >= before.last_arrival,
        after.last_arrival >= arrivals[idx->0 as int]->0,
{
}

/// An open window makes every packet critical. Without one, control packets and packets
/// that are not full never are, and a full data packet is where four full ones came right
/// before it.
pub proof fn full_packets_in_a_row_are_critical(
    before: KeyframeDetector,
    after: KeyframeDetector,
    pkt: Seq<u8>,
    window_open: bool,
    critical: bool,
)
    requires
        judges_packet(before, after, pkt, window_open, critical),
        before.consecutive_max_mtu < u32::MAX,
        before.burst_packet_count < u32::MAX,
        before.total_bursts < u64::MAX,
        4 <= pkt.len() <= usize::MAX,
    ensures
        window_open ==> critical,
        pkt[0] >= 0x80 ==> after == before,
        !window_open && pkt[0] >= 0x80 ==> !critical,
        !window_open && pkt.len() != 1316 ==> !critical,
        !window_open && pkt[0] < 0x80 && pkt.len() == 1316 ==> (critical <==> before.in_burst
            || before.consecutive_max_mtu >= 4),
        pkt[0] < 0x80 && pkt.len() == 1316 ==> after.consecutive_max_mtu
            == before.consecutive_max_mtu + 1,
        pkt[0] < 0x80 && pkt.len() != 1316 ==> after.consecutive_max_mtu == 0,
{
}

/// By predicted arrival a packet takes a link on which it does not overtake the latest
/// packet scheduled, and of those the one where it arrives first; only where there is no
/// such link, the one where it arrives first at all.
pub proof fn packets_arrive_in_order_where_they_can(
    before: IodsFilter,
    after: IodsFilter,
    arrivals: Seq<Option<OrderKey>>,
    i: usize,
    j: int,
)
    requires
        goes_by_arrival(before, after, arrivals, Some(i)),
        arrivals.len() <= usize::MAX,
        0 <= j < arrivals.len(),
        arrivals[j] is Some,
        arrivals[j]->0 < 0x7fef_ffff_ffff_ffff,
    ensures
        i < arrivals.len(),
        arrivals[i as int] is Some,
        arrivals[j]->0 >= before.last_arrival ==> arrivals[i as int]->0 >= before.last_arrival
            && arrivals[i as int]->0 <= arrivals[j]->0,
        arrivals[i as int]->0 < before.last_arrival ==> arrivals[i as int]->0 <= arrivals[j]->0,
        after.last_arrival >= before.last_arrival && after.last_arrival >= arrivals[i as int]->0,
        after.last_arrival == before.last_arrival || after.last_arrival == arrivals[i as int]->0,
{
    let all = all_links(arrivals.len());
    let orderly = orderly_links(before, arrivals);
    let pred = |k: usize| before.keeps_order(arrivals, k);
    assert(arrives(arrivals, j));
    assert(orderly == all.filter(pred));
    if arrivals[j]->0 >= before.last_arrival {
        assert(all[j] == j as usize);
        assert(pred(all[j]));
        all.lemma_filter_contains(pred, j);
        let q = choose|q: int| 0 <= q < orderly.len() && orderly[q] == all[j];
        assert(arrives(arrivals, orderly[q] as int));
        let p = choose|p: int| #[trigger] is_earliest(arrivals, orderly, p) && orderly[p] == i;
        all.lemma_filter_pred(pred, p);
    }
}

/// A critical packet goes to the best link by quality where there is one, whatever is
/// predicted, and leaves the filter as it is; other packets go round the mode's rule only
/// with prediction on, and without it nothing changes.
pub proof fn critical_packets_go_by_quality(
    critical: bool,
    edpf: bool,
    conns: Seq<SrtlaConnection>,
    arrivals: Seq<Option<OrderKey>>,
    before: IodsFilter,
    after: IodsFilter,
    idx: Option<usize>,
    j: int,
)
    requires
        goes_round_the_rule(critical, edpf, conns, arrivals, before, after, idx),
        conns.len() <= usize::MAX,
        0 <= j < conns.len(),
        conns[j].connected,
        conns[j].phase !is Registering,
        conns[j].quality_cache.multiplier >= 0,
    ensures
        critical ==> after == before && (idx matches Some(i) && i < conns.len()
            && conns[i as int].connected && conns[j].quality_cache.multiplier
            <= conns[i as int].quality_cache.multiplier),
        !critical && edpf ==> goes_by_arrival(before, after, arrivals, idx),
        !critical && !edpf ==> idx is None && after == before,
{
    critical_packets_take_the_best_quality(conns, j);
}

/// Where no link can take a critical packet, prediction decides if it is on, and nothing
/// does if it is off.
pub proof fn without_links_prediction_decides(
    critical: bool,
    edpf: bool,
    conns: Seq<SrtlaConnection>,
    arrivals: Seq<Option<OrderKey>>,
    before: IodsFilter,
    after: IodsFilter,
    idx: Option<usize>,
)
    requires
        goes_round_the_rule(critical, edpf, conns, arrivals, before, after, idx),
        conns.len() <= usize::MAX,
        forall|k: int|
            0 <= k < conns.len() ==> !(#[trigger] conns[k]).connected || conns[k].phase is Registering,
    ensures
        edpf ==> goes_by_arrival(before, after, arrivals, idx),
        !edpf ==> idx is None && after == before,
{
    let keys = quality_keys(conns);
    first_max_facts(keys, LOWEST_KEY);
    if first_max(keys, LOWEST_KEY) is Some {
        let i = first_max(keys, LOWEST_KEY)->0 as int;
        assert(keys[i] is Some);
        assert(!conns[i].connected || conns[i].phase is Registering);
    }
}

} // verus!
