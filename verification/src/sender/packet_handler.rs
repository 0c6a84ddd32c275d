//! Packets between the SRT client and the links: which link a packet goes out on,
//! and what the answers from the receiver do to all links.

use crate::connection::batch_send::{
    packet_views, QueuedPacket, QueuedPacketView, BATCH_SIZE_THRESHOLD,
};
use crate::connection::incoming::{IncomingView, SrtlaIncoming};
use crate::connection::link::{SrtlaConnection, MAX_TRACKED_PACKETS};
use crate::config::ConfigSnapshot;
use crate::protocol::constants::{REG2_TIMEOUT, REG3_TIMEOUT};
use crate::protocol::lists::{number_slice, packet_bytes, packet_slice};
use crate::protocol::types::{data_sequence, get_srt_sequence_number};
use crate::registration::SrtlaRegistrationManager;
use crate::sender::selection::gate::{
    gated, mode_choice, select_connection_idx, SelectionInputs,
};
use crate::sender::sequence::{number_is_traced_to_its_link, SequenceTracker};
use crate::sender::uplink_recv::{
    handshake_follows, link_follows, process_uplink_packet, sample_of, taken_in,
};
use smallvec::SmallVec;
use vstd::prelude::*;

verus! {

/// Packets from the links that are handled in one go at most.
pub const MAX_DRAIN_PACKETS: usize = 64;

/// Whether every link is in order.
pub open spec fn all_wf(conns: Seq<SrtlaConnection>) -> bool {
    forall|i: int| 0 <= i < conns.len() ==> (#[trigger] conns[i]).wf()
}

// Cumulative ACKs.

/// The samples that one cumulative ACK gives on the first `n` links: link and
/// round-trip time.
pub open spec fn ack_samples(
    conns: Seq<SrtlaConnection>,
    ack: u32,
    now: u64,
    n: nat,
) -> Seq<(usize, u64)>
    decreases n,
{
    if n == 0 {
        Seq::empty()
    } else {
        let before = ack_samples(conns, ack, now, (n - 1) as nat);
        match conns[n - 1].ack_sample(ack as i32, now) {
            Some(rtt) => before.push(((n - 1) as usize, rtt)),
            None => before,
        }
    }
}

/// Whether one cumulative ACK takes the links from `before` to `after`: every
/// link takes it in.
pub open spec fn ack_step(
    before: Seq<SrtlaConnection>,
    after: Seq<SrtlaConnection>,
    ack: u32,
    now: u64,
) -> bool {
    &&& after.len() == before.len()
    &&& forall|i: int|
        0 <= i < before.len() ==> (#[trigger] after[i]).follows_srt_ack(
            &before[i],
            ack as i32,
            now,
        )
}

/// Whether cumulative ACKs, one after the other, take the links from `before` to
/// `after` and give `samples`.
pub open spec fn acks_applied(
    before: Seq<SrtlaConnection>,
    after: Seq<SrtlaConnection>,
    acks: Seq<u32>,
    now: u64,
    samples: Seq<(usize, u64)>,
) -> bool
    decreases acks.len(),
{
    if acks.len() == 0 {
        after == before && samples == Seq::<(usize, u64)>::empty()
    } else {
        exists|mid: Seq<SrtlaConnection>, earlier: Seq<(usize, u64)>|
            {
                &&& acks_applied(before, mid, acks.drop_last(), now, earlier)
                &&& #[trigger] ack_step(mid, after, acks.last(), now)
                &&& samples == #[trigger] joined_samples(
                    earlier,
                    ack_samples(mid, acks.last(), now, mid.len()),
                )
            }
    }
}

/// `a` followed by `b`.
pub open spec fn joined_samples(a: Seq<(usize, u64)>, b: Seq<(usize, u64)>) -> Seq<(usize, u64)> {
    a + b
}

fn apply_acks(
    connections: &mut Vec<SrtlaConnection>,
    acks: &[u32],
    now: u64,
) -> (samples: Vec<(usize, u64)>)
    requires
        all_wf(old(connections)@),
    ensures
        all_wf(final(connections)@),
        acks_applied(old(connections)@, final(connections)@, acks@, now, samples@),
        final(connections)@.len() == old(connections)@.len(),
{
    let mut samples: Vec<(usize, u64)> = Vec::new();
    let mut k: usize = 0;
    assert(acks@.take(0) =~= Seq::empty());
    while k < acks.len()
        invariant
            k <= acks@.len(),
            all_wf(connections@),
            connections@.len() == old(connections)@.len(),
            acks_applied(old(connections)@, connections@, acks@.take(k as int), now, samples@),
        decreases acks@.len() - k,
    {
        let ack: u32 = acks[k];
        let ghost mid = connections@;
        let ghost earlier = samples@;
        let mut i: usize = 0;
        assert(earlier + ack_samples(mid, ack, now, 0) =~= earlier);
        while i < connections.len()
            invariant
                i <= connections@.len(),
                connections@.len() == mid.len(),
                all_wf(mid),
                all_wf(connections@),
                forall|j: int|
                    0 <= j < i ==> (#[trigger] connections@[j]).follows_srt_ack(
                        &mid[j],
                        ack as i32,
                        now,
                    ),
                forall|j: int| i <= j < mid.len() ==> #[trigger] connections@[j] == mid[j],
                samples@ == earlier + ack_samples(mid, ack, now, i as nat),
            decreases connections@.len() - i,
        {
            assert(connections@[i as int] == mid[i as int]);
            let sample: Option<u64> = connections[i].handle_srt_ack(ack as i32, now);
            if let Some(rtt) = sample {
                samples.push((i, rtt));
            }
            i += 1;
            assert(samples@ =~= earlier + ack_samples(mid, ack, now, i as nat));
        }
        k += 1;
        proof {
            let upto = acks@.take(k as int);
            assert(upto.drop_last() =~= acks@.take(k - 1));
            assert(upto.last() == ack);
            assert(ack_step(mid, connections@, ack, now));
            assert(samples@ == joined_samples(earlier, ack_samples(mid, ack, now, mid.len())));
        }
    }
    assert(acks@.take(acks@.len() as int) =~= acks@);
    samples
}

// ACKs and NAKs for single packets.

/// Whether link `i` is the first whose log holds packet `seq`.
pub open spec fn is_owner(conns: Seq<SrtlaConnection>, seq: i32, i: int) -> bool {
    &&& 0 <= i < conns.len()
    &&& conns[i].packet_log@.contains_key(seq)
    &&& forall|j: int|
        0 <= j < i ==> !(#[trigger] conns[j]).packet_log@.contains_key(seq)
}

/// Whether link `i` is asked for packet `seq`: links are asked in order up to the
/// one that has it.
pub open spec fn is_asked(conns: Seq<SrtlaConnection>, seq: i32, i: int) -> bool {
    forall|j: int| 0 <= j < i ==> !(#[trigger] conns[j]).packet_log@.contains_key(seq)
}

/// Whether an SRTLA ACK takes the links from `before` to `after`, as far as the
/// link that the packet went out on is concerned.
pub open spec fn owner_step(
    before: Seq<SrtlaConnection>,
    after: Seq<SrtlaConnection>,
    seq: u32,
    classic: bool,
    now: u64,
) -> bool {
    &&& after.len() == before.len()
    &&& forall|i: int|
        0 <= i < before.len() ==> if is_asked(before, seq as i32, i) {
            (#[trigger] after[i]).follows_srtla_ack(&before[i], seq as i32, classic, now)
        } else {
            after[i] == before[i]
        }
}

/// The links after an SRTLA ACK for whichever of them.
pub open spec fn after_global_acks(conns: Seq<SrtlaConnection>) -> Seq<SrtlaConnection> {
    conns.map_values(|c: SrtlaConnection| c.after_global_ack())
}

/// Whether SRTLA ACKs, one after the other, take the links from `before` to
/// `after`: each is taken in by the link that its packet went out on, and by all.
pub open spec fn srtla_acks_applied(
    before: Seq<SrtlaConnection>,
    after: Seq<SrtlaConnection>,
    acks: Seq<u32>,
    classic: bool,
    now: u64,
) -> bool
    decreases acks.len(),
{
    if acks.len() == 0 {
        after == before
    } else {
        exists|mid: Seq<SrtlaConnection>, own: Seq<SrtlaConnection>|
            {
                &&& srtla_acks_applied(before, mid, acks.drop_last(), classic, now)
                &&& #[trigger] owner_step(mid, own, acks.last(), classic, now)
                &&& after == after_global_acks(own)
            }
    }
}

fn apply_srtla_acks(connections: &mut Vec<SrtlaConnection>, acks: &[u32], classic: bool, now: u64)
    requires
        all_wf(old(connections)@),
    ensures
        all_wf(final(connections)@),
        srtla_acks_applied(old(connections)@, final(connections)@, acks@, classic, now),
        final(connections)@.len() == old(connections)@.len(),
{
    let mut k: usize = 0;
    assert(acks@.take(0) =~= Seq::empty());
    while k < acks.len()
        invariant
            k <= acks@.len(),
            all_wf(connections@),
            connections@.len() == old(connections)@.len(),
            srtla_acks_applied(
                old(connections)@,
                connections@,
                acks@.take(k as int),
                classic,
                now,
            ),
        decreases acks@.len() - k,
    {
        let ack: u32 = acks[k];
        let ghost mid = connections@;
        let mut i: usize = 0;
        let mut found: bool = false;
        while i < connections.len() && !found
            invariant
                i <= connections@.len(),
                connections@.len() == mid.len(),
                all_wf(mid),
                all_wf(connections@),
                !found ==> forall|j: int|
                    0 <= j < i ==> !(#[trigger] mid[j]).packet_log@.contains_key(ack as i32),
                found ==> i > 0 && is_owner(mid, ack as i32, i - 1),
                forall|j: int|
                    0 <= j < i ==> (#[trigger] connections@[j]).follows_srtla_ack(
                        &mid[j],
                        ack as i32,
                        classic,
                        now,
                    ),
                forall|j: int| i <= j < mid.len() ==> #[trigger] connections@[j] == mid[j],
            decreases connections@.len() - i,
        {
            assert(connections@[i as int] == mid[i as int]);
            found = connections[i].handle_srtla_ack_specific(ack as i32, classic, now);
            i += 1;
        }
        let ghost own = connections@;
        proof {
            assert forall|j: int| 0 <= j < mid.len() implies if is_asked(mid, ack as i32, j) {
                (#[trigger] own[j]).follows_srtla_ack(&mid[j], ack as i32, classic, now)
            } else {
                own[j] == mid[j]
            } by {
                if j < i {
                    assert forall|h: int| 0 <= h < j implies !(
                    #[trigger] mid[h]).packet_log@.contains_key(ack as i32) by {
                    }
                    assert(is_asked(mid, ack as i32, j));
                } else {
                    assert(found);
                    assert(mid[i - 1].packet_log@.contains_key(ack as i32));
                    assert(!is_asked(mid, ack as i32, j));
                }
            }
            assert(owner_step(mid, own, ack, classic, now));
        }
        let mut i: usize = 0;
        while i < connections.len()
            invariant
                i <= connections@.len(),
                connections@.len() == own.len(),
                all_wf(own),
                all_wf(connections@),
                forall|j: int|
                    0 <= j < i ==> #[trigger] connections@[j] == own[j].after_global_ack(),
                forall|j: int| i <= j < own.len() ==> #[trigger] connections@[j] == own[j],
            decreases connections@.len() - i,
        {
            assert(connections@[i as int] == own[i as int]);
            connections[i].handle_srtla_ack_global();
            i += 1;
        }
        k += 1;
        proof {
            let upto = acks@.take(k as int);
            assert(upto.drop_last() =~= acks@.take(k - 1));
            assert(upto.last() == ack);
            assert(connections@ =~= after_global_acks(own));
        }
    }
    assert(acks@.take(acks@.len() as int) =~= acks@);
}

/// Whether link `i` is the first with the id `conn_id`.
pub open spec fn is_link(conns: Seq<SrtlaConnection>, conn_id: u64, i: int) -> bool {
    &&& 0 <= i < conns.len()
    &&& conns[i].conn_id == conn_id
    &&& forall|j: int| 0 <= j < i ==> (#[trigger] conns[j]).conn_id != conn_id
}

/// The place of the link with the id `conn_id`, where there is one.
pub open spec fn place_of(conns: Seq<SrtlaConnection>, conn_id: u64) -> Option<int> {
    if exists|i: int| is_link(conns, conn_id, i) {
        Some(choose|i: int| is_link(conns, conn_id, i))
    } else {
        None
    }
}

/// The place of the link with the id `conn_id`.
pub fn find_connection(connections: &[SrtlaConnection], conn_id: u64) -> (idx: Option<usize>)
    ensures
        match idx {
            Some(i) => is_link(connections@, conn_id, i as int) && place_of(connections@, conn_id)
                == Some(i as int),
            None => place_of(connections@, conn_id) is None && forall|i: int|
                0 <= i < connections@.len() ==> (#[trigger] connections@[i]).conn_id != conn_id,
        },
{
    let mut i: usize = 0;
    while i < connections.len()
        invariant
            i <= connections@.len(),
            forall|j: int| 0 <= j < i ==> (#[trigger] connections@[j]).conn_id != conn_id,
        decreases connections@.len() - i,
    {
        if connections[i].conn_id == conn_id {
            assert(is_link(connections@, conn_id, i as int));
            return Some(i);
        }
        i += 1;
    }
    None
}

/// The link that a NAK is charged to, where the tracker knows on which one the
/// packet went out and that is still there.
pub open spec fn nak_target(
    conns: Seq<SrtlaConnection>,
    tracker: SequenceTracker,
    nak: u32,
    now: u64,
) -> Option<int> {
    match tracker.link_of(nak, now) {
        Some(conn_id) => place_of(conns, conn_id),
        None => None,
    }
}

/// Whether one NAK takes the links from `before` to `after`. The tracked link
/// takes it in; where none is known, links are asked in order up to the one that
/// has the packet.
pub open spec fn nak_step(
    before: Seq<SrtlaConnection>,
    after: Seq<SrtlaConnection>,
    tracker: SequenceTracker,
    nak: u32,
    now: u64,
) -> bool {
    &&& after.len() == before.len()
    &&& forall|i: int|
        0 <= i < before.len() ==> {
            let takes = match nak_target(before, tracker, nak, now) {
                Some(k) => i == k,
                None => is_asked(before, nak as i32, i),
            };
            if takes {
                (#[trigger] after[i]).follows_nak(&before[i], nak as i32, now)
            } else {
                after[i] == before[i]
            }
        }
}

/// Whether NAKs, one after the other, take the links from `before` to `after`.
pub open spec fn naks_applied(
    before: Seq<SrtlaConnection>,
    after: Seq<SrtlaConnection>,
    tracker: SequenceTracker,
    naks: Seq<u32>,
    now: u64,
) -> bool
    decreases naks.len(),
{
    if naks.len() == 0 {
        after == before
    } else {
        exists|mid: Seq<SrtlaConnection>|
            {
                &&& naks_applied(before, mid, tracker, naks.drop_last(), now)
                &&& #[trigger] nak_step(mid, after, tracker, naks.last(), now)
            }
    }
}

fn apply_naks(
    connections: &mut Vec<SrtlaConnection>,
    seq_tracker: &SequenceTracker,
    naks: &[u32],
    now: u64,
)
    requires
        all_wf(old(connections)@),
    ensures
        all_wf(final(connections)@),
        naks_applied(old(connections)@, final(connections)@, *seq_tracker, naks@, now),
        final(connections)@.len() == old(connections)@.len(),
{
    let mut k: usize = 0;
    assert(naks@.take(0) =~= Seq::empty());
    while k < naks.len()
        invariant
            k <= naks@.len(),
            all_wf(connections@),
            connections@.len() == old(connections)@.len(),
            naks_applied(
                old(connections)@,
                connections@,
                *seq_tracker,
                naks@.take(k as int),
                now,
            ),
        decreases naks@.len() - k,
    {
        let nak: u32 = naks[k];
        let ghost mid = connections@;
        let target: Option<usize> = match seq_tracker.get(nak, now) {
            Some(conn_id) => find_connection(connections.as_slice(), conn_id),
            None => None,
        };
        match target {
            Some(t) => {
                let _ = connections[t].handle_nak(nak as i32, now);
                assert(nak_step(mid, connections@, *seq_tracker, nak, now));
            },
            None => {
                let mut i: usize = 0;
                let mut found: bool = false;
                while i < connections.len() && !found
                    invariant
                        i <= connections@.len(),
                        connections@.len() == mid.len(),
                        all_wf(mid),
                        all_wf(connections@),
                        !found ==> forall|j: int|
                            0 <= j < i ==> !(#[trigger] mid[j]).packet_log@.contains_key(
                                nak as i32,
                            ),
                        found ==> i > 0 && is_owner(mid, nak as i32, i - 1),
                        forall|j: int|
                            0 <= j < i ==> (#[trigger] connections@[j]).follows_nak(
                                &mid[j],
                                nak as i32,
                                now,
                            ),
                        forall|j: int| i <= j < mid.len() ==> #[trigger] connections@[j] == mid[j],
                    decreases connections@.len() - i,
                {
                    assert(connections@[i as int] == mid[i as int]);
                    found = connections[i].handle_nak(nak as i32, now);
                    i += 1;
                }
                proof {
                    assert forall|j: int| 0 <= j < mid.len() implies if is_asked(
                        mid,
                        nak as i32,
                        j,
                    ) {
                        (#[trigger] connections@[j]).follows_nak(&mid[j], nak as i32, now)
                    } else {
                        connections@[j] == mid[j]
                    } by {
                        if j < i {
                            assert(is_asked(mid, nak as i32, j));
                        } else {
                            assert(mid[i - 1].packet_log@.contains_key(nak as i32));
                            assert(!is_asked(mid, nak as i32, j));
                        }
                    }
                    assert(nak_step(mid, connections@, *seq_tracker, nak, now));
                }
            },
        }
        k += 1;
        proof {
            let upto = naks@.take(k as int);
            assert(upto.drop_last() =~= naks@.take(k - 1));
            assert(upto.last() == nak);
        }
    }
    assert(naks@.take(naks@.len() as int) =~= naks@);
}

/// Whether what came in takes the links from `before` to `after` and gives
/// `samples`: first the cumulative ACKs, then the SRTLA ACKs, then the NAKs.
pub open spec fn events_applied(
    before: Seq<SrtlaConnection>,
    after: Seq<SrtlaConnection>,
    tracker: SequenceTracker,
    classic: bool,
    incoming: IncomingView,
    now: u64,
    samples: Seq<(usize, u64)>,
) -> bool {
    exists|a: Seq<SrtlaConnection>, b: Seq<SrtlaConnection>|
        {
            &&& #[trigger] acks_applied(before, a, incoming.acks, now, samples)
            &&& #[trigger] srtla_acks_applied(a, b, incoming.srtla_acks, classic, now)
            &&& naks_applied(b, after, tracker, incoming.naks, now)
        }
}

/// Applies what came in on link `idx` to all links; the round-trip times that the
/// ACKs gave. Nothing happens where there is no such link.
pub fn process_connection_events(
    idx: usize,
    connections: &mut Vec<SrtlaConnection>,
    seq_tracker: &SequenceTracker,
    classic: bool,
    incoming: &SrtlaIncoming,
    now: u64,
) -> (samples: Vec<(usize, u64)>)
    requires
        all_wf(old(connections)@),
    ensures
        all_wf(final(connections)@),
        final(connections)@.len() == old(connections)@.len(),
        idx < old(connections)@.len() ==> events_applied(
            old(connections)@,
            final(connections)@,
            *seq_tracker,
            classic,
            incoming@,
            now,
            samples@,
        ),
        idx >= old(connections)@.len() ==> final(connections)@ == old(connections)@
            && samples@.len() == 0,
{
    if idx >= connections.len() {
        return Vec::new();
    }
    let samples: Vec<(usize, u64)> = apply_acks(
        connections,
        number_slice(&incoming.ack_numbers),
        now,
    );
    let ghost a = connections@;
    apply_srtla_acks(connections, number_slice(&incoming.srtla_ack_numbers), classic, now);
    let ghost b = connections@;
    apply_naks(connections, seq_tracker, number_slice(&incoming.nak_numbers), now);
    assert(acks_applied(old(connections)@, a, incoming@.acks, now, samples@));
    assert(srtla_acks_applied(a, b, incoming@.srtla_acks, classic, now));
    samples
}

/// A packet that came in on a link.
pub struct UplinkPacket {
    pub conn_id: u64,
    pub bytes: SmallVec<u8, 64>,
}

/// What became of a packet that came in on a link.
pub struct UplinkOutcome {
    /// The link's place.
    pub idx: usize,
    /// What the packet asks for.
    pub incoming: SrtlaIncoming,
    /// Round-trip times that its ACKs gave: place of the link, and time.
    pub samples: Vec<(usize, u64)>,
}

/// Whether a packet that came in on link `idx` takes the links from `before` to
/// `after`, with the given outcome: first its own link takes it in, then what it
/// asks for is applied to all.
pub open spec fn packet_applied(
    before: Seq<SrtlaConnection>,
    after: Seq<SrtlaConnection>,
    data: Seq<u8>,
    tracker: SequenceTracker,
    classic: bool,
    now: u64,
    outcome: UplinkOutcome,
) -> bool {
    exists|own: SrtlaConnection|
        {
            &&& #[trigger] link_follows(own, before[outcome.idx as int], data, now)
            &&& events_applied(
                before.update(outcome.idx as int, own),
                after,
                tracker,
                classic,
                outcome.incoming@,
                now,
                outcome.samples@,
            )
        }
}

/// Whether a packet takes the links from `before` to `after` and the handshake from
/// `reg` to `next`, with the given outcome. Nothing happens where the packet is
/// empty or its link is gone.
pub open spec fn uplink_handled(
    before: Seq<SrtlaConnection>,
    after: Seq<SrtlaConnection>,
    reg: SrtlaRegistrationManager,
    next: SrtlaRegistrationManager,
    packet: UplinkPacket,
    tracker: SequenceTracker,
    classic: bool,
    now: u64,
    outcome: Option<UplinkOutcome>,
) -> bool {
    let data = packet_bytes(&packet.bytes);
    match outcome {
        None => {
            &&& data.len() == 0 || place_of(before, packet.conn_id) is None
            &&& after == before
            &&& next == reg
        },
        Some(o) => {
            &&& data.len() > 0
            &&& is_link(before, packet.conn_id, o.idx as int)
            &&& packet_applied(before, after, data, tracker, classic, now, o)
            &&& exists|reg1: Option<Seq<u8>>| #[trigger]
                handshake_follows(next, reg, o.idx, data, now, reg1) && o.incoming@ == taken_in(
                    IncomingView::nothing(),
                    data,
                    reg1,
                    sample_of(before[o.idx as int], data, now),
                )
        },
    }
}

/// Takes in a packet that came in on a link and applies it to all links. Nothing
/// happens where the packet is empty or its link is gone.
pub fn handle_uplink_packet(
    packet: &UplinkPacket,
    connections: &mut Vec<SrtlaConnection>,
    reg: &mut SrtlaRegistrationManager,
    seq_tracker: &SequenceTracker,
    classic: bool,
    now: u64,
) -> (outcome: Option<UplinkOutcome>)
    requires
        all_wf(old(connections)@),
        now <= u64::MAX - REG2_TIMEOUT * 1000,
        now <= u64::MAX - REG3_TIMEOUT * 1000,
    ensures
        all_wf(final(connections)@),
        final(connections)@.len() == old(connections)@.len(),
        uplink_handled(
            old(connections)@,
            final(connections)@,
            *old(reg),
            *final(reg),
            *packet,
            *seq_tracker,
            classic,
            now,
            outcome,
        ),
{
    let data = packet_slice(&packet.bytes);
    if data.len() == 0 {
        return None;
    }
    let idx: usize = match find_connection(connections.as_slice(), packet.conn_id) {
        None => {
            return None;
        },
        Some(idx) => idx,
    };
    let incoming = process_uplink_packet(&mut connections[idx], idx, reg, data, now);
    let ghost own = connections@[idx as int];
    let ghost mid = connections@;
    assert(mid =~= old(connections)@.update(idx as int, own));
    let samples: Vec<(usize, u64)> = process_connection_events(
        idx,
        connections,
        seq_tracker,
        classic,
        &incoming,
        now,
    );
    let outcome = UplinkOutcome { idx, incoming, samples };
    assert(link_follows(own, old(connections)@[outcome.idx as int], data@, now));
    assert(events_applied(
        old(connections)@.update(outcome.idx as int, own),
        connections@,
        *seq_tracker,
        classic,
        outcome.incoming@,
        now,
        outcome.samples@,
    ));
    assert(packet_applied(
        old(connections)@,
        connections@,
        data@,
        *seq_tracker,
        classic,
        now,
        outcome,
    ));
    proof {
        let reg1 = choose|reg1: Option<Seq<u8>>| #[trigger]
            handshake_follows(*reg, *old(reg), idx, data@, now, reg1) && incoming@ == taken_in(
                IncomingView::nothing(),
                data@,
                reg1,
                sample_of(old(connections)@[idx as int], data@, now),
            );
        assert(handshake_follows(*reg, *old(reg), outcome.idx, data@, now, reg1));
    }
    Some(outcome)
}

/// Whether link `i` is the first that has not timed out.
pub open spec fn is_first_alive(conns: Seq<SrtlaConnection>, now: u64, i: int) -> bool {
    &&& 0 <= i < conns.len()
    &&& !conns[i].timed_out(now)
    &&& forall|j: int| 0 <= j < i ==> (#[trigger] conns[j]).timed_out(now)
}

/// Whether the link of the last packet can carry the next one before registration
/// is through.
pub open spec fn reuses_last(
    conns: Seq<SrtlaConnection>,
    last_selected_idx: Option<usize>,
    now: u64,
) -> bool {
    match last_selected_idx {
        Some(i) => i < conns.len() && conns[i as int].connected && !conns[i as int].timed_out(now),
        None => false,
    }
}

/// Chooses the link for a packet before registration is through: the last one
/// where that is connected and alive, else the first that has not timed out.
pub fn select_pre_registration_connection(
    connections: &[SrtlaConnection],
    last_selected_idx: Option<usize>,
    now: u64,
) -> (idx: Option<usize>)
    ensures
        reuses_last(connections@, last_selected_idx, now) ==> idx == last_selected_idx,
        !reuses_last(connections@, last_selected_idx, now) ==> match idx {
            Some(i) => is_first_alive(connections@, now, i as int),
            None => forall|i: int|
                0 <= i < connections@.len() ==> (#[trigger] connections@[i]).timed_out(now),
        },
{
    if let Some(last) = last_selected_idx {
        if last < connections.len() && connections[last].connected
            && !connections[last].is_timed_out(now) {
            return Some(last);
        }
    }
    let mut i: usize = 0;
    while i < connections.len()
        invariant
            i <= connections@.len(),
            !reuses_last(connections@, last_selected_idx, now),
            forall|j: int| 0 <= j < i ==> (#[trigger] connections@[j]).timed_out(now),
        decreases connections@.len() - i,
    {
        if !connections[i].is_timed_out(now) {
            return Some(i);
        }
        i += 1;
    }
    None
}

/// Packets to send once a packet was queued on its link.
pub struct Forwarded {
    /// What the link that was used until now still had queued, and its place.
    pub switched_from: Option<(usize, Vec<QueuedPacket>)>,
    /// The queue of the chosen link, where it is full.
    pub full_batch: Option<Vec<QueuedPacket>>,
}

/// The link that a change to link `sel_idx` leaves, where it has packets queued.
pub open spec fn leaves_queued(
    conns: Seq<SrtlaConnection>,
    last_selected_idx: Option<usize>,
    sel_idx: usize,
) -> Option<usize> {
    match last_selected_idx {
        Some(prev) => if prev != sel_idx && prev < conns.len()
            && conns[prev as int].batch_sender.queue@.len() > 0 {
            Some(prev)
        } else {
            None
        },
        None => None,
    }
}

/// Whether queueing a packet takes its link from `before` to `after`; a queue that
/// is full is taken out.
pub open spec fn link_forwards(
    before: SrtlaConnection,
    after: SrtlaConnection,
    data: Seq<u8>,
    seq: Option<u32>,
    now: u64,
    full_batch: Option<Vec<QueuedPacket>>,
) -> bool {
    exists|queued: SrtlaConnection| #[trigger]
        queued.has_queued(&before, data, seq, now) && match full_batch {
            Some(batch) => {
                &&& queued.batch_sender.queue@.len() >= BATCH_SIZE_THRESHOLD
                &&& batch@ == queued.batch_sender.queue@
                &&& after.has_taken_batch(&queued, now)
            },
            None => {
                &&& queued.batch_sender.queue@.len() < BATCH_SIZE_THRESHOLD
                &&& after == queued
            },
        }
}

/// Whether a link has room in its log for all that is queued and one packet more.
pub open spec fn has_room(conn: SrtlaConnection) -> bool {
    conn.packet_log@.len() + conn.batch_sender.queue@.len() < MAX_TRACKED_PACKETS
}

/// What the forwarding of packets goes by, apart from the links.
pub struct RouteView {
    pub last_selected_idx: Option<usize>,
    pub last_switch_time_ms: u64,
    pub tracker: SequenceTracker,
}

/// Whether queueing a packet on link `sel_idx` takes the links from `before` to
/// `after`, with the given packets to send.
pub open spec fn forwards(
    before: Seq<SrtlaConnection>,
    after: Seq<SrtlaConnection>,
    route: RouteView,
    next: RouteView,
    sel_idx: usize,
    pkt: Seq<u8>,
    seq: Option<u32>,
    now: u64,
    forwarded: Forwarded,
) -> bool {
    let left = leaves_queued(before, route.last_selected_idx, sel_idx);
    &&& after.len() == before.len()
    &&& next.last_selected_idx == Some(sel_idx)
    &&& next.last_switch_time_ms == if route.last_selected_idx == Some(sel_idx) {
        route.last_switch_time_ms
    } else {
        now
    }
    &&& match seq {
        Some(s) => next.tracker.has_inserted(
            &route.tracker,
            s,
            before[sel_idx as int].conn_id,
            now,
        ),
        None => next.tracker == route.tracker,
    }
    &&& link_forwards(
        before[sel_idx as int],
        after[sel_idx as int],
        pkt,
        seq,
        now,
        forwarded.full_batch,
    )
    &&& match forwarded.switched_from {
        Some(from) => {
            &&& left == Some(from.0)
            &&& from.1@ == before[from.0 as int].batch_sender.queue@
            &&& after[from.0 as int].has_taken_batch(&before[from.0 as int], now)
        },
        None => left is None,
    }
    &&& forall|i: int|
        0 <= i < before.len() && i != sel_idx && (left is None || i != left->0)
            ==> #[trigger] after[i] == before[i]
}

/// Whether every link that was in order and has room is in order.
pub open spec fn stays_wf(before: Seq<SrtlaConnection>, after: Seq<SrtlaConnection>) -> bool {
    forall|i: int|
        0 <= i < before.len() && before[i].wf() && has_room(before[i]) ==> (#[trigger] after[i]).wf()
}

/// Queues a packet on link `sel_idx` and tracks its number. Where the link differs
/// from the last one, what that one has queued is to be sent first. Nothing happens
/// where there is no such link.
pub fn forward_via_connection(
    sel_idx: usize,
    pkt: &[u8],
    seq: Option<u32>,
    connections: &mut Vec<SrtlaConnection>,
    last_selected_idx: &mut Option<usize>,
    last_switch_time_ms: &mut u64,
    seq_tracker: &mut SequenceTracker,
    packet_time_ms: u64,
) -> (forwarded: Forwarded)
    ensures
        final(connections)@.len() == old(connections)@.len(),
        sel_idx >= old(connections)@.len() ==> {
            &&& final(connections)@ == old(connections)@
            &&& *final(last_selected_idx) == *old(last_selected_idx)
            &&& *final(last_switch_time_ms) == *old(last_switch_time_ms)
            &&& *final(seq_tracker) == *old(seq_tracker)
            &&& forwarded.switched_from is None
            &&& forwarded.full_batch is None
        },
        sel_idx < old(connections)@.len() ==> forwards(
            old(connections)@,
            final(connections)@,
            RouteView {
                last_selected_idx: *old(last_selected_idx),
                last_switch_time_ms: *old(last_switch_time_ms),
                tracker: *old(seq_tracker),
            },
            RouteView {
                last_selected_idx: *final(last_selected_idx),
                last_switch_time_ms: *final(last_switch_time_ms),
                tracker: *final(seq_tracker),
            },
            sel_idx,
            pkt@,
            seq,
            packet_time_ms,
            forwarded,
        ),
        stays_wf(old(connections)@, final(connections)@),
        old(seq_tracker).wf() ==> final(seq_tracker).wf(),
{
    if sel_idx >= connections.len() {
        return Forwarded { switched_from: None, full_batch: None };
    }
    let mut switched_from: Option<(usize, Vec<QueuedPacket>)> = None;
    if *last_selected_idx != Some(sel_idx) {
        if let Some(prev) = *last_selected_idx {
            if prev < connections.len() && connections[prev].has_queued_packets() {
                let batch: Vec<QueuedPacket> = connections[prev].take_batch(packet_time_ms);
                switched_from = Some((prev, batch));
            }
        }
        *last_selected_idx = Some(sel_idx);
        *last_switch_time_ms = packet_time_ms;
    }
    let ghost mid = connections@;
    assert(mid[sel_idx as int] == old(connections)@[sel_idx as int]);
    let conn_id: u64 = connections[sel_idx].conn_id;
    let full: bool = connections[sel_idx].queue_data_packet(pkt, seq, packet_time_ms);
    let ghost queued = connections@[sel_idx as int];
    if let Some(s) = seq {
        seq_tracker.insert(s, conn_id, packet_time_ms);
    }
    let mut full_batch: Option<Vec<QueuedPacket>> = None;
    if full {
        let batch: Vec<QueuedPacket> = connections[sel_idx].take_batch(packet_time_ms);
        full_batch = Some(batch);
    }
    assert(queued.has_queued(&old(connections)@[sel_idx as int], pkt@, seq, packet_time_ms));
    Forwarded { switched_from, full_batch }
}

/// Whether `choice` is the link for a packet of the client: before registration is
/// through any live link will do; afterwards the mode's rule decides. `ready` are
/// the links with their gates set, where the rule looks at them.
pub open spec fn routes_to(
    before: Seq<SrtlaConnection>,
    ready: Seq<SrtlaConnection>,
    last_selected_idx: Option<usize>,
    registration_complete: bool,
    config: ConfigSnapshot,
    inputs: SelectionInputs,
    now: u64,
    choice: Option<usize>,
) -> bool {
    if registration_complete {
        &&& ready == gated(before, now, config)
        &&& choice == mode_choice(ready, last_selected_idx, now, config, inputs)
    } else {
        &&& ready == before
        &&& if reuses_last(before, last_selected_idx, now) {
            choice == last_selected_idx
        } else {
            match choice {
                Some(i) => is_first_alive(before, now, i as int),
                None => forall|i: int|
                    0 <= i < before.len() ==> (#[trigger] before[i]).timed_out(now),
            }
        }
    }
}

/// Whether a packet of the client takes the links from `before` to `after` and the
/// route from `route` to `next`, with the given packets to send. Nothing happens
/// where the packet is empty; where no link can be chosen, only the gates may change.
pub open spec fn client_handled(
    before: Seq<SrtlaConnection>,
    after: Seq<SrtlaConnection>,
    route: RouteView,
    next: RouteView,
    pkt: Seq<u8>,
    registration_complete: bool,
    config: ConfigSnapshot,
    inputs: SelectionInputs,
    now: u64,
    forwarded: Option<Forwarded>,
) -> bool {
    if pkt.len() == 0 {
        forwarded is None && after == before && next == route
    } else {
        exists|ready: Seq<SrtlaConnection>, choice: Option<usize>| #[trigger]
            routes_to(
                before,
                ready,
                route.last_selected_idx,
                registration_complete,
                config,
                inputs,
                now,
                choice,
            ) && match forwarded {
                Some(f) => choice is Some && forwards(
                    ready,
                    after,
                    route,
                    next,
                    choice->0,
                    pkt,
                    data_sequence(pkt),
                    now,
                    f,
                ),
                None => choice is None && after == ready && next == route,
            }
    }
}

/// Takes in a packet of the client: chooses its link and queues it there. Nothing
/// happens where the packet is empty; where no link can be chosen, only the gates
/// may change.
pub fn handle_srt_packet(
    pkt: &[u8],
    connections: &mut Vec<SrtlaConnection>,
    last_selected_idx: &mut Option<usize>,
    last_switch_time_ms: &mut u64,
    seq_tracker: &mut SequenceTracker,
    registration_complete: bool,
    config: &ConfigSnapshot,
    inputs: &SelectionInputs,
    now: u64,
) -> (forwarded: Option<Forwarded>)
    requires
        config.mode is Enhanced ==> inputs.scores@.len() == old(connections)@.len(),
        config.mode is RttThreshold ==> inputs.rtt_scores@.len() == old(connections)@.len(),
    ensures
        final(connections)@.len() == old(connections)@.len(),
        client_handled(
            old(connections)@,
            final(connections)@,
            RouteView {
                last_selected_idx: *old(last_selected_idx),
                last_switch_time_ms: *old(last_switch_time_ms),
                tracker: *old(seq_tracker),
            },
            RouteView {
                last_selected_idx: *final(last_selected_idx),
                last_switch_time_ms: *final(last_switch_time_ms),
                tracker: *final(seq_tracker),
            },
            pkt@,
            registration_complete,
            *config,
            *inputs,
            now,
            forwarded,
        ),
        stays_wf(old(connections)@, final(connections)@),
        old(seq_tracker).wf() ==> final(seq_tracker).wf(),
{
    if pkt.len() == 0 {
        return None;
    }
    let seq: Option<u32> = get_srt_sequence_number(pkt);
    let choice: Option<usize> = if registration_complete {
        select_connection_idx(connections, *last_selected_idx, now, config, inputs)
    } else {
        select_pre_registration_connection(connections.as_slice(), *last_selected_idx, now)
    };
    let ghost ready = connections@;
    assert(routes_to(
        old(connections)@,
        ready,
        *old(last_selected_idx),
        registration_complete,
        *config,
        *inputs,
        now,
        choice,
    ));
    match choice {
        Some(sel_idx) => {
            let forwarded = forward_via_connection(
                sel_idx,
                pkt,
                seq,
                connections,
                last_selected_idx,
                last_switch_time_ms,
                seq_tracker,
                now,
            );
            assert forall|i: int|
                0 <= i < old(connections)@.len() && old(connections)@[i].wf() && has_room(
                    old(connections)@[i],
                ) implies (#[trigger] connections@[i]).wf() by {
                assert(ready[i].wf() && has_room(ready[i]));
            }
            Some(forwarded)
        },
        None => None,
    }
}

/// The queues of the first `n` links that are not empty, with the links' places.
pub open spec fn waiting_batches(conns: Seq<SrtlaConnection>, n: nat) -> Seq<
    (usize, Seq<QueuedPacket>),
>
    decreases n,
{
    if n == 0 {
        Seq::empty()
    } else {
        let before = waiting_batches(conns, (n - 1) as nat);
        let queue = conns[n - 1].batch_sender.queue@;
        if queue.len() > 0 {
            before.push(((n - 1) as usize, queue))
        } else {
            before
        }
    }
}

/// The contents of a list of batches.
pub open spec fn batch_contents(batches: Seq<(usize, Vec<QueuedPacket>)>) -> Seq<
    (usize, Seq<QueuedPacket>),
> {
    batches.map_values(|b: (usize, Vec<QueuedPacket>)| (b.0, b.1@))
}

/// Whether taking out what every link has queued takes the links from `before` to
/// `after` and gives `batches`.
pub open spec fn all_flushed(
    before: Seq<SrtlaConnection>,
    after: Seq<SrtlaConnection>,
    now: u64,
    batches: Seq<(usize, Vec<QueuedPacket>)>,
) -> bool {
    &&& after.len() == before.len()
    &&& batch_contents(batches) == waiting_batches(before, before.len())
    &&& forall|i: int|
        0 <= i < before.len() ==> if before[i].batch_sender.queue@.len() > 0 {
            (#[trigger] after[i]).has_taken_batch(&before[i], now)
        } else {
            after[i] == before[i]
        }
}

/// Takes out what every link has queued.
pub fn flush_all_batches(connections: &mut Vec<SrtlaConnection>, now: u64) -> (batches: Vec<
    (usize, Vec<QueuedPacket>),
>)
    ensures
        all_flushed(old(connections)@, final(connections)@, now, batches@),
        stays_wf(old(connections)@, final(connections)@),
{
    let ghost before = connections@;
    let mut batches: Vec<(usize, Vec<QueuedPacket>)> = Vec::new();
    let mut i: usize = 0;
    assert(batch_contents(batches@) =~= waiting_batches(before, 0));
    while i < connections.len()
        invariant
            i <= connections@.len(),
            connections@.len() == before.len(),
            before == old(connections)@,
            batch_contents(batches@) == waiting_batches(before, i as nat),
            forall|j: int| i <= j < before.len() ==> #[trigger] connections@[j] == before[j],
            forall|j: int|
                0 <= j < i ==> if before[j].batch_sender.queue@.len() > 0 {
                    (#[trigger] connections@[j]).has_taken_batch(&before[j], now)
                } else {
                    connections@[j] == before[j]
                },
            forall|j: int|
                0 <= j < i && before[j].wf() && has_room(before[j]) ==> (
                #[trigger] connections@[j]).wf(),
        decreases connections@.len() - i,
    {
        assert(connections@[i as int] == before[i as int]);
        if connections[i].has_queued_packets() {
            let ghost done = batches@;
            let batch: Vec<QueuedPacket> = connections[i].take_batch(now);
            batches.push((i, batch));
            assert(batch_contents(batches@) =~= batch_contents(done).push((i, batch@)));
        }
        i += 1;
    }
    batches
}

/// No packet is lost or sent twice on the way to its link: what was queued and the
/// new packet are together what is sent now and what stays queued.
pub proof fn forwarding_keeps_packets(
    before: SrtlaConnection,
    after: SrtlaConnection,
    data: Seq<u8>,
    seq: Option<u32>,
    now: u64,
    full_batch: Option<Vec<QueuedPacket>>,
)
    requires
        link_forwards(before, after, data, seq, now, full_batch),
    ensures
        packet_views(before.batch_sender.queue@).push(
            QueuedPacketView { data, seq, queued_ms: now },
        ) == packet_views(
            match full_batch {
                Some(batch) => batch@,
                None => Seq::empty(),
            } + after.batch_sender.queue@,
        ),
{
    let queued = choose|queued: SrtlaConnection| #[trigger]
        queued.has_queued(&before, data, seq, now) && match full_batch {
            Some(batch) => {
                &&& queued.batch_sender.queue@.len() >= BATCH_SIZE_THRESHOLD
                &&& batch@ == queued.batch_sender.queue@
                &&& after.has_taken_batch(&queued, now)
            },
            None => {
                &&& queued.batch_sender.queue@.len() < BATCH_SIZE_THRESHOLD
                &&& after == queued
            },
        };
    let all = queued.batch_sender.queue@;
    assert(all =~= all.drop_last().push(all.last()));
    assert(packet_views(all) =~= packet_views(before.batch_sender.queue@).push(
        QueuedPacketView { data, seq, queued_ms: now },
    ));
    match full_batch {
        Some(batch) => {
            assert(batch@ + after.batch_sender.queue@ =~= all);
        },
        None => {
            assert(Seq::<QueuedPacket>::empty() + after.batch_sender.queue@ =~= all);
        },
    }
}

proof fn first_with_its_id(conns: Seq<SrtlaConnection>, i: int)
    requires
        0 <= i < conns.len(),
        forall|j: int| 0 <= j < i ==> (#[trigger] conns[j]).conn_id != conns[i].conn_id,
    ensures
        place_of(conns, conns[i].conn_id) == Some(i),
{
    let id = conns[i].conn_id;
    assert(is_link(conns, id, i));
    let k = choose|k: int| is_link(conns, id, k);
    assert(is_link(conns, id, k));
    if k < i {
        assert(conns[k].conn_id != id);
    }
    if i < k {
        assert(conns[i].conn_id != id);
    }
}

/// NAKs take nothing out of the logs but what they name, put nothing in, and grow no
/// window.
pub proof fn naks_only_take_what_they_name(
    before: Seq<SrtlaConnection>,
    after: Seq<SrtlaConnection>,
    tracker: SequenceTracker,
    naks: Seq<u32>,
    now: u64,
    i: int,
    seq: i32,
)
    requires
        naks_applied(before, after, tracker, naks, now),
        all_wf(before),
        0 <= i < before.len(),
    ensures
        after.len() == before.len(),
        all_wf(after),
        after[i].conn_id == before[i].conn_id,
        1000 <= after[i].window <= before[i].window,
        after[i].packet_log@.contains_key(seq) ==> before[i].packet_log@.contains_key(seq),
        (forall|j: int| 0 <= j < naks.len() ==> (#[trigger] naks[j]) as i32 != seq) ==> (
        after[i].packet_log@.contains_key(seq) <==> before[i].packet_log@.contains_key(seq)),
    decreases naks.len(),
{
    if naks.len() > 0 {
        let front = naks.drop_last();
        let mid = choose|mid: Seq<SrtlaConnection>|
            {
                &&& naks_applied(before, mid, tracker, front, now)
                &&& #[trigger] nak_step(mid, after, tracker, naks.last(), now)
            };
        naks_only_take_what_they_name(before, mid, tracker, front, now, i, seq);
        assert forall|j: int| 0 <= j < mid.len() implies (#[trigger] after[j]).wf() by {
            assert(mid[j].wf());
        }
        assert(mid[i].wf());
        assert(after[i].wf());
        if forall|j: int| 0 <= j < naks.len() ==> (#[trigger] naks[j]) as i32 != seq {
            assert forall|j: int| 0 <= j < front.len() implies (#[trigger] front[j]) as i32
                != seq by {
                assert(naks[j] as i32 != seq);
            }
            assert(naks[naks.len() - 1] as i32 != seq);
        }
    }
}

/// Every NAK of a list counts: the packet that it names has left the log of the link
/// that it is traced to; where it is traced to none, that of the first link that had it.
pub proof fn every_nak_counts(
    before: Seq<SrtlaConnection>,
    after: Seq<SrtlaConnection>,
    tracker: SequenceTracker,
    naks: Seq<u32>,
    now: u64,
    k: int,
    i: int,
)
    requires
        naks_applied(before, after, tracker, naks, now),
        all_wf(before),
        0 <= i < before.len(),
        0 <= k < naks.len(),
    ensures
        after.len() == before.len(),
        tracker.link_of(naks[k], now) == Some(before[i].conn_id) && (forall|j: int|
            0 <= j < i ==> (#[trigger] before[j]).conn_id != before[i].conn_id)
            ==> !after[i].packet_log@.contains_key(naks[k] as i32),
        tracker.link_of(naks[k], now) is None && (forall|j: int|
            0 <= j < i ==> !(#[trigger] before[j]).packet_log@.contains_key(naks[k] as i32))
            ==> !after[i].packet_log@.contains_key(naks[k] as i32),
    decreases naks.len(),
{
    let front = naks.drop_last();
    let seq = naks[k] as i32;
    let mid = choose|mid: Seq<SrtlaConnection>|
        {
            &&& naks_applied(before, mid, tracker, front, now)
            &&& #[trigger] nak_step(mid, after, tracker, naks.last(), now)
        };
    naks_only_take_what_they_name(before, mid, tracker, front, now, i, seq);
    assert forall|j: int| 0 <= j < before.len() implies (#[trigger] mid[j]).conn_id
        == before[j].conn_id && (mid[j].packet_log@.contains_key(seq)
        ==> before[j].packet_log@.contains_key(seq)) by {
        naks_only_take_what_they_name(before, mid, tracker, front, now, j, seq);
    }
    if k < front.len() {
        assert(front[k] == naks[k]);
        every_nak_counts(before, mid, tracker, front, now, k, i);
        assert(mid[i].wf());
    } else if tracker.link_of(naks[k], now) == Some(before[i].conn_id) && (forall|j: int|
        0 <= j < i ==> (#[trigger] before[j]).conn_id != before[i].conn_id) {
        assert forall|j: int| 0 <= j < i implies (#[trigger] mid[j]).conn_id != mid[i].conn_id by {
            assert(before[j].conn_id != before[i].conn_id);
        }
        first_with_its_id(mid, i);
    } else if tracker.link_of(naks[k], now) is None && (forall|j: int|
        0 <= j < i ==> !(#[trigger] before[j]).packet_log@.contains_key(seq)) {
        assert forall|j: int| 0 <= j < i implies !(#[trigger] mid[j]).packet_log@.contains_key(
            seq,
        ) by {
            assert(!before[j].packet_log@.contains_key(seq));
        }
        assert(is_asked(mid, seq, i));
    }
}

/// One NAK that is traced to a link which is there charges no other.
pub proof fn nak_charges_one_link(
    before: Seq<SrtlaConnection>,
    after: Seq<SrtlaConnection>,
    tracker: SequenceTracker,
    nak: u32,
    now: u64,
    i: int,
    k: int,
)
    requires
        nak_step(before, after, tracker, nak, now),
        0 <= i < before.len(),
        0 <= k < before.len(),
        i != k,
        forall|j: int| 0 <= j < k ==> (#[trigger] before[j]).conn_id != before[k].conn_id,
    ensures
        tracker.link_of(nak, now) == Some(before[k].conn_id) ==> after[i] == before[i],
        tracker.link_of(nak, now) == Some(before[k].conn_id) ==> after[k].follows_nak(
            &before[k],
            nak as i32,
            now,
        ),
        tracker.link_of(nak, now) is None && k < i && before[k].packet_log@.contains_key(nak as i32)
            ==> after[i] == before[i],
{
    first_with_its_id(before, k);
    if tracker.link_of(nak, now) is None && k < i && before[k].packet_log@.contains_key(
        nak as i32,
    ) {
        assert(!is_asked(before, nak as i32, i));
    }
}

/// Every SRTLA ACK of a list counts: the packet that it names has left the log of the
/// first link that had it. Nothing else leaves a log or enters one, no window shrinks,
/// and a connected link that heard from the receiver gains one unit of window for each
/// at least.
pub proof fn every_srtla_ack_counts(
    before: Seq<SrtlaConnection>,
    after: Seq<SrtlaConnection>,
    acks: Seq<u32>,
    classic: bool,
    now: u64,
    i: int,
    seq: i32,
)
    requires
        srtla_acks_applied(before, after, acks, classic, now),
        all_wf(before),
        0 <= i < before.len(),
    ensures
        after.len() == before.len(),
        all_wf(after),
        after[i].connected == before[i].connected,
        after[i].last_received == before[i].last_received,
        after[i].packet_log@.contains_key(seq) ==> before[i].packet_log@.contains_key(seq),
        (forall|j: int| 0 <= j < acks.len() ==> (#[trigger] acks[j]) as i32 != seq) ==> (
        after[i].packet_log@.contains_key(seq) <==> before[i].packet_log@.contains_key(seq)),
        (exists|j: int| 0 <= j < acks.len() && (#[trigger] acks[j]) as i32 == seq) && (forall|j: int|
            0 <= j < i ==> !(#[trigger] before[j]).packet_log@.contains_key(seq))
            ==> !after[i].packet_log@.contains_key(seq),
        before[i].window <= after[i].window <= 60_000,
        before[i].connected && before[i].last_received is Some ==> after[i].window >= if
            before[i].window + acks.len() < 60_000 {
            before[i].window + acks.len()
        } else {
            60_000
        },
    decreases acks.len(), i,
{
    if acks.len() > 0 {
        let front = acks.drop_last();
        let (mid, own) = choose|mid: Seq<SrtlaConnection>, own: Seq<SrtlaConnection>|
            {
                &&& srtla_acks_applied(before, mid, front, classic, now)
                &&& #[trigger] owner_step(mid, own, acks.last(), classic, now)
                &&& after == after_global_acks(own)
            };
        every_srtla_ack_counts(before, mid, front, classic, now, i, seq);
        assert forall|j: int| 0 <= j < mid.len() implies (#[trigger] after[j]).wf() by {
            assert(mid[j].wf());
            assert(own[j].wf());
        }
        assert(mid[i].wf());
        assert(own[i].wf());
        assert(own[i].window >= mid[i].window);
        if exists|j: int| 0 <= j < front.len() && (#[trigger] front[j]) as i32 == seq {
            let j = choose|j: int| 0 <= j < front.len() && (#[trigger] front[j]) as i32 == seq;
            assert(acks[j] as i32 == seq);
        } else {
            assert forall|j: int| 0 <= j < front.len() implies (#[trigger] front[j]) as i32
                != seq by {}
            if acks.last() as i32 == seq {
                assert(acks[acks.len() - 1] as i32 == seq);
                if forall|j: int|
                    0 <= j < i ==> !(#[trigger] before[j]).packet_log@.contains_key(seq) {
                    assert forall|j: int| 0 <= j < i implies !(
                    #[trigger] mid[j]).packet_log@.contains_key(seq) by {
                        every_srtla_ack_counts(before, mid, front, classic, now, j, seq);
                        assert(!before[j].packet_log@.contains_key(seq));
                    }
                    assert(is_asked(mid, seq, i));
                }
            } else {
                assert forall|j: int| 0 <= j < acks.len() implies (#[trigger] acks[j]) as i32
                    != seq by {
                    if j < front.len() {
                        assert(front[j] as i32 != seq);
                    }
                }
            }
        }
    }
}

/// Every cumulative ACK of a list reaches every link: none has a lower highest ACK
/// afterwards, nothing enters a log, and no window changes.
pub proof fn every_ack_reaches_all_links(
    before: Seq<SrtlaConnection>,
    after: Seq<SrtlaConnection>,
    acks: Seq<u32>,
    now: u64,
    samples: Seq<(usize, u64)>,
    i: int,
    seq: i32,
)
    requires
        acks_applied(before, after, acks, now, samples),
        0 <= i < before.len(),
    ensures
        after.len() == before.len(),
        after[i].window == before[i].window,
        after[i].highest_acked_seq >= before[i].highest_acked_seq,
        forall|j: int|
            0 <= j < acks.len() ==> after[i].highest_acked_seq >= (#[trigger] acks[j]) as i32,
        after[i].packet_log@.contains_key(seq) ==> before[i].packet_log@.contains_key(seq),
        before[i].packet_log@.contains_key(seq) && seq > after[i].highest_acked_seq
            ==> after[i].packet_log@.contains_key(seq),
        before[i].highest_acked_seq < seq <= after[i].highest_acked_seq
            ==> !after[i].packet_log@.contains_key(seq),
    decreases acks.len(),
{
    if acks.len() > 0 {
        let front = acks.drop_last();
        let (mid, earlier) = choose|mid: Seq<SrtlaConnection>, earlier: Seq<(usize, u64)>|
            {
                &&& acks_applied(before, mid, front, now, earlier)
                &&& #[trigger] ack_step(mid, after, acks.last(), now)
                &&& samples == #[trigger] joined_samples(
                    earlier,
                    ack_samples(mid, acks.last(), now, mid.len()),
                )
            };
        every_ack_reaches_all_links(before, mid, front, now, earlier, i, seq);
        assert(after[i].follows_srt_ack(&mid[i], acks.last() as i32, now));
        assert forall|j: int| 0 <= j < acks.len() implies after[i].highest_acked_seq >= (
        #[trigger] acks[j]) as i32 by {
            if j < front.len() {
                assert(front[j] == acks[j]);
            }
        }
    }
}

/// The samples of a cumulative ACK are those of the links, each with its place.
pub proof fn ack_samples_are_the_links_own(
    conns: Seq<SrtlaConnection>,
    ack: u32,
    now: u64,
    n: nat,
    i: usize,
    rtt: u64,
)
    requires
        n <= conns.len() <= usize::MAX,
    ensures
        ack_samples(conns, ack, now, n).contains((i, rtt)) <==> i < n
            && conns[i as int].ack_sample(ack as i32, now) == Some(rtt),
    decreases n,
{
    if n > 0 {
        let front = ack_samples(conns, ack, now, (n - 1) as nat);
        let all = ack_samples(conns, ack, now, n);
        ack_samples_are_the_links_own(conns, ack, now, (n - 1) as nat, i, rtt);
        if conns[n - 1].ack_sample(ack as i32, now) is Some {
            let last = ((n - 1) as usize, conns[n - 1].ack_sample(ack as i32, now)->0);
            assert(all == front.push(last));
            assert(all[front.len() as int] == last);
            if front.contains((i, rtt)) {
                let k = choose|k: int| 0 <= k < front.len() && front[k] == (i, rtt);
                assert(all[k] == (i, rtt));
            }
            if all.contains((i, rtt)) && (i, rtt) != last {
                let k = choose|k: int| 0 <= k < all.len() && all[k] == (i, rtt);
                assert(front[k] == (i, rtt));
            }
        }
    }
}

/// A packet of the client that was queued is traced to its link for five seconds, where
/// it has a number; that link counts as the last one, and the time of the change is now
/// where it was not already. No other link changes but the last one, where that had
/// packets queued: all of those go out now.
pub proof fn forwarded_packet_is_traced(
    before: Seq<SrtlaConnection>,
    after: Seq<SrtlaConnection>,
    route: RouteView,
    next: RouteView,
    sel_idx: usize,
    pkt: Seq<u8>,
    seq: Option<u32>,
    now: u64,
    forwarded: Forwarded,
    later: u64,
    i: int,
)
    requires
        forwards(before, after, route, next, sel_idx, pkt, seq, now, forwarded),
        sel_idx < before.len(),
        0 <= i < before.len(),
        i != sel_idx,
    ensures
        seq is Some && later <= now + 5000 ==> next.tracker.link_of(seq->0, later) == Some(
            before[sel_idx as int].conn_id,
        ),
        seq is None ==> next.tracker == route.tracker,
        next.last_selected_idx == Some(sel_idx),
        route.last_selected_idx == Some(sel_idx) ==> next.last_switch_time_ms
            == route.last_switch_time_ms && forwarded.switched_from is None,
        route.last_selected_idx != Some(sel_idx) ==> next.last_switch_time_ms == now,
        route.last_selected_idx != Some(i as usize) || before[i].batch_sender.queue@.len() == 0
            ==> i <= usize::MAX ==> after[i] == before[i],
        route.last_selected_idx == Some(i as usize) && i <= usize::MAX
            && before[i].batch_sender.queue@.len() > 0 ==> {
            &&& forwarded.switched_from is Some
            &&& (forwarded.switched_from->0).0 == i
            &&& (forwarded.switched_from->0).1@ == before[i].batch_sender.queue@
            &&& after[i].batch_sender.queue@.len() == 0
        },
        forwarded.full_batch is Some <==> before[sel_idx as int].batch_sender.queue@.len() >= 15,
        forwarded.full_batch is Some ==> after[sel_idx as int].batch_sender.queue@.len() == 0,
        forwarded.full_batch is None ==> after[sel_idx as int].batch_sender.queue@.len()
            == before[sel_idx as int].batch_sender.queue@.len() + 1,
{
    if let Some(s) = seq {
        let other: u32 = if s == 0 {
            1
        } else {
            0
        };
        number_is_traced_to_its_link(
            route.tracker,
            next.tracker,
            s,
            before[sel_idx as int].conn_id,
            now,
            other,
            later,
        );
    }
}

/// Before registration is through, a packet goes out on the last link where that is
/// connected and heard from the receiver within 15 seconds; else on a link that has not
/// timed out, and on none before it. It finds no link only where all have timed out.
pub proof fn early_packets_go_to_a_live_link(
    before: Seq<SrtlaConnection>,
    ready: Seq<SrtlaConnection>,
    last_selected_idx: Option<usize>,
    config: ConfigSnapshot,
    inputs: SelectionInputs,
    now: u64,
    choice: Option<usize>,
    i: int,
)
    requires
        routes_to(before, ready, last_selected_idx, false, config, inputs, now, choice),
        0 <= i < before.len(),
    ensures
        ready == before,
        last_selected_idx == Some(i as usize) && i <= usize::MAX && before[i].connected && (
        before[i].last_received is None || now < before[i].last_received->0 + 15_000) ==> choice
            == last_selected_idx,
        choice is Some ==> choice->0 < before.len() && !before[choice->0 as int].timed_out(now),
        choice is Some && choice != last_selected_idx && i < choice->0 ==> before[i].timed_out(now),
        choice is None ==> before[i].timed_out(now),
{
}

/// The queues that a flush gives are those of the links, each with its place, and after
/// it no link has a packet queued.
pub proof fn flush_takes_all_queues(
    before: Seq<SrtlaConnection>,
    after: Seq<SrtlaConnection>,
    now: u64,
    batches: Seq<(usize, Vec<QueuedPacket>)>,
    i: int,
)
    requires
        all_flushed(before, after, now, batches),
        0 <= i < before.len() <= usize::MAX,
    ensures
        after[i].batch_sender.queue@.len() == 0,
        before[i].batch_sender.queue@.len() > 0 <==> exists|k: int|
            0 <= k < batches.len() && (#[trigger] batches[k]).0 == i,
        forall|k: int|
            0 <= k < batches.len() && (#[trigger] batches[k]).0 == i ==> batches[k].1@
                == before[i].batch_sender.queue@,
        before[i].batch_sender.queue@.len() == 0 ==> after[i] == before[i],
{
    let list = waiting_batches(before, before.len());
    waiting_batches_are_the_links_own(before, before.len(), i);
    assert(batch_contents(batches).len() == batches.len());
    assert forall|k: int| 0 <= k < batches.len() implies list[k] == (
        (#[trigger] batches[k]).0,
        batches[k].1@,
    ) by {
        assert(batch_contents(batches)[k] == (batches[k].0, batches[k].1@));
    }
    if before[i].batch_sender.queue@.len() > 0 {
        let k = choose|k: int| 0 <= k < list.len() && (#[trigger] list[k]).0 == i;
        assert(batches[k].0 == i);
    }
    if exists|k: int| 0 <= k < batches.len() && (#[trigger] batches[k]).0 == i {
        let k = choose|k: int| 0 <= k < batches.len() && (#[trigger] batches[k]).0 == i;
        assert(list[k].0 == i);
    }
    assert(after[i].has_taken_batch(&before[i], now) || after[i] == before[i]);
}

proof fn waiting_batches_are_the_links_own(conns: Seq<SrtlaConnection>, n: nat, i: int)
    requires
        n <= conns.len() <= usize::MAX,
        0 <= i,
    ensures
        i < n && conns[i].batch_sender.queue@.len() > 0 <==> exists|k: int|
            0 <= k < waiting_batches(conns, n).len() && (#[trigger] waiting_batches(
                conns,
                n,
            )[k]).0 == i,
        forall|k: int|
            0 <= k < waiting_batches(conns, n).len() && (#[trigger] waiting_batches(conns, n)[k]).0
                == i ==> waiting_batches(conns, n)[k].1 == conns[i].batch_sender.queue@,
    decreases n,
{
    if n > 0 {
        let front = waiting_batches(conns, (n - 1) as nat);
        let all = waiting_batches(conns, n);
        waiting_batches_are_the_links_own(conns, (n - 1) as nat, i);
        assert forall|k: int| 0 <= k < front.len() implies #[trigger] all[k] == front[k] by {}
        if i < n && conns[i].batch_sender.queue@.len() > 0 {
            if i < n - 1 {
                let k = choose|k: int| 0 <= k < front.len() && (#[trigger] front[k]).0 == i;
                assert(all[k].0 == i);
            } else {
                assert(all[front.len() as int].0 == i);
            }
        }
        assert forall|k: int| 0 <= k < all.len() && (#[trigger] all[k]).0 == i implies i < n
            && conns[i].batch_sender.queue@.len() > 0 && all[k].1
            == conns[i].batch_sender.queue@ by {
            if k < front.len() {
                assert(front[k].0 == i);
            }
        }
    }
}

/// A packet from the receiver that is neither of SRTLA nor an ACK nor a NAK changes no
/// link but its own, where only the time of the last packet is new; it goes to the
/// client as it is. A packet is dropped only where it is empty or its link is gone.
pub proof fn other_packets_pass_through(
    before: Seq<SrtlaConnection>,
    after: Seq<SrtlaConnection>,
    reg: SrtlaRegistrationManager,
    next: SrtlaRegistrationManager,
    packet: UplinkPacket,
    tracker: SequenceTracker,
    classic: bool,
    now: u64,
    outcome: Option<UplinkOutcome>,
    i: int,
)
    requires
        uplink_handled(before, after, reg, next, packet, tracker, classic, now, outcome),
        packet_bytes(&packet.bytes).len() >= 2,
        0 <= i < before.len(),
        before[i].conn_id == packet.conn_id,
        forall|j: int| 0 <= j < before.len() && j != i ==> (#[trigger] before[j]).conn_id
            != packet.conn_id,
    ensures
        outcome is Some,
        outcome->0.idx == i,
        ({
            let first = packet_bytes(&packet.bytes)[0];
            let second = packet_bytes(&packet.bytes)[1];
            first < 0x80 || (first == 0x80 && second != 0x02 && second != 0x03) ==> {
                &&& after == before.update(
                    i,
                    (SrtlaConnection { last_received: Some(now), ..before[i] }),
                )
                &&& next == reg
                &&& outcome->0.incoming@.forward == seq![packet_bytes(&packet.bytes)]
                &&& outcome->0.samples@.len() == 0
            }
        }),
{
    let data = packet_bytes(&packet.bytes);
    assert(is_link(before, packet.conn_id, i));
    let o = outcome->0;
    if o.idx < i {
        assert(before[o.idx as int].conn_id != packet.conn_id);
    }
    if data[0] < 0x80 || (data[0] == 0x80 && data[1] != 0x02 && data[1] != 0x03) {
        assert(o.incoming@.acks == Seq::<u32>::empty());
        assert(o.incoming@.naks == Seq::<u32>::empty());
        assert(o.incoming@.srtla_acks == Seq::<u32>::empty());
        assert(o.incoming@.forward =~= seq![data]);
    }
}

/// A packet that is empty, or whose link is gone, changes nothing at all; every other packet
/// of a link has an outcome, under the link's place.
pub proof fn lost_packets_change_nothing(
    before: Seq<SrtlaConnection>,
    after: Seq<SrtlaConnection>,
    reg: SrtlaRegistrationManager,
    next: SrtlaRegistrationManager,
    packet: UplinkPacket,
    tracker: SequenceTracker,
    classic: bool,
    now: u64,
    outcome: Option<UplinkOutcome>,
)
    requires
        uplink_handled(before, after, reg, next, packet, tracker, classic, now, outcome),
    ensures
        packet_bytes(&packet.bytes).len() == 0 || (forall|i: int|
            0 <= i < before.len() ==> (#[trigger] before[i]).conn_id != packet.conn_id)
            ==> outcome is None,
        outcome is None ==> after == before && next == reg,
        outcome matches Some(o) ==> o.idx < before.len() && before[o.idx as int].conn_id
            == packet.conn_id,
{
}

/// A packet that finds no link goes nowhere: the route stays, and so do the links, but for
/// their gates once a link was registered. An empty packet does nothing.
pub proof fn packet_without_a_link_goes_nowhere(
    before: Seq<SrtlaConnection>,
    after: Seq<SrtlaConnection>,
    route: RouteView,
    next: RouteView,
    pkt: Seq<u8>,
    registration_complete: bool,
    config: ConfigSnapshot,
    inputs: SelectionInputs,
    now: u64,
    forwarded: Option<Forwarded>,
    i: int,
)
    requires
        client_handled(
            before,
            after,
            route,
            next,
            pkt,
            registration_complete,
            config,
            inputs,
            now,
            forwarded,
        ),
        0 <= i < before.len(),
    ensures
        pkt.len() == 0 ==> forwarded is None,
        forwarded is None ==> next == route && after.len() == before.len(),
        forwarded is None ==> after[i] == (SrtlaConnection {
            stall_gated: after[i].stall_gated,
            ..before[i]
        }),
        forwarded is None && !registration_complete ==> after == before,
        pkt.len() > 0 && forwarded is None && !registration_complete ==> before[i].timed_out(now),
        pkt.len() > 0 && forwarded is None && registration_complete ==> mode_choice(
            after,
            route.last_selected_idx,
            now,
            config,
            inputs,
        ) is None,
{
}

} // verus!
