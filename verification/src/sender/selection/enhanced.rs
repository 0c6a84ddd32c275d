//! Enhanced selection: capacity and quality, with links held back that are
//! overfull, weak or lossy, and no switch for a marginal gain.

use crate::clock::{elapsed, since};
use crate::connection::link::{OrderKey, SrtlaConnection};
use crate::sender::selection::exploration::{explores, should_explore_now};
use crate::sender::selection::rank::{
    best_two_of, first_max, first_max_facts, second_max, without,
};
use vstd::prelude::*;

verus! {

/// Bytes that a data packet is taken to hold.
pub const ASSUMED_SRT_PAYLOAD_BYTES: u64 = 1316;

/// Time after a switch in which no other switch is made. Zero: selection is free
/// to decide anew for every packet.
pub const MIN_SWITCH_INTERVAL_MS: u64 = 0;

/// The key of -1.0, which no usable score is at or below.
pub const MINUS_ONE_KEY: OrderKey = -0x3ff0_0000_0000_0000;

/// A link's score as the caller computed it, in two versions: as it stands, and
/// lowered because the link is held back. Each comes with the key of the score
/// that a rival needs to take over, a tenth above it.
#[derive(Debug, Clone, Copy, PartialEq, Eq, Structural)]
pub struct LinkScore {
    pub open: OrderKey,
    pub open_hold: OrderKey,
    pub gated: OrderKey,
    pub gated_hold: OrderKey,
}

/// One and a half times what fits the path at a rate of `bps` and a round-trip
/// time of `rtt_ms`, in packets: bits per second times seconds, over eight bits
/// and the bytes of a packet.
pub open spec fn path_packets(bps: int, rtt_ms: int) -> int {
    (bps * rtt_ms * 3) / (2 * 8 * 1000 * ASSUMED_SRT_PAYLOAD_BYTES)
}

/// The most packets that a link should have in flight: at least one, and none
/// where rate control has no target yet. Before the first round-trip time, one
/// millisecond is taken.
pub open spec fn in_flight_cap(cc_target_bps: u64, rtt_min_ms: u64) -> Option<int> {
    if cc_target_bps == 0 {
        None
    } else {
        let packets = path_packets(
            cc_target_bps as int,
            if rtt_min_ms == 0 {
                1
            } else {
                rtt_min_ms as int
            },
        );
        Some(
            if packets < 1 {
                1
            } else if packets > i32::MAX {
                i32::MAX as int
            } else {
                packets
            },
        )
    }
}

/// The most packets that a link should have in flight.
pub fn in_flight_cap_packets(cc_target_bps: u64, rtt_min_ms: u64) -> (cap: Option<i32>)
    ensures
        match cap {
            Some(n) => in_flight_cap(cc_target_bps, rtt_min_ms) == Some(n as int),
            None => in_flight_cap(cc_target_bps, rtt_min_ms) is None,
        },
{
    if cc_target_bps == 0 {
        return None;
    }
    let rtt: u64 = if rtt_min_ms == 0 {
        1
    } else {
        rtt_min_ms
    };
    let unit: u128 = 21_056_000;
    let bound: u128 = 45217415692288000;
    proof {
        let a = cc_target_bps as int;
        let b = rtt as int;
        assert(a * b <= 0xffff_ffff_ffff_ffff * 0xffff_ffff_ffff_ffff) by (nonlinear_arith)
            requires
                0 <= a <= 0xffff_ffff_ffff_ffff,
                0 <= b <= 0xffff_ffff_ffff_ffff,
        ;
        assert(0 <= a * b) by (nonlinear_arith)
            requires
                0 <= a,
                0 <= b,
        ;
    }
    let product: u128 = (cc_target_bps as u128) * (rtt as u128);
    if product >= bound {
        assert(path_packets(cc_target_bps as int, rtt as int) > i32::MAX);
        return Some(i32::MAX);
    }
    let packets: u128 = product * 3 / unit;
    assert(packets == path_packets(cc_target_bps as int, rtt as int));
    if packets < 1 {
        Some(1)
    } else if packets > i32::MAX as u128 {
        Some(i32::MAX)
    } else {
        Some(packets as i32)
    }
}

/// Whether a link has more packets in flight than its path takes.
pub open spec fn cap_exceeded(c: SrtlaConnection) -> bool {
    match in_flight_cap(c.cc_target_bps, c.rtt.rtt_min_ms) {
        Some(cap) => c.in_flight_packets > cap,
        None => false,
    }
}

/// Whether a link has more packets in flight than its path takes.
pub fn in_flight_cap_exceeded(c: &SrtlaConnection) -> (r: bool)
    ensures
        r == cap_exceeded(*c),
{
    match in_flight_cap_packets(c.cc_target_bps, c.rtt.rtt_min_ms) {
        Some(cap) => c.in_flight_packets > cap,
        None => false,
    }
}

/// Whether a link can be chosen at all.
pub open spec fn usable(c: SrtlaConnection, now_ms: u64) -> bool {
    !c.timed_out(now_ms) && c.phase !is Registering && !c.stall_gated
}

/// Whether nothing speaks against a link.
pub open spec fn unconstrained(c: SrtlaConnection, now_ms: u64) -> bool {
    usable(c, now_ms) && !c.weak && !c.loss_degraded && !cap_exceeded(c)
}

/// Whether there is a link that nothing speaks against.
pub open spec fn any_unconstrained(conns: Seq<SrtlaConnection>, now_ms: u64) -> bool {
    exists|i: int| 0 <= i < conns.len() && unconstrained(#[trigger] conns[i], now_ms)
}

/// Whether a link's lowered score counts: it is weak or lossy, and a link that
/// nothing speaks against is there.
pub open spec fn held_back(c: SrtlaConnection, relief: bool) -> bool {
    relief && (c.weak || c.loss_degraded)
}

/// The scores by which the links are ranked. Without relief by a link that nothing
/// speaks against, every usable link takes part with its full score.
pub open spec fn score_keys(
    conns: Seq<SrtlaConnection>,
    scores: Seq<LinkScore>,
    now_ms: u64,
) -> Seq<Option<i64>> {
    let relief = any_unconstrained(conns, now_ms);
    Seq::new(
        conns.len(),
        |i: int|
            if !usable(conns[i], now_ms) || (relief && cap_exceeded(conns[i])) {
                None
            } else if held_back(conns[i], relief) {
                Some(scores[i].gated)
            } else {
                Some(scores[i].open)
            },
    )
}

/// The score that a rival of link `i` needs.
pub open spec fn hold_key(
    conns: Seq<SrtlaConnection>,
    scores: Seq<LinkScore>,
    now_ms: u64,
    i: int,
) -> OrderKey {
    if held_back(conns[i], any_unconstrained(conns, now_ms)) {
        scores[i].gated_hold
    } else {
        scores[i].open_hold
    }
}

/// Whether the present link is kept although another ranks best: within the time
/// after a switch, or where the best is not better by enough.
pub open spec fn keeps_current(
    conns: Seq<SrtlaConnection>,
    scores: Seq<LinkScore>,
    last: usize,
    last_switch_time_ms: u64,
    now_ms: u64,
) -> bool {
    let keys = score_keys(conns, scores, now_ms);
    let best = first_max(keys, MINUS_ONE_KEY);
    let best_key = match best {
        Some(b) => keys[b as int]->0,
        None => MINUS_ONE_KEY,
    };
    let cooling = since(now_ms, last_switch_time_ms) < MIN_SWITCH_INTERVAL_MS;
    &&& best != Some(last)
    &&& last < conns.len()
    &&& {
        ||| cooling && usable(conns[last as int], now_ms) && conns[last as int].connected
        ||| keys[last as int] is Some && best_key < hold_key(conns, scores, now_ms, last as int)
    }
}

/// The link that enhanced selection chooses.
pub open spec fn enhanced_choice(
    conns: Seq<SrtlaConnection>,
    scores: Seq<LinkScore>,
    last_idx: Option<usize>,
    last_switch_time_ms: u64,
    now_ms: u64,
    uptime_ms: u64,
    enable_explore: bool,
) -> Option<usize> {
    let keys = score_keys(conns, scores, now_ms);
    let best = first_max(keys, MINUS_ONE_KEY);
    let second = second_max(keys, MINUS_ONE_KEY);
    let cooling = since(now_ms, last_switch_time_ms) < MIN_SWITCH_INTERVAL_MS;
    if last_idx is Some && keeps_current(
        conns,
        scores,
        last_idx->0,
        last_switch_time_ms,
        now_ms,
    ) {
        last_idx
    } else if enable_explore && !cooling && explores(conns, best, second, now_ms, uptime_ms)
        && second is Some && last_idx is Some && second != last_idx {
        second
    } else {
        best
    }
}

fn link_keys(conns: &[SrtlaConnection], scores: &[LinkScore], now_ms: u64, relief: bool) -> (keys:
    Vec<Option<i64>>)
    requires
        conns@.len() == scores@.len(),
        relief == any_unconstrained(conns@, now_ms),
    ensures
        keys@ == score_keys(conns@, scores@, now_ms),
{
    let ghost all = score_keys(conns@, scores@, now_ms);
    let mut keys: Vec<Option<i64>> = Vec::new();
    let mut i: usize = 0;
    while i < conns.len()
        invariant
            i <= conns@.len(),
            conns@.len() == scores@.len(),
            relief == any_unconstrained(conns@, now_ms),
            all == score_keys(conns@, scores@, now_ms),
            keys@ == all.take(i as int),
        decreases conns@.len() - i,
    {
        let c = &conns[i];
        if c.is_timed_out(now_ms) || !c.is_schedulable() || c.stall_gated {
            keys.push(None);
        } else if relief && in_flight_cap_exceeded(c) {
            keys.push(None);
        } else if relief && (c.weak || c.loss_degraded) {
            keys.push(Some(scores[i].gated));
        } else {
            keys.push(Some(scores[i].open));
        }
        i += 1;
        assert(keys@ =~= all.take(i as int));
    }
    assert(keys@ =~= all);
    keys
}

fn has_relief(conns: &[SrtlaConnection], now_ms: u64) -> (r: bool)
    ensures
        r == any_unconstrained(conns@, now_ms),
{
    let mut i: usize = 0;
    while i < conns.len()
        invariant
            i <= conns@.len(),
            forall|j: int| 0 <= j < i ==> !unconstrained(#[trigger] conns@[j], now_ms),
        decreases conns@.len() - i,
    {
        let c = &conns[i];
        if !c.is_timed_out(now_ms) && c.is_schedulable() && !c.weak && !c.loss_degraded
            && !c.stall_gated && !in_flight_cap_exceeded(c) {
            assert(unconstrained(conns@[i as int], now_ms));
            return true;
        }
        i += 1;
    }
    false
}

/// Chooses a link by score. Links whose path is full are left out, and weak or
/// lossy ones count with their lowered score, as long as a link that nothing
/// speaks against is there. The present link is kept unless the best one is
/// better by a tenth. Exploration, where it is enabled and called for, takes the
/// runner-up instead of the best.
pub fn select_connection(
    conns: &[SrtlaConnection],
    scores: &[LinkScore],
    last_idx: Option<usize>,
    last_switch_time_ms: u64,
    current_time_ms: u64,
    uptime_ms: u64,
    enable_explore: bool,
) -> (idx: Option<usize>)
    requires
        conns@.len() == scores@.len(),
    ensures
        idx == enhanced_choice(
            conns@,
            scores@,
            last_idx,
            last_switch_time_ms,
            current_time_ms,
            uptime_ms,
            enable_explore,
        ),
        idx is Some ==> idx->0 < conns@.len(),
{
    let relief: bool = has_relief(conns, current_time_ms);
    let keys: Vec<Option<i64>> = link_keys(conns, scores, current_time_ms, relief);
    let (best, second) = best_two_of(&keys, MINUS_ONE_KEY);
    let best_key: i64 = match best {
        Some(b) => match keys[b] {
            Some(key) => key,
            None => MINUS_ONE_KEY,
        },
        None => MINUS_ONE_KEY,
    };
    let cooling: bool = elapsed(current_time_ms, last_switch_time_ms) < MIN_SWITCH_INTERVAL_MS;
    if let Some(last) = last_idx {
        if best != Some(last) && last < conns.len() {
            let c = &conns[last];
            if cooling && !c.is_timed_out(current_time_ms) && c.connected && c.is_schedulable()
                && !c.stall_gated {
                return Some(last);
            }
            if keys[last].is_some() {
                let hold: i64 = if relief && (c.weak || c.loss_degraded) {
                    scores[last].gated_hold
                } else {
                    scores[last].open_hold
                };
                if best_key < hold {
                    return Some(last);
                }
            }
        }
    }
    if enable_explore && !cooling && should_explore_now(
        conns,
        best,
        second,
        current_time_ms,
        uptime_ms,
    ) {
        if let Some(runner_up) = second {
            if let Some(last) = last_idx {
                if runner_up != last {
                    return second;
                }
            }
        }
        return best;
    }
    best
}

/// What is chosen is usable: neither timed out, nor unregistered, nor gated.
pub proof fn chosen_link_is_usable(
    conns: Seq<SrtlaConnection>,
    scores: Seq<LinkScore>,
    last_idx: Option<usize>,
    last_switch_time_ms: u64,
    now_ms: u64,
    uptime_ms: u64,
    enable_explore: bool,
)
    requires
        conns.len() == scores.len(),
        conns.len() <= usize::MAX,
    ensures
        match enhanced_choice(
            conns,
            scores,
            last_idx,
            last_switch_time_ms,
            now_ms,
            uptime_ms,
            enable_explore,
        ) {
            Some(i) => i < conns.len() && usable(conns[i as int], now_ms),
            None => true,
        },
{
    let keys = score_keys(conns, scores, now_ms);
    let best = first_max(keys, MINUS_ONE_KEY);
    first_max_facts(keys, MINUS_ONE_KEY);
    first_max_facts(without(keys, best), MINUS_ONE_KEY);
}

/// A link that is better by enough takes over at once, whatever the time since the
/// last switch.
pub proof fn clearly_better_link_takes_over(
    conns: Seq<SrtlaConnection>,
    scores: Seq<LinkScore>,
    last: usize,
    best: usize,
    last_switch_time_ms: u64,
    now_ms: u64,
    uptime_ms: u64,
)
    requires
        conns.len() == scores.len(),
        first_max(score_keys(conns, scores, now_ms), MINUS_ONE_KEY) == Some(best),
        last < conns.len(),
        score_keys(conns, scores, now_ms)[best as int]->0 >= hold_key(
            conns,
            scores,
            now_ms,
            last as int,
        ),
    ensures
        enhanced_choice(
            conns,
            scores,
            Some(last),
            last_switch_time_ms,
            now_ms,
            uptime_ms,
            false,
        ) == Some(best),
{
}

/// A link that is not better by enough does not take over from one that takes
/// part.
pub proof fn marginal_gain_keeps_the_link(
    conns: Seq<SrtlaConnection>,
    scores: Seq<LinkScore>,
    last: usize,
    best: usize,
    last_switch_time_ms: u64,
    now_ms: u64,
    uptime_ms: u64,
    enable_explore: bool,
)
    requires
        conns.len() == scores.len(),
        first_max(score_keys(conns, scores, now_ms), MINUS_ONE_KEY) == Some(best),
        last < conns.len(),
        last != best,
        score_keys(conns, scores, now_ms)[last as int] is Some,
        score_keys(conns, scores, now_ms)[best as int]->0 < hold_key(
            conns,
            scores,
            now_ms,
            last as int,
        ),
    ensures
        enhanced_choice(
            conns,
            scores,
            Some(last),
            last_switch_time_ms,
            now_ms,
            uptime_ms,
            enable_explore,
        ) == Some(last),
{
}

/// Whether a link has more packets in flight than one and a half times what its path
/// holds: its target rate over its smallest round-trip time, in packets of 1316
/// bytes. One packet is never too many, and without a target no number is.
pub open spec fn overfull(c: SrtlaConnection) -> bool {
    let rtt_ms = if c.rtt.rtt_min_ms == 0 {
        1int
    } else {
        c.rtt.rtt_min_ms as int
    };
    &&& c.cc_target_bps > 0
    &&& c.in_flight_packets > 1
    &&& c.in_flight_packets * (2 * 8 * 1000 * 1316) > 3 * (c.cc_target_bps * rtt_ms)
}

/// A link counts as overfull exactly where more is in flight than its path holds.
pub proof fn cap_is_what_the_path_holds(c: SrtlaConnection)
    ensures
        cap_exceeded(c) <==> overfull(c),
{
    let bps = c.cc_target_bps as int;
    let rtt_ms = if c.rtt.rtt_min_ms == 0 {
        1int
    } else {
        c.rtt.rtt_min_ms as int
    };
    let held = bps * rtt_ms;
    assert(held >= 0) by (nonlinear_arith)
        requires
            held == bps * rtt_ms,
            bps >= 0,
            rtt_ms >= 0,
    ;
    let n = c.in_flight_packets as int;
    let packets = path_packets(bps, rtt_ms);
    assert(packets == (held * 3) / 21_056_000);
    assert(n > packets <==> n * 21_056_000 > 3 * held);
    assert(overfull(c) <==> bps > 0 && n > 1 && n * 21_056_000 > 3 * held);
    if bps > 0 {
        assert(in_flight_cap(c.cc_target_bps, c.rtt.rtt_min_ms) is Some);
    }
}

/// Whether a link can be chosen and nothing speaks against it: it is alive, registered
/// and not passed over, neither weak nor lossy, and not overfull.
pub open spec fn blameless(c: SrtlaConnection, now_ms: u64) -> bool {
    &&& !c.timed_out(now_ms)
    &&& c.phase !is Registering
    &&& !c.stall_gated
    &&& !c.weak
    &&& !c.loss_degraded
    &&& !overfull(c)
}

/// Where a blameless link is there, an overfull link gets no packet, whatever its
/// score; and some link gets it, where the blameless one has a score at all.
pub proof fn overfull_link_gets_no_packet(
    conns: Seq<SrtlaConnection>,
    scores: Seq<LinkScore>,
    last_idx: Option<usize>,
    last_switch_time_ms: u64,
    now_ms: u64,
    uptime_ms: u64,
    enable_explore: bool,
    j: int,
)
    requires
        conns.len() == scores.len(),
        conns.len() <= usize::MAX,
        0 <= j < conns.len(),
        blameless(conns[j], now_ms),
    ensures
        match enhanced_choice(
            conns,
            scores,
            last_idx,
            last_switch_time_ms,
            now_ms,
            uptime_ms,
            enable_explore,
        ) {
            Some(i) => i < conns.len() && !overfull(conns[i as int]),
            None => scores[j].open <= MINUS_ONE_KEY,
        },
{
    let keys = score_keys(conns, scores, now_ms);
    cap_is_what_the_path_holds(conns[j]);
    assert(unconstrained(conns[j], now_ms));
    assert(any_unconstrained(conns, now_ms));
    first_max_facts(keys, MINUS_ONE_KEY);
    first_max_facts(without(keys, first_max(keys, MINUS_ONE_KEY)), MINUS_ONE_KEY);
    assert(keys[j] == Some(scores[j].open));
    let chosen = enhanced_choice(
        conns,
        scores,
        last_idx,
        last_switch_time_ms,
        now_ms,
        uptime_ms,
        enable_explore,
    );
    if chosen is Some {
        cap_is_what_the_path_holds(conns[chosen->0 as int]);
    }
}

/// Where a blameless link is there and no link was chosen before, the chosen link is
/// the first of those with the largest score among the links that are alive,
/// registered, not passed over and not overfull; a weak or lossy link counts with
/// its lowered score.
pub proof fn best_link_is_chosen_beside_a_blameless_one(
    conns: Seq<SrtlaConnection>,
    scores: Seq<LinkScore>,
    last_switch_time_ms: u64,
    now_ms: u64,
    uptime_ms: u64,
    enable_explore: bool,
    j: int,
    k: int,
)
    requires
        conns.len() == scores.len(),
        conns.len() <= usize::MAX,
        0 <= j < conns.len(),
        blameless(conns[j], now_ms),
        0 <= k < conns.len(),
        !conns[k].timed_out(now_ms) && conns[k].phase !is Registering && !conns[k].stall_gated
            && !overfull(conns[k]),
        scores[j].open > MINUS_ONE_KEY,
    ensures
        ({
            let chosen = enhanced_choice(
                conns,
                scores,
                None,
                last_switch_time_ms,
                now_ms,
                uptime_ms,
                enable_explore,
            );
            let i = chosen->0 as int;
            let mine = if conns[i].weak || conns[i].loss_degraded {
                scores[i].gated
            } else {
                scores[i].open
            };
            let other = if conns[k].weak || conns[k].loss_degraded {
                scores[k].gated
            } else {
                scores[k].open
            };
            &&& chosen is Some
            &&& other <= mine
            &&& k < i ==> other < mine
            &&& scores[j].open <= mine
        }),
{
    let keys = score_keys(conns, scores, now_ms);
    cap_is_what_the_path_holds(conns[j]);
    cap_is_what_the_path_holds(conns[k]);
    assert(unconstrained(conns[j], now_ms));
    assert(any_unconstrained(conns, now_ms));
    first_max_facts(keys, MINUS_ONE_KEY);
    assert(keys[j] == Some(scores[j].open));
    assert(keys[k] is Some);
}

/// Where something speaks against every link and no link was chosen before, all links
/// that are alive, registered and not passed over take part with their full score,
/// the overfull ones too: the first of the largest is chosen.
pub proof fn best_link_is_chosen_among_blamed_ones(
    conns: Seq<SrtlaConnection>,
    scores: Seq<LinkScore>,
    last_switch_time_ms: u64,
    now_ms: u64,
    uptime_ms: u64,
    enable_explore: bool,
    k: int,
)
    requires
        conns.len() == scores.len(),
        conns.len() <= usize::MAX,
        forall|j: int| 0 <= j < conns.len() ==> !blameless(#[trigger] conns[j], now_ms),
        0 <= k < conns.len(),
        !conns[k].timed_out(now_ms) && conns[k].phase !is Registering && !conns[k].stall_gated,
        scores[k].open > MINUS_ONE_KEY,
    ensures
        ({
            let chosen = enhanced_choice(
                conns,
                scores,
                None,
                last_switch_time_ms,
                now_ms,
                uptime_ms,
                enable_explore,
            );
            let i = chosen->0 as int;
            &&& chosen is Some
            &&& scores[k].open <= scores[i].open
            &&& k < i ==> scores[k].open < scores[i].open
        }),
{
    let keys = score_keys(conns, scores, now_ms);
    assert forall|j: int| 0 <= j < conns.len() implies !unconstrained(
        #[trigger] conns[j],
        now_ms,
    ) by {
        cap_is_what_the_path_holds(conns[j]);
        assert(!blameless(conns[j], now_ms));
    }
    first_max_facts(keys, MINUS_ONE_KEY);
    assert(keys[k] == Some(scores[k].open));
}

/// Of two blameless links, the present one is kept as long as the other's score is
/// below the one that a rival needs, and given up once it is not; with exploration
/// off and no third link.
pub proof fn rival_needs_a_tenth_more(
    conns: Seq<SrtlaConnection>,
    scores: Seq<LinkScore>,
    last: usize,
    other: usize,
    last_switch_time_ms: u64,
    now_ms: u64,
    uptime_ms: u64,
)
    requires
        conns.len() == scores.len() == 2,
        last < 2 && other < 2 && last != other,
        blameless(conns[0], now_ms),
        blameless(conns[1], now_ms),
        scores[0].open > MINUS_ONE_KEY,
        scores[1].open > MINUS_ONE_KEY,
        scores[other as int].open > scores[last as int].open,
    ensures
        enhanced_choice(
            conns,
            scores,
            Some(last),
            last_switch_time_ms,
            now_ms,
            uptime_ms,
            false,
        ) == Some(
            if scores[other as int].open < scores[last as int].open_hold {
                last
            } else {
                other
            },
        ),
{
    let keys = score_keys(conns, scores, now_ms);
    cap_is_what_the_path_holds(conns[0]);
    cap_is_what_the_path_holds(conns[1]);
    assert(unconstrained(conns[0], now_ms));
    assert(any_unconstrained(conns, now_ms));
    first_max_facts(keys, MINUS_ONE_KEY);
    assert(keys[0] == Some(scores[0].open));
    assert(keys[1] == Some(scores[1].open));
}

/// Whether `beside` says if a blameless link is among the links.
pub open spec fn tells_of_blameless(conns: Seq<SrtlaConnection>, now_ms: u64, beside: bool) -> bool {
    &&& beside ==> exists|j: int| 0 <= j < conns.len() && blameless(#[trigger] conns[j], now_ms)
    &&& !beside ==> forall|j: int|
        0 <= j < conns.len() ==> !blameless(#[trigger] conns[j], now_ms)
}

/// Whether a link takes part: it is alive, registered and not passed over, and beside a
/// blameless link it is not overfull.
pub open spec fn takes_part(c: SrtlaConnection, now_ms: u64, beside: bool) -> bool {
    &&& !c.timed_out(now_ms)
    &&& c.phase !is Registering
    &&& !c.stall_gated
    &&& !(beside && overfull(c))
}

/// The score of a link and the one that a rival needs: the lowered ones where it is weak or
/// lossy beside a blameless link.
pub open spec fn standing(c: SrtlaConnection, s: LinkScore, beside: bool) -> (OrderKey, OrderKey) {
    if beside && (c.weak || c.loss_degraded) {
        (s.gated, s.gated_hold)
    } else {
        (s.open, s.open_hold)
    }
}

proof fn keys_are_the_standings(
    conns: Seq<SrtlaConnection>,
    scores: Seq<LinkScore>,
    now_ms: u64,
    beside: bool,
)
    requires
        tells_of_blameless(conns, now_ms, beside),
        conns.len() == scores.len(),
    ensures
        any_unconstrained(conns, now_ms) == beside,
        forall|k: int|
            0 <= k < conns.len() ==> #[trigger] score_keys(conns, scores, now_ms)[k] == if takes_part(
                conns[k],
                now_ms,
                beside,
            ) {
                Some(standing(conns[k], scores[k], beside).0)
            } else {
                None
            },
{
    if beside {
        let j = choose|j: int| 0 <= j < conns.len() && blameless(#[trigger] conns[j], now_ms);
        cap_is_what_the_path_holds(conns[j]);
        assert(unconstrained(conns[j], now_ms));
    } else {
        assert forall|j: int| 0 <= j < conns.len() implies !unconstrained(
            #[trigger] conns[j],
            now_ms,
        ) by {
            cap_is_what_the_path_holds(conns[j]);
            assert(!blameless(conns[j], now_ms));
        }
    }
    assert forall|k: int| 0 <= k < conns.len() implies #[trigger] score_keys(
        conns,
        scores,
        now_ms,
    )[k] == if takes_part(conns[k], now_ms, beside) {
        Some(standing(conns[k], scores[k], beside).0)
    } else {
        None
    } by {
        cap_is_what_the_path_holds(conns[k]);
    }
}

/// Among any links, the present one keeps the traffic against the best exactly as long as
/// it takes part and the best stays below the score that a rival of it needs; with
/// exploration off.
pub proof fn present_link_yields_to_a_clear_gain(
    conns: Seq<SrtlaConnection>,
    scores: Seq<LinkScore>,
    last: usize,
    best: usize,
    last_switch_time_ms: u64,
    now_ms: u64,
    uptime_ms: u64,
    beside: bool,
)
    requires
        conns.len() == scores.len(),
        conns.len() <= usize::MAX,
        last < conns.len() && best < conns.len() && last != best,
        tells_of_blameless(conns, now_ms, beside),
        takes_part(conns[best as int], now_ms, beside),
        standing(conns[best as int], scores[best as int], beside).0 > MINUS_ONE_KEY,
        forall|k: int|
            0 <= k < conns.len() && k != best && takes_part(#[trigger] conns[k], now_ms, beside)
                ==> standing(conns[k], scores[k], beside).0 < standing(
                conns[best as int],
                scores[best as int],
                beside,
            ).0,
    ensures
        enhanced_choice(
            conns,
            scores,
            Some(last),
            last_switch_time_ms,
            now_ms,
            uptime_ms,
            false,
        ) == Some(
            if takes_part(conns[last as int], now_ms, beside) && standing(
                conns[best as int],
                scores[best as int],
                beside,
            ).0 < standing(conns[last as int], scores[last as int], beside).1 {
                last
            } else {
                best
            },
        ),
        enhanced_choice(
            conns,
            scores,
            None,
            last_switch_time_ms,
            now_ms,
            uptime_ms,
            false,
        ) == Some(best),
        enhanced_choice(
            conns,
            scores,
            Some(best),
            last_switch_time_ms,
            now_ms,
            uptime_ms,
            false,
        ) == Some(best),
{
    let keys = score_keys(conns, scores, now_ms);
    keys_are_the_standings(conns, scores, now_ms, beside);
    first_max_facts(keys, MINUS_ONE_KEY);
    assert(keys[best as int] is Some);
    assert(keys[last as int] is Some || keys[last as int] is None);
    let b = first_max(keys, MINUS_ONE_KEY);
    assert(keys[b->0 as int] is Some);
    assert(b == Some(best));
}

/// With exploration on and the best link in use, the runner-up gets the packet in the first
/// 300 of every 30000 milliseconds; at other times, while the best saw no NAK, the best
/// keeps it.
pub proof fn runner_up_gets_its_try(
    conns: Seq<SrtlaConnection>,
    scores: Seq<LinkScore>,
    best: usize,
    second: usize,
    last_switch_time_ms: u64,
    now_ms: u64,
    uptime_ms: u64,
    beside: bool,
)
    requires
        conns.len() == scores.len(),
        conns.len() <= usize::MAX,
        best < conns.len() && second < conns.len() && best != second,
        tells_of_blameless(conns, now_ms, beside),
        takes_part(conns[best as int], now_ms, beside),
        takes_part(conns[second as int], now_ms, beside),
        MINUS_ONE_KEY < standing(conns[second as int], scores[second as int], beside).0 < standing(
            conns[best as int],
            scores[best as int],
            beside,
        ).0,
        forall|k: int|
            0 <= k < conns.len() && k != best && k != second && takes_part(
                #[trigger] conns[k],
                now_ms,
                beside,
            ) ==> standing(conns[k], scores[k], beside).0 < standing(
                conns[second as int],
                scores[second as int],
                beside,
            ).0,
    ensures
        uptime_ms % 30_000 < 300 ==> enhanced_choice(
            conns,
            scores,
            Some(best),
            last_switch_time_ms,
            now_ms,
            uptime_ms,
            true,
        ) == Some(second),
        uptime_ms % 30_000 >= 300 && conns[best as int].congestion.last_nak_time_ms == 0
            ==> enhanced_choice(
            conns,
            scores,
            Some(best),
            last_switch_time_ms,
            now_ms,
            uptime_ms,
            true,
        ) == Some(best),
        enhanced_choice(
            conns,
            scores,
            None,
            last_switch_time_ms,
            now_ms,
            uptime_ms,
            true,
        ) == Some(best),
{
    let keys = score_keys(conns, scores, now_ms);
    keys_are_the_standings(conns, scores, now_ms, beside);
    first_max_facts(keys, MINUS_ONE_KEY);
    assert(keys[best as int] is Some);
    assert(keys[second as int] is Some);
    let b = first_max(keys, MINUS_ONE_KEY);
    assert(keys[b->0 as int] is Some);
    assert(b == Some(best));
    let rest = without(keys, b);
    first_max_facts(rest, MINUS_ONE_KEY);
    assert(rest[second as int] is Some);
    let s = first_max(rest, MINUS_ONE_KEY);
    assert(rest[s->0 as int] is Some);
    assert(s == Some(second));
}

/// The cap is one and a half times what the path holds, in whole packets, but one packet at
/// least; without a target there is none.
pub proof fn cap_follows_the_path(cc_target_bps: u64, rtt_min_ms: u64)
    requires
        rtt_min_ms > 0,
    ensures
        cc_target_bps == 0 <==> in_flight_cap(cc_target_bps, rtt_min_ms) is None,
        in_flight_cap(cc_target_bps, rtt_min_ms) matches Some(cap) ==> {
            &&& 1 <= cap <= i32::MAX
            &&& cap > 1 ==> cap * (2 * 8 * 1000 * 1316) <= 3 * (cc_target_bps * rtt_min_ms)
            &&& cap < i32::MAX ==> 3 * (cc_target_bps * rtt_min_ms) < (cap + 1) * (2 * 8 * 1000
                * 1316)
        },
{
    let held = cc_target_bps * rtt_min_ms;
    assert(held >= 0) by (nonlinear_arith)
        requires
            held == cc_target_bps * rtt_min_ms,
            cc_target_bps >= 0,
            rtt_min_ms >= 0,
    ;
    let packets = path_packets(cc_target_bps as int, rtt_min_ms as int);
    assert(packets == (held * 3) / 21_056_000);
    assert(packets * 21_056_000 <= 3 * held < (packets + 1) * 21_056_000);
    if cc_target_bps > 0 {
        let cap = in_flight_cap(cc_target_bps, rtt_min_ms)->0;
        assert(cap < i32::MAX ==> cap == packets || (cap == 1 && packets < 1));
        assert(cap > 1 ==> cap <= packets);
    }
}

} // verus!
