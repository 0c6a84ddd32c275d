//! Round-trip-time threshold selection: the best-scored link among those whose
//! round-trip time is close to the smallest, so that packets arrive in order.

use crate::clock::{elapsed, since};
use crate::connection::link::{OrderKey, SrtlaConnection};
use crate::sender::selection::enhanced::{MINUS_ONE_KEY, MIN_SWITCH_INTERVAL_MS};
use crate::sender::selection::rank::{best_of, first_max, first_max_facts};
use vstd::prelude::*;

verus! {

/// The key of the largest double: a round-trip time at or above it is none.
pub const RTT_LIMIT_KEY: OrderKey = 0x7fef_ffff_ffff_ffff;

/// What the caller measured of a link: its round-trip time, where it has one, the
/// largest time that still counts as close to it, and its score.
#[derive(Debug, Clone, Copy, PartialEq, Eq, Structural)]
pub struct RttScore {
    pub rtt: Option<OrderKey>,
    pub limit: OrderKey,
    pub score: OrderKey,
}

/// Whether a link takes part: not timed out, not gated, connected, and with capacity
/// left.
pub open spec fn eligible(c: SrtlaConnection, now_ms: u64) -> bool {
    !c.timed_out(now_ms) && !c.stall_gated && c.connected && c.score() > 0
}

fn is_eligible(c: &SrtlaConnection, now_ms: u64) -> (r: bool)
    ensures
        r == eligible(*c, now_ms),
{
    !c.is_timed_out(now_ms) && !c.stall_gated && c.connected && c.get_score() > 0
}

/// Round-trip times, negated, of the links that take part: the largest key is the
/// smallest time.
pub open spec fn nearness_keys(
    conns: Seq<SrtlaConnection>,
    measured: Seq<RttScore>,
    now_ms: u64,
) -> Seq<Option<i64>> {
    Seq::new(
        conns.len(),
        |i: int|
            match measured[i].rtt {
                Some(rtt) => if eligible(conns[i], now_ms) && rtt > i64::MIN {
                    Some((-rtt) as i64)
                } else {
                    None
                },
                None => None,
            },
    )
}

/// The link with the smallest round-trip time.
pub open spec fn nearest(
    conns: Seq<SrtlaConnection>,
    measured: Seq<RttScore>,
    now_ms: u64,
) -> Option<usize> {
    first_max(nearness_keys(conns, measured, now_ms), (-RTT_LIMIT_KEY) as i64)
}

/// Whether a link counts as fast: its time is unknown, or close to the smallest,
/// or no time is known at all.
pub open spec fn fast(m: RttScore, limit: Option<OrderKey>) -> bool {
    m.rtt is None || limit is None || m.rtt->0 <= limit->0
}

/// Scores of the links that take part: all, or only the fast ones.
pub open spec fn fast_keys(
    conns: Seq<SrtlaConnection>,
    measured: Seq<RttScore>,
    now_ms: u64,
    limit: Option<OrderKey>,
    fast_only: bool,
) -> Seq<Option<i64>> {
    Seq::new(
        conns.len(),
        |i: int|
            if eligible(conns[i], now_ms) && (!fast_only || fast(measured[i], limit)) {
                Some(measured[i].score)
            } else {
                None
            },
    )
}

/// The largest time that counts as fast; none where no time is known.
pub open spec fn fast_limit(
    conns: Seq<SrtlaConnection>,
    measured: Seq<RttScore>,
    now_ms: u64,
) -> Option<OrderKey> {
    match nearest(conns, measured, now_ms) {
        Some(n) => Some(measured[n as int].limit),
        None => None,
    }
}

/// The best-scored fast link, or the best-scored link where none is fast.
pub open spec fn fast_choice(
    conns: Seq<SrtlaConnection>,
    measured: Seq<RttScore>,
    now_ms: u64,
) -> Option<usize> {
    let limit = fast_limit(conns, measured, now_ms);
    let best = first_max(fast_keys(conns, measured, now_ms, limit, true), MINUS_ONE_KEY);
    if best is Some {
        best
    } else {
        first_max(fast_keys(conns, measured, now_ms, limit, false), MINUS_ONE_KEY)
    }
}

fn scored_keys(
    conns: &[SrtlaConnection],
    measured: &[RttScore],
    now_ms: u64,
    limit: Option<OrderKey>,
    fast_only: bool,
) -> (keys: Vec<Option<i64>>)
    requires
        conns@.len() == measured@.len(),
    ensures
        keys@ == fast_keys(conns@, measured@, now_ms, limit, fast_only),
{
    let ghost all = fast_keys(conns@, measured@, now_ms, limit, fast_only);
    let mut keys: Vec<Option<i64>> = Vec::new();
    let mut i: usize = 0;
    while i < conns.len()
        invariant
            i <= conns@.len(),
            conns@.len() == measured@.len(),
            all == fast_keys(conns@, measured@, now_ms, limit, fast_only),
            keys@ == all.take(i as int),
        decreases conns@.len() - i,
    {
        let is_fast: bool = match (measured[i].rtt, limit) {
            (Some(rtt), Some(most)) => rtt <= most,
            _ => true,
        };
        if is_eligible(&conns[i], now_ms) && (!fast_only || is_fast) {
            keys.push(Some(measured[i].score));
        } else {
            keys.push(None);
        }
        i += 1;
        assert(keys@ =~= all.take(i as int));
    }
    assert(keys@ =~= all);
    keys
}

/// Whether the present link is kept: within the time after a switch, where it
/// still takes part and another would be chosen.
pub open spec fn keeps_last(
    conns: Seq<SrtlaConnection>,
    last: usize,
    last_switch_time_ms: u64,
    now_ms: u64,
) -> bool {
    &&& since(now_ms, last_switch_time_ms) < MIN_SWITCH_INTERVAL_MS
    &&& last < conns.len()
    &&& eligible(conns[last as int], now_ms)
}

/// Chooses a link among the fast ones.
pub fn select_connection(
    conns: &[SrtlaConnection],
    measured: &[RttScore],
    last_idx: Option<usize>,
    last_switch_time_ms: u64,
    current_time_ms: u64,
) -> (idx: Option<usize>)
    requires
        conns@.len() == measured@.len(),
    ensures
        idx == if last_idx is Some && keeps_last(
            conns@,
            last_idx->0,
            last_switch_time_ms,
            current_time_ms,
        ) {
            last_idx
        } else {
            fast_choice(conns@, measured@, current_time_ms)
        },
        idx is Some ==> idx->0 < conns@.len(),
{
    let ghost times = nearness_keys(conns@, measured@, current_time_ms);
    let mut nearness: Vec<Option<i64>> = Vec::new();
    let mut i: usize = 0;
    while i < conns.len()
        invariant
            i <= conns@.len(),
            conns@.len() == measured@.len(),
            times == nearness_keys(conns@, measured@, current_time_ms),
            nearness@ == times.take(i as int),
        decreases conns@.len() - i,
    {
        match measured[i].rtt {
            Some(rtt) => {
                if is_eligible(&conns[i], current_time_ms) && rtt > i64::MIN {
                    nearness.push(Some(-rtt));
                } else {
                    nearness.push(None);
                }
            },
            None => {
                nearness.push(None);
            },
        }
        i += 1;
        assert(nearness@ =~= times.take(i as int));
    }
    assert(nearness@ =~= times);
    let limit: Option<OrderKey> = match best_of(nearness.as_slice(), -RTT_LIMIT_KEY) {
        Some(n) => Some(measured[n].limit),
        None => None,
    };
    let fast_links: Vec<Option<i64>> = scored_keys(
        conns,
        measured,
        current_time_ms,
        limit,
        true,
    );
    let mut best: Option<usize> = best_of(fast_links.as_slice(), MINUS_ONE_KEY);
    if best.is_none() {
        let all_links: Vec<Option<i64>> = scored_keys(
            conns,
            measured,
            current_time_ms,
            limit,
            false,
        );
        best = best_of(all_links.as_slice(), MINUS_ONE_KEY);
    }
    if let Some(last) = last_idx {
        if elapsed(current_time_ms, last_switch_time_ms) < MIN_SWITCH_INTERVAL_MS && last
            < conns.len() {
            if is_eligible(&conns[last], current_time_ms) {
                return Some(last);
            }
        }
    }
    best
}

/// A link takes part where it is connected, has capacity left, is not gated and heard
/// from the receiver within 15 seconds, or never did.
pub proof fn live_links_take_part(c: SrtlaConnection, now_ms: u64)
    ensures
        c.connected && !c.stall_gated && c.score() > 0 && (c.last_received is None || now_ms
            < c.last_received->0 + 15_000) ==> eligible(c, now_ms),
        !c.connected || c.stall_gated || c.score() <= 0 ==> !eligible(c, now_ms),
        c.connected && (c.last_received matches Some(at) && now_ms >= at + 15_000) ==> !eligible(
            c,
            now_ms,
        ),
{
}

/// Link `n` has the smallest known time among the links that take part; what counts as
/// close to it is fast, and so is a link whose time is not known. Where a fast link with
/// a score above -1 takes part, a fast one is chosen, and none of the fast ones has a
/// better score.
pub proof fn best_fast_link_is_chosen(
    conns: Seq<SrtlaConnection>,
    measured: Seq<RttScore>,
    now_ms: u64,
    n: int,
    j: int,
)
    requires
        conns.len() <= usize::MAX,
        measured.len() == conns.len(),
        0 <= n < conns.len(),
        0 <= j < conns.len(),
        eligible(conns[n], now_ms),
        measured[n].rtt is Some,
        0 <= measured[n].rtt->0 < RTT_LIMIT_KEY,
        forall|k: int|
            0 <= k < conns.len() && k != n && eligible(#[trigger] conns[k], now_ms)
                && measured[k].rtt is Some ==> measured[k].rtt->0 > measured[n].rtt->0,
        eligible(conns[j], now_ms),
        measured[j].score > MINUS_ONE_KEY,
        measured[j].rtt is None || measured[j].rtt->0 <= measured[n].limit,
    ensures
        fast_choice(conns, measured, now_ms) matches Some(c) && {
            &&& c < conns.len()
            &&& eligible(conns[c as int], now_ms)
            &&& measured[c as int].rtt is None || measured[c as int].rtt->0 <= measured[n].limit
            &&& measured[j].score <= measured[c as int].score
        },
{
    let times = nearness_keys(conns, measured, now_ms);
    first_max_facts(times, (-RTT_LIMIT_KEY) as i64);
    assert(times[n] == Some((-measured[n].rtt->0) as i64));
    let near = nearest(conns, measured, now_ms);
    assert(near is Some);
    assert(times[near->0 as int] is Some);
    assert(near->0 == n);
    let limit = fast_limit(conns, measured, now_ms);
    assert(limit == Some(measured[n].limit));
    let keys = fast_keys(conns, measured, now_ms, limit, true);
    first_max_facts(keys, MINUS_ONE_KEY);
    assert(keys[j] == Some(measured[j].score));
    let c = first_max(keys, MINUS_ONE_KEY);
    assert(c is Some);
    assert(keys[c->0 as int] is Some);
}

/// Where no time is known, the best score among the links that take part decides; and
/// no link is found only where none that takes part has a score above -1.
pub proof fn best_link_is_chosen_without_times(
    conns: Seq<SrtlaConnection>,
    measured: Seq<RttScore>,
    now_ms: u64,
    j: int,
)
    requires
        conns.len() <= usize::MAX,
        measured.len() == conns.len(),
        0 <= j < conns.len(),
        eligible(conns[j], now_ms),
        measured[j].score > MINUS_ONE_KEY,
    ensures
        fast_choice(conns, measured, now_ms) is Some,
        (forall|k: int| 0 <= k < conns.len() ==> (#[trigger] measured[k]).rtt is None) ==> (
        fast_choice(conns, measured, now_ms) matches Some(c) && measured[j].score
            <= measured[c as int].score),
{
    let limit = fast_limit(conns, measured, now_ms);
    let few = fast_keys(conns, measured, now_ms, limit, true);
    let all = fast_keys(conns, measured, now_ms, limit, false);
    first_max_facts(few, MINUS_ONE_KEY);
    first_max_facts(all, MINUS_ONE_KEY);
    assert(all[j] == Some(measured[j].score));
    if forall|k: int| 0 <= k < conns.len() ==> (#[trigger] measured[k]).rtt is None {
        assert(measured[j].rtt is None);
        assert(few[j] == Some(measured[j].score));
    }
}

/// A link is never kept only because the last packet went out on it: the time after a
/// change in which it would be is empty.
pub proof fn no_link_is_kept(
    conns: Seq<SrtlaConnection>,
    last: usize,
    last_switch_time_ms: u64,
    now_ms: u64,
)
    ensures
        !keeps_last(conns, last, last_switch_time_ms, now_ms),
{
}

} // verus!
