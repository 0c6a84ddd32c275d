//! Giving links that get no traffic a chance to prove themselves.

use crate::clock::{elapsed, since};
use crate::connection::link::SrtlaConnection;
use crate::sender::selection::enhanced::{
    cap_exceeded, cap_is_what_the_path_holds, in_flight_cap_exceeded, overfull, usable,
};
use vstd::prelude::*;

verus! {

/// Time between two probe packets on the same link.
pub const PROBE_INTERVAL_MS: u64 = 200;

/// Age below which a NAK speaks against the best link.
pub const DEGRADED_NAK_AGE_MS: u64 = 3000;

/// Age above which a NAK no longer speaks against the runner-up.
pub const RECOVERED_NAK_AGE_MS: u64 = 5000;

/// Period of the exploration that happens in any case, and its length.
pub const EXPLORATION_PERIOD_MS: u64 = 30_000;

pub const EXPLORATION_SPAN_MS: u64 = 300;

/// Whether a link saw a NAK less than `DEGRADED_NAK_AGE_MS` ago.
pub open spec fn recently_degraded(c: SrtlaConnection, now_ms: u64) -> bool {
    c.congestion.last_nak_time_ms != 0 && since(now_ms, c.congestion.last_nak_time_ms)
        < DEGRADED_NAK_AGE_MS
}

/// Whether a link saw no NAK for more than `RECOVERED_NAK_AGE_MS`.
pub open spec fn recovered(c: SrtlaConnection, now_ms: u64) -> bool {
    c.congestion.last_nak_time_ms == 0 || since(now_ms, c.congestion.last_nak_time_ms)
        > RECOVERED_NAK_AGE_MS
}

/// Whether the runner-up is worth a try: the best link has just seen a NAK and the
/// runner-up has recovered, or the periodic exploration is on.
pub open spec fn explores(
    conns: Seq<SrtlaConnection>,
    best: Option<usize>,
    second: Option<usize>,
    now_ms: u64,
    uptime_ms: u64,
) -> bool {
    &&& best is Some && best->0 < conns.len()
    &&& second is Some && second->0 < conns.len()
    &&& {
        ||| recently_degraded(conns[best->0 as int], now_ms) && recovered(
            conns[second->0 as int],
            now_ms,
        )
        ||| uptime_ms % EXPLORATION_PERIOD_MS < EXPLORATION_SPAN_MS
    }
}

/// Whether the runner-up is worth a try.
pub fn should_explore_now(
    conns: &[SrtlaConnection],
    best_idx: Option<usize>,
    second_idx: Option<usize>,
    now_ms: u64,
    uptime_ms: u64,
) -> (r: bool)
    ensures
        r == explores(conns@, best_idx, second_idx, now_ms, uptime_ms),
{
    match (best_idx, second_idx) {
        (Some(best), Some(second)) => {
            if best >= conns.len() || second >= conns.len() {
                return false;
            }
            let best_degraded: bool = match conns[best].time_since_last_nak_ms(now_ms) {
                Some(age) => age < DEGRADED_NAK_AGE_MS,
                None => false,
            };
            let second_recovered: bool = match conns[second].time_since_last_nak_ms(now_ms) {
                Some(age) => age > RECOVERED_NAK_AGE_MS,
                None => true,
            };
            let periodic: bool = uptime_ms % EXPLORATION_PERIOD_MS < EXPLORATION_SPAN_MS;
            (best_degraded && second_recovered) || periodic
        },
        _ => false,
    }
}

/// Whether a link gets no traffic because of its score, and so cannot earn the
/// samples that would raise it.
pub open spec fn starved(c: SrtlaConnection) -> bool {
    c.weak || c.loss_degraded || cap_exceeded(c)
}

pub(crate) fn is_starved(c: &SrtlaConnection) -> (r: bool)
    ensures
        r == starved(*c),
{
    c.weak || c.loss_degraded || in_flight_cap_exceeded(c)
}

/// Whether link `i` may get a probe packet: it is not the best link, it is usable
/// and connected, it is starved, and its last probe is long enough ago. A link that
/// was never probed is always due.
pub open spec fn may_be_probed(
    conns: Seq<SrtlaConnection>,
    i: int,
    best_idx: usize,
    now_ms: u64,
) -> bool {
    &&& 0 <= i < conns.len()
    &&& i != best_idx
    &&& usable(conns[i], now_ms)
    &&& conns[i].connected
    &&& starved(conns[i])
    &&& conns[i].last_probe_ms == 0 || since(now_ms, conns[i].last_probe_ms)
        >= PROBE_INTERVAL_MS
}

/// Whether link `i` is the one to probe: the first among those whose last probe is
/// the longest ago.
pub open spec fn is_probe_target(
    conns: Seq<SrtlaConnection>,
    i: int,
    best_idx: usize,
    now_ms: u64,
) -> bool {
    &&& may_be_probed(conns, i, best_idx, now_ms)
    &&& forall|j: int|
        #[trigger] may_be_probed(conns, j, best_idx, now_ms) ==> {
            &&& conns[i].last_probe_ms <= conns[j].last_probe_ms
            &&& j < i ==> conns[i].last_probe_ms < conns[j].last_probe_ms
        }
}

/// The starved link that is to get one probe packet, if any is due. To be called
/// only where the best link is one that nothing speaks against, so that a probe is
/// never sent at the stream's expense.
pub fn pick_probe_target(conns: &[SrtlaConnection], best_idx: usize, current_time_ms: u64) -> (idx:
    Option<usize>)
    ensures
        match idx {
            Some(i) => is_probe_target(conns@, i as int, best_idx, current_time_ms),
            None => forall|j: int| !#[trigger] may_be_probed(conns@, j, best_idx, current_time_ms),
        },
{
    let mut target: Option<usize> = None;
    let mut i: usize = 0;
    while i < conns.len()
        invariant
            i <= conns@.len(),
            match target {
                Some(t) => {
                    &&& t < i
                    &&& may_be_probed(conns@, t as int, best_idx, current_time_ms)
                    &&& forall|j: int|
                        j < i && #[trigger] may_be_probed(conns@, j, best_idx, current_time_ms)
                            ==> conns@[t as int].last_probe_ms <= conns@[j].last_probe_ms
                    &&& forall|j: int|
                        j < t && #[trigger] may_be_probed(conns@, j, best_idx, current_time_ms)
                            ==> conns@[t as int].last_probe_ms < conns@[j].last_probe_ms
                },
                None => forall|j: int|
                    j < i ==> !#[trigger] may_be_probed(conns@, j, best_idx, current_time_ms),
            },
        decreases conns@.len() - i,
    {
        let c = &conns[i];
        if i != best_idx && !c.is_timed_out(current_time_ms) && c.connected && c.is_schedulable()
            && !c.stall_gated && is_starved(c) && (c.last_probe_ms == 0 || elapsed(
            current_time_ms,
            c.last_probe_ms,
        ) >= PROBE_INTERVAL_MS) {
            assert(may_be_probed(conns@, i as int, best_idx, current_time_ms));
            match target {
                Some(t) => {
                    if c.last_probe_ms < conns[t].last_probe_ms {
                        target = Some(i);
                    }
                },
                None => {
                    target = Some(i);
                },
            }
        } else {
            assert(!may_be_probed(conns@, i as int, best_idx, current_time_ms));
        }
        i += 1;
    }
    target
}

/// A link that was just probed is not probed again before the interval is over.
pub proof fn probes_are_spaced(
    conns: Seq<SrtlaConnection>,
    i: int,
    best_idx: usize,
    probed_at_ms: u64,
    now_ms: u64,
)
    requires
        0 <= i < conns.len(),
        probed_at_ms > 0,
        conns[i].last_probe_ms == probed_at_ms,
        now_ms < probed_at_ms + PROBE_INTERVAL_MS,
    ensures
        !may_be_probed(conns, i, best_idx, now_ms),
{
}

/// The runner-up gets a try in the first 300 of every 30000 milliseconds of uptime, and
/// whenever the best link saw a NAK less than three seconds ago while the runner-up saw
/// none in the last five; at no other time.
pub proof fn runner_up_is_tried_now_and_then(
    conns: Seq<SrtlaConnection>,
    best: usize,
    second: usize,
    now_ms: u64,
    uptime_ms: u64,
)
    requires
        best < conns.len(),
        second < conns.len(),
        conns[best as int].congestion.last_nak_time_ms <= now_ms,
        conns[second as int].congestion.last_nak_time_ms <= now_ms,
    ensures
        ({
            let on_best = conns[best as int].congestion.last_nak_time_ms;
            let on_second = conns[second as int].congestion.last_nak_time_ms;
            let better = on_best != 0 && now_ms < on_best + 3000 && (on_second == 0 || now_ms
                > on_second + 5000);
            &&& explores(conns, Some(best), Some(second), now_ms, uptime_ms) <==> better
                || uptime_ms % 30_000 < 300
            &&& !explores(conns, Some(best), None, now_ms, uptime_ms)
            &&& !explores(conns, None, Some(second), now_ms, uptime_ms)
        }),
{
}

/// A link is starved by a slow judgement, by heavy loss, or by more in flight than its
/// path holds; not otherwise.
pub proof fn starved_links_lack_traffic(c: SrtlaConnection)
    ensures
        c.weak ==> starved(c),
        c.loss_degraded ==> starved(c),
        overfull(c) && 0 <= c.in_flight_packets ==> starved(c),
        !c.weak && !c.loss_degraded && !overfull(c) && 0 <= c.in_flight_packets ==> !starved(c),
{
    if c.in_flight_packets >= 0 {
        cap_is_what_the_path_holds(c);
    }
}

/// A probe goes to a starved link other than the best, which is connected, past
/// registration, not gated and not timed out, and whose last probe is 200 milliseconds
/// ago or never was; and to the one that waited longest of these.
pub proof fn longest_waiting_link_is_probed(
    conns: Seq<SrtlaConnection>,
    i: int,
    j: int,
    best_idx: usize,
    now_ms: u64,
)
    requires
        is_probe_target(conns, i, best_idx, now_ms),
        0 <= j < conns.len(),
        conns[j].last_probe_ms <= now_ms,
    ensures
        0 <= i < conns.len(),
        i != best_idx,
        conns[i].connected && !conns[i].stall_gated && !conns[i].timed_out(now_ms),
        conns[i].phase !is Registering,
        starved(conns[i]),
        conns[i].last_probe_ms == 0 || now_ms >= conns[i].last_probe_ms + 200,
        j != best_idx && conns[j].connected && !conns[j].stall_gated && !conns[j].timed_out(now_ms)
            && conns[j].phase !is Registering && starved(conns[j]) && (conns[j].last_probe_ms == 0
            || now_ms >= conns[j].last_probe_ms + 200) ==> may_be_probed(conns, j, best_idx, now_ms)
            && conns[i].last_probe_ms <= conns[j].last_probe_ms,
{
    if j != best_idx && conns[j].connected && !conns[j].stall_gated && !conns[j].timed_out(now_ms)
        && conns[j].phase !is Registering && starved(conns[j]) && (conns[j].last_probe_ms == 0
        || now_ms >= conns[j].last_probe_ms + 200) {
        assert(may_be_probed(conns, j, best_idx, now_ms));
    }
}

/// Of links that waited equally long, the first is probed.
pub proof fn first_of_equals_is_probed(
    conns: Seq<SrtlaConnection>,
    i: int,
    j: int,
    best_idx: usize,
    now_ms: u64,
)
    requires
        is_probe_target(conns, i, best_idx, now_ms),
        may_be_probed(conns, j, best_idx, now_ms),
        conns[j].last_probe_ms == conns[i].last_probe_ms,
    ensures
        i <= j,
{
}

} // verus!
