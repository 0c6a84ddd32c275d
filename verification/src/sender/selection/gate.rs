//! Selection as a whole: stalled links are gated, then the mode's rule chooses.

use crate::config::ConfigSnapshot;
use crate::connection::link::SrtlaConnection;
use crate::mode::SchedulingMode;
use crate::sender::selection::classic;
use crate::sender::selection::classic::{
    capacity_keys, chosen_link_has_most_capacity, SCORE_FLOOR,
};
use crate::sender::selection::enhanced;
use crate::sender::selection::enhanced::{
    chosen_link_is_usable, enhanced_choice, LinkScore, MINUS_ONE_KEY,
};
use crate::sender::selection::rank::{first_max, first_max_facts};
use crate::sender::selection::rtt_threshold;
use crate::sender::selection::rtt_threshold::{
    fast_choice, fast_keys, fast_limit, keeps_last, RttScore,
};
use vstd::prelude::*;

verus! {

/// What the caller measured of the links, by their index, and what else a choice
/// depends on.
pub struct SelectionInputs<'a> {
    pub scores: &'a [LinkScore],
    pub rtt_scores: &'a [RttScore],
    pub last_switch_time_ms: u64,
    pub uptime_ms: u64,
}

/// Whether a link can carry traffic: not timed out, past registration, not
/// stalled.
pub open spec fn healthy(c: SrtlaConnection, now_ms: u64, config: ConfigSnapshot) -> bool {
    &&& !c.timed_out(now_ms)
    &&& c.phase !is Registering
    &&& !c.stalled(now_ms, config.stall_min_in_flight, config.stall_ack_stale_ms)
}

/// Whether stalled links are gated: the guard is on, and a healthy link is there.
pub open spec fn gate_active(
    conns: Seq<SrtlaConnection>,
    now_ms: u64,
    config: ConfigSnapshot,
) -> bool {
    config.stall_deselect && exists|i: int|
        0 <= i < conns.len() && healthy(#[trigger] conns[i], now_ms, config)
}

/// A link with its gate set anew.
pub open spec fn gated_link(
    c: SrtlaConnection,
    active: bool,
    now_ms: u64,
    config: ConfigSnapshot,
) -> SrtlaConnection {
    SrtlaConnection {
        stall_gated: active && c.stalled(
            now_ms,
            config.stall_min_in_flight,
            config.stall_ack_stale_ms,
        ),
        ..c
    }
}

/// The links with their gates set anew.
pub open spec fn gated(
    conns: Seq<SrtlaConnection>,
    now_ms: u64,
    config: ConfigSnapshot,
) -> Seq<SrtlaConnection> {
    let active = gate_active(conns, now_ms, config);
    Seq::new(conns.len(), |i: int| gated_link(conns[i], active, now_ms, config))
}

/// Sets every link's gate anew. Nothing but the gates changes.
pub fn apply_stall_gate(
    conns: &mut Vec<SrtlaConnection>,
    current_time_ms: u64,
    config: &ConfigSnapshot,
)
    ensures
        final(conns)@ == gated(old(conns)@, current_time_ms, *config),
{
    let min_in_flight: i32 = config.stall_min_in_flight;
    let stale_ms: u64 = config.stall_ack_stale_ms;
    let ghost before = conns@;
    let mut active: bool = false;
    if config.stall_deselect {
        let mut i: usize = 0;
        while i < conns.len() && !active
            invariant
                i <= conns@.len(),
                conns@ == before,
                min_in_flight == config.stall_min_in_flight,
                stale_ms == config.stall_ack_stale_ms,
                active ==> exists|j: int|
                    0 <= j < before.len() && healthy(
                        #[trigger] before[j],
                        current_time_ms,
                        *config,
                    ),
                !active ==> forall|j: int|
                    0 <= j < i ==> !healthy(#[trigger] before[j], current_time_ms, *config),
            decreases conns@.len() - i,
        {
            let c = &conns[i];
            if !c.is_timed_out(current_time_ms) && c.is_schedulable() && !c.is_stalled(
                current_time_ms,
                min_in_flight,
                stale_ms,
            ) {
                assert(healthy(before[i as int], current_time_ms, *config));
                active = true;
            }
            i += 1;
        }
    }
    assert(active == gate_active(before, current_time_ms, *config));
    let mut i: usize = 0;
    while i < conns.len()
        invariant
            i <= conns@.len(),
            conns@.len() == before.len(),
            min_in_flight == config.stall_min_in_flight,
            stale_ms == config.stall_ack_stale_ms,
            forall|j: int|
                0 <= j < i ==> #[trigger] conns@[j] == gated_link(
                    before[j],
                    active,
                    current_time_ms,
                    *config,
                ),
            forall|j: int| i <= j < before.len() ==> #[trigger] conns@[j] == before[j],
        decreases conns@.len() - i,
    {
        let stalled: bool = active && conns[i].is_stalled(
            current_time_ms,
            min_in_flight,
            stale_ms,
        );
        let c = &mut conns[i];
        c.stall_gated = stalled;
        i += 1;
    }
    assert(conns@ =~= gated(before, current_time_ms, *config));
}

/// The link that the mode's rule chooses among links whose gates are set.
pub open spec fn mode_choice(
    conns: Seq<SrtlaConnection>,
    last_idx: Option<usize>,
    now_ms: u64,
    config: ConfigSnapshot,
    inputs: SelectionInputs,
) -> Option<usize> {
    match config.mode {
        SchedulingMode::Classic => first_max(capacity_keys(conns, now_ms), SCORE_FLOOR),
        SchedulingMode::Enhanced => enhanced_choice(
            conns,
            inputs.scores@,
            last_idx,
            inputs.last_switch_time_ms,
            now_ms,
            inputs.uptime_ms,
            config.exploration_enabled,
        ),
        SchedulingMode::RttThreshold => if last_idx is Some && keeps_last(
            conns,
            last_idx->0,
            inputs.last_switch_time_ms,
            now_ms,
        ) {
            last_idx
        } else {
            fast_choice(conns, inputs.rtt_scores@, now_ms)
        },
    }
}

/// Chooses the link for the next packet.
pub fn select_connection_idx(
    conns: &mut Vec<SrtlaConnection>,
    last_idx: Option<usize>,
    current_time_ms: u64,
    config: &ConfigSnapshot,
    inputs: &SelectionInputs,
) -> (idx: Option<usize>)
    requires
        config.mode is Enhanced ==> inputs.scores@.len() == old(conns)@.len(),
        config.mode is RttThreshold ==> inputs.rtt_scores@.len() == old(conns)@.len(),
    ensures
        final(conns)@ == gated(old(conns)@, current_time_ms, *config),
        idx == mode_choice(final(conns)@, last_idx, current_time_ms, *config, *inputs),
        idx is Some ==> idx->0 < final(conns)@.len(),
{
    apply_stall_gate(conns, current_time_ms, config);
    match config.mode {
        SchedulingMode::Classic => classic::select_connection(conns.as_slice(), current_time_ms),
        SchedulingMode::Enhanced => enhanced::select_connection(
            conns.as_slice(),
            inputs.scores,
            last_idx,
            inputs.last_switch_time_ms,
            current_time_ms,
            inputs.uptime_ms,
            config.exploration_enabled,
        ),
        SchedulingMode::RttThreshold => rtt_threshold::select_connection(
            conns.as_slice(),
            inputs.rtt_scores,
            last_idx,
            inputs.last_switch_time_ms,
            current_time_ms,
        ),
    }
}

/// The last usable link is never gated: where any link is gated, a healthy one is
/// not.
pub proof fn gating_leaves_a_healthy_link(
    conns: Seq<SrtlaConnection>,
    now_ms: u64,
    config: ConfigSnapshot,
    i: int,
)
    requires
        0 <= i < conns.len(),
        gated(conns, now_ms, config)[i].stall_gated,
    ensures
        exists|j: int|
            0 <= j < conns.len() && healthy(#[trigger] conns[j], now_ms, config) && !gated(
                conns,
                now_ms,
                config,
            )[j].stall_gated,
{
    let j = choose|j: int| 0 <= j < conns.len() && healthy(#[trigger] conns[j], now_ms, config);
    assert(healthy(conns[j], now_ms, config));
    assert(!gated(conns, now_ms, config)[j].stall_gated);
}

/// With the guard off, no link is gated, and apart from the gates nothing differs.
pub proof fn guard_off_gates_nothing(
    conns: Seq<SrtlaConnection>,
    now_ms: u64,
    config: ConfigSnapshot,
    i: int,
)
    requires
        !config.stall_deselect,
        0 <= i < conns.len(),
    ensures
        gated(conns, now_ms, config)[i] == (SrtlaConnection { stall_gated: false, ..conns[i] }),
{
}

/// Fresh evidence of delivery frees a link: one that delivered less than the
/// staleness window ago is not gated.
pub proof fn delivery_lifts_the_gate(
    conns: Seq<SrtlaConnection>,
    now_ms: u64,
    config: ConfigSnapshot,
    i: int,
)
    requires
        0 <= i < conns.len(),
        crate::clock::since(now_ms, conns[i].last_ack_or_rtt_sample_ms)
            < config.stall_ack_stale_ms,
    ensures
        !gated(conns, now_ms, config)[i].stall_gated,
{
}

/// Whatever the mode, the link that is chosen is neither gated nor timed out.
pub proof fn chosen_link_is_not_gated(
    conns: Seq<SrtlaConnection>,
    last_idx: Option<usize>,
    now_ms: u64,
    config: ConfigSnapshot,
    inputs: SelectionInputs,
)
    requires
        conns.len() <= usize::MAX,
        config.mode is Enhanced ==> inputs.scores@.len() == conns.len(),
        config.mode is RttThreshold ==> inputs.rtt_scores@.len() == conns.len(),
    ensures
        mode_choice(conns, last_idx, now_ms, config, inputs) matches Some(i) ==> {
            &&& i < conns.len()
            &&& !conns[i as int].stall_gated
            &&& !conns[i as int].timed_out(now_ms)
        },
{
    match config.mode {
        SchedulingMode::Classic => {
            first_max_facts(capacity_keys(conns, now_ms), SCORE_FLOOR);
        },
        SchedulingMode::Enhanced => {
            chosen_link_is_usable(
                conns,
                inputs.scores@,
                last_idx,
                inputs.last_switch_time_ms,
                now_ms,
                inputs.uptime_ms,
                config.exploration_enabled,
            );
        },
        SchedulingMode::RttThreshold => {
            let limit = fast_limit(conns, inputs.rtt_scores@, now_ms);
            first_max_facts(
                fast_keys(conns, inputs.rtt_scores@, now_ms, limit, true),
                MINUS_ONE_KEY,
            );
            first_max_facts(
                fast_keys(conns, inputs.rtt_scores@, now_ms, limit, false),
                MINUS_ONE_KEY,
            );
        },
    }
}

/// With the guard on, a stalled link is gated exactly where another link carries on:
/// one past registration that is neither timed out nor stalled. No other link is gated,
/// and nothing but the gates differs.
pub proof fn stalled_link_is_gated_beside_another(
    conns: Seq<SrtlaConnection>,
    now_ms: u64,
    config: ConfigSnapshot,
    i: int,
    j: int,
)
    requires
        0 <= i < conns.len(),
        0 <= j < conns.len(),
    ensures
        ({
            let stalled = conns[i].stalled(
                now_ms,
                config.stall_min_in_flight,
                config.stall_ack_stale_ms,
            );
            let carries_on = conns[j].phase !is Registering && !conns[j].timed_out(now_ms)
                && !conns[j].stalled(now_ms, config.stall_min_in_flight, config.stall_ack_stale_ms);
            let after = gated(conns, now_ms, config);
            &&& after.len() == conns.len()
            &&& config.stall_deselect && stalled && carries_on ==> after[i].stall_gated
            &&& !stalled || !config.stall_deselect ==> !after[i].stall_gated
            &&& after[i] == (SrtlaConnection { stall_gated: after[i].stall_gated, ..conns[i] })
            &&& (forall|k: int|
                0 <= k < conns.len() ==> {
                    ||| (#[trigger] conns[k]).phase is Registering
                    ||| conns[k].timed_out(now_ms)
                    ||| conns[k].stalled(
                        now_ms,
                        config.stall_min_in_flight,
                        config.stall_ack_stale_ms,
                    )
                }) ==> !after[i].stall_gated
        }),
{
    if conns[j].phase !is Registering && !conns[j].timed_out(now_ms) && !conns[j].stalled(
        now_ms,
        config.stall_min_in_flight,
        config.stall_ack_stale_ms,
    ) {
        assert(healthy(conns[j], now_ms, config));
    }
}

/// In classic mode and by round-trip time, each packet is decided anew: neither the last
/// link nor the time of the last change matters.
pub proof fn packets_are_decided_anew(
    conns: Seq<SrtlaConnection>,
    first_last: Option<usize>,
    second_last: Option<usize>,
    now_ms: u64,
    config: ConfigSnapshot,
    first: SelectionInputs,
    second: SelectionInputs,
)
    requires
        config.mode !is Enhanced,
        first.rtt_scores@ == second.rtt_scores@,
    ensures
        mode_choice(conns, first_last, now_ms, config, first) == mode_choice(
            conns,
            second_last,
            now_ms,
            config,
            second,
        ),
{
}

/// Each mode by its own rule: classic by capacity, and by round-trip time the best score
/// among the fast links.
pub proof fn modes_choose_by_their_rules(
    conns: Seq<SrtlaConnection>,
    last_idx: Option<usize>,
    now_ms: u64,
    config: ConfigSnapshot,
    inputs: SelectionInputs,
    j: int,
)
    requires
        conns.len() <= usize::MAX,
        0 <= j < conns.len(),
        forall|k: int| 0 <= k < conns.len() ==> i32::MIN <= (#[trigger] conns[k]).score() <= i32::MAX,
        !conns[j].timed_out(now_ms),
        !conns[j].stall_gated,
        conns[j].connected,
        conns[j].score() >= 0,
    ensures
        config.mode is Classic ==> (mode_choice(
            conns,
            last_idx,
            now_ms,
            config,
            inputs,
        ) matches Some(i) && conns[j].score() <= conns[i as int].score()),
        config.mode is RttThreshold && inputs.rtt_scores@.len() == conns.len() && conns[j].score() > 0
            && inputs.rtt_scores@[j].score >= 0 ==> mode_choice(
            conns,
            last_idx,
            now_ms,
            config,
            inputs,
        ) is Some,
{
    match config.mode {
        SchedulingMode::Classic => {
            chosen_link_has_most_capacity(conns, now_ms, j);
        },
        SchedulingMode::RttThreshold => {
            let limit = fast_limit(conns, inputs.rtt_scores@, now_ms);
            let all = fast_keys(conns, inputs.rtt_scores@, now_ms, limit, false);
            first_max_facts(all, MINUS_ONE_KEY);
            assert(inputs.rtt_scores@[j].score >= 0 && conns[j].score() > 0 ==> all[j] == Some(
                inputs.rtt_scores@[j].score,
            ));
        },
        _ => {},
    }
}

} // verus!
