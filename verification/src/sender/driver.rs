//! A running sender: what every event of its loop does to its state, and what the
//! event asks to be done outside.

use crate::config::ConfigSnapshot;
use crate::connection::batch_send::QueuedPacket;
use crate::connection::link::{SrtlaConnection, MAX_TRACKED_PACKETS};
use crate::connection::reconnection::STARTUP_GRACE_MS;
use crate::mode::SchedulingMode;
use crate::protocol::constants::{REG2_TIMEOUT, REG3_TIMEOUT};
use crate::protocol::types::{
    data_packets_have_numbers, data_sequence, get_srt_sequence_number,
};
use crate::registration::{RegDriverSends, SrtlaRegistrationManager};
use crate::sender::connections::{
    apply_connection_changes, changes_applied, desired_labels, kept, links_stay_where_they_are_wanted,
    ConnectionChanges, PendingConnectionChanges,
};
use crate::sender::housekeeping::{
    begin_housekeeping, failing_since, finish_housekeeping, housekeep_link, link_handled,
    note_reconnected, outage, recovery_chosen, recovery_packet, registration_driven, round_begun,
    sender_gives_up_after_ten_seconds, starts_over, ConnectionFailure, LinkAction, RecoveryPacket,
    HOUSEKEEPING_INTERVAL_MS, STATUS_LOG_INTERVAL_MS,
};
use crate::sender::packet_handler::{
    all_flushed, all_wf, client_handled, flush_all_batches, forward_via_connection, forwards,
    handle_srt_packet, handle_uplink_packet, has_room, routes_to, uplink_handled, Forwarded, RouteView,
    UplinkOutcome, UplinkPacket,
};
use crate::sender::selection::classifier::LinkClassification;
use crate::sender::selection::enhanced::{overfull, usable};
use crate::sender::selection::exploration::{
    is_probe_target, is_starved, may_be_probed, pick_probe_target, starved,
    starved_links_lack_traffic,
};
use crate::sender::selection::gate::{
    chosen_link_is_not_gated, gated, mode_choice, select_connection_idx, SelectionInputs,
};
use crate::sender::selection::link_cc::{CcState, LinkCcSnapshot};
use crate::sender::sequence::{
    number_is_traced_to_its_link, SequenceTracker, SequenceTrackingEntry,
};
use crate::sender::status::status_due;
use crate::text::joined;
use std::collections::HashMap;
use vstd::prelude::*;

verus! {

/// Why a sender cannot start.
pub enum StartError {
    /// The file with this name holds no address.
    NoAddresses(String),
    /// No link could be made.
    NoUplinks,
}

impl StartError {
    /// The error in words.
    pub open spec fn message(&self) -> Seq<char> {
        match self {
            StartError::NoAddresses(file) => "no IPs in list: "@ + file@,
            StartError::NoUplinks => "no uplinks available"@,
        }
    }

    /// The error in words.
    pub fn to_text(&self) -> (s: String)
        ensures
            s@ == self.message(),
    {
        match self {
            StartError::NoAddresses(file) => joined("no IPs in list: ", file.as_str()),
            StartError::NoUplinks => "no uplinks available".to_owned(),
        }
    }
}

/// Refuses a list without addresses.
pub fn check_addresses(ips: &[String], ips_file: &str) -> (r: Result<(), StartError>)
    ensures
        match r {
            Ok(_) => ips@.len() > 0,
            Err(e) => {
                &&& ips@.len() == 0
                &&& e matches StartError::NoAddresses(file)
                &&& file@ == ips_file@
            },
        },
{
    if ips.len() == 0 {
        Err(StartError::NoAddresses(ips_file.to_owned()))
    } else {
        Ok(())
    }
}

/// Whether the mode is the classic one.
fn is_classic(config: &ConfigSnapshot) -> (r: bool)
    ensures
        r == (config.mode is Classic),
{
    match config.mode {
        SchedulingMode::Classic => true,
        _ => false,
    }
}

/// What the end of a round asks for.
pub struct RoundEnd {
    /// Registration packets to send.
    pub sends: RegDriverSends,
    /// Whether all links have been gone for too long.
    pub outcome: Result<(), ConnectionFailure>,
    /// The new list of addresses that was applied, and what it asks for.
    pub applied: Option<(PendingConnectionChanges, ConnectionChanges)>,
    /// Whether a status report is due.
    pub report_due: bool,
}

/// Whether what is tracked goes from `before` to `after` at the end of a round: it is
/// swept, unless the sender gives up.
pub open spec fn swept_unless_failed(
    before: SequenceTracker,
    after: SequenceTracker,
    now: u64,
    outcome: Result<(), ConnectionFailure>,
) -> bool {
    if outcome is Ok {
        after.is_swept(&before, now)
    } else {
        after == before
    }
}

/// Whether link `best_idx` can spare a packet for another link: it is usable, and
/// nothing speaks against it.
pub open spec fn spares_a_packet(conns: Seq<SrtlaConnection>, best_idx: usize, now: u64) -> bool {
    &&& best_idx < conns.len()
    &&& usable(conns[best_idx as int], now)
    &&& !starved(conns[best_idx as int])
}

/// Whether a packet may go out as a probe: it is data, a link was registered, and
/// enhanced mode explores.
pub open spec fn may_be_a_probe(
    pkt: Seq<u8>,
    registration_complete: bool,
    config: ConfigSnapshot,
) -> bool {
    &&& config.mode is Enhanced
    &&& config.exploration_enabled
    &&& registration_complete
    &&& data_sequence(pkt) is Some
}

/// Whether `target` is the link that is probed in place of link `best`, if any.
pub open spec fn probes(
    conns: Seq<SrtlaConnection>,
    best: Option<usize>,
    now: u64,
    target: Option<usize>,
) -> bool {
    match target {
        Some(i) => {
            &&& best is Some
            &&& spares_a_packet(conns, best->0, now)
            &&& is_probe_target(conns, i as int, best->0, now)
        },
        None => best is Some && spares_a_packet(conns, best->0, now) ==> forall|j: int|
            !#[trigger] may_be_probed(conns, j, best->0, now),
    }
}

/// The links after link `i` was probed.
pub open spec fn probed(conns: Seq<SrtlaConnection>, i: usize, now: u64) -> Seq<SrtlaConnection> {
    conns.update(i as int, SrtlaConnection { last_probe_ms: now, ..conns[i as int] })
}

/// Whether a packet of the client takes the links from `before` to `after` and the route
/// from `route` to `next`, with the given packets to send: as a probe where one is due,
/// else by the mode's rule.
pub open spec fn routed_or_probed(
    before: Seq<SrtlaConnection>,
    after: Seq<SrtlaConnection>,
    route: RouteView,
    next: RouteView,
    pkt: Seq<u8>,
    registration_complete: bool,
    config: ConfigSnapshot,
    inputs: SelectionInputs,
    now: u64,
    forwarded: Option<Forwarded>,
) -> bool {
    if may_be_a_probe(pkt, registration_complete, config) {
        let ready = gated(before, now, config);
        let best = mode_choice(ready, route.last_selected_idx, now, config, inputs);
        exists|target: Option<usize>| #[trigger]
            probes(ready, best, now, target) && match target {
                Some(i) => forwarded is Some && forwards(
                    probed(ready, i, now),
                    after,
                    route,
                    next,
                    i,
                    pkt,
                    data_sequence(pkt),
                    now,
                    forwarded->0,
                ),
                None => client_handled(
                    ready,
                    after,
                    route,
                    next,
                    pkt,
                    true,
                    config,
                    inputs,
                    now,
                    forwarded,
                ),
            }
    } else {
        client_handled(
            before,
            after,
            route,
            next,
            pkt,
            registration_complete,
            config,
            inputs,
            now,
            forwarded,
        )
    }
}

/// A link with what the tick said of it.
pub open spec fn judged_link(
    conn: SrtlaConnection,
    verdict: LinkClassification,
    shown: Map<u64, LinkCcSnapshot>,
) -> SrtlaConnection {
    if shown.contains_key(conn.conn_id) {
        SrtlaConnection {
            weak: verdict.weak,
            cc_target_bps: shown[conn.conn_id].target_bps,
            cc_backing_off: shown[conn.conn_id].state is BackingOff,
            ..conn
        }
    } else {
        SrtlaConnection { weak: verdict.weak, ..conn }
    }
}

/// The state of a running sender.
pub struct SenderState {
    pub connections: Vec<SrtlaConnection>,
    pub reg: SrtlaRegistrationManager,
    pub seq_tracker: SequenceTracker,
    /// The link of the last packet.
    pub last_selected_idx: Option<usize>,
    /// When the link was last changed.
    pub last_switch_time_ms: u64,
    /// When all links were first found gone.
    pub all_failed_at: Option<u64>,
    /// A new list of addresses that waits for the next round.
    pub pending_changes: Option<PendingConnectionChanges>,
    /// Time since the last status report.
    pub status_elapsed_ms: u64,
}

impl SenderState {
    /// Whether the links, what is tracked and the time to the next status report
    /// are in order.
    pub open spec fn wf(&self) -> bool {
        &&& all_wf(self.connections@)
        &&& self.seq_tracker.wf()
        &&& self.status_elapsed_ms < STATUS_LOG_INTERVAL_MS
    }

    /// Whether every link has room in its log for what is queued and one packet
    /// more.
    pub open spec fn roomy(&self) -> bool {
        forall|i: int|
            0 <= i < self.connections@.len() ==> has_room(#[trigger] self.connections@[i])
    }

    /// What the forwarding of packets goes by.
    pub open spec fn route(&self) -> RouteView {
        RouteView {
            last_selected_idx: self.last_selected_idx,
            last_switch_time_ms: self.last_switch_time_ms,
            tracker: self.seq_tracker,
        }
    }

    /// A sender with the given links, before its first event. Without a link there
    /// is nothing to run.
    pub fn new(connections: Vec<SrtlaConnection>, reg: SrtlaRegistrationManager) -> (r: Result<
        Self,
        StartError,
    >)
        requires
            all_wf(connections@),
        ensures
            match r {
                Ok(state) => {
                    &&& connections@.len() > 0
                    &&& state.wf()
                    &&& state.connections == connections
                    &&& state.reg == reg
                    &&& state.seq_tracker.seq_to_conn@ == Map::<u32, SequenceTrackingEntry>::empty()
                    &&& state.seq_tracker.seq_order@ == Seq::<u32>::empty()
                    &&& state.seq_tracker.last_cleanup_ms == 0
                    &&& state.last_selected_idx is None
                    &&& state.last_switch_time_ms == 0
                    &&& state.all_failed_at is None
                    &&& state.pending_changes is None
                    &&& state.status_elapsed_ms == 0
                },
                Err(e) => connections@.len() == 0 && e is NoUplinks,
            },
    {
        if connections.len() == 0 {
            return Err(StartError::NoUplinks);
        }
        Ok(
            SenderState {
                connections,
                reg,
                seq_tracker: SequenceTracker::new(),
                last_selected_idx: None,
                last_switch_time_ms: 0,
                all_failed_at: None,
                pending_changes: None,
                status_elapsed_ms: 0,
            },
        )
    }

    /// Whether every link has room in its log for what is queued and one packet
    /// more.
    pub fn has_room(&self) -> (r: bool)
        requires
            self.wf(),
        ensures
            r == self.roomy(),
    {
        let mut i: usize = 0;
        while i < self.connections.len()
            invariant
                i <= self.connections@.len(),
                self.wf(),
                forall|j: int| 0 <= j < i ==> has_room(#[trigger] self.connections@[j]),
            decreases self.connections@.len() - i,
        {
            let conn = &self.connections[i];
            assert(self.connections@[i as int].wf());
            let logged: usize = conn.in_flight_packets as usize;
            if conn.batch_sender.queue.len() >= MAX_TRACKED_PACKETS - logged {
                assert(!has_room(self.connections@[i as int]));
                return false;
            }
            i += 1;
        }
        true
    }

    /// A packet of the client came in: it is queued on the link that suits it.
    /// Before a link is registered any live link will do.
    pub fn client_packet(
        &mut self,
        pkt: &[u8],
        config: &ConfigSnapshot,
        inputs: &SelectionInputs,
        now: u64,
    ) -> (forwarded: Option<Forwarded>)
        requires
            old(self).wf(),
            old(self).roomy(),
            config.mode is Enhanced ==> inputs.scores@.len() == old(self).connections@.len(),
            config.mode is RttThreshold ==> inputs.rtt_scores@.len() == old(
                self,
            ).connections@.len(),
        ensures
            final(self).wf(),
            client_handled(
                old(self).connections@,
                final(self).connections@,
                old(self).route(),
                final(self).route(),
                pkt@,
                old(self).reg.has_connected,
                *config,
                *inputs,
                now,
                forwarded,
            ),
            *final(self) == (SenderState {
                connections: final(self).connections,
                seq_tracker: final(self).seq_tracker,
                last_selected_idx: final(self).last_selected_idx,
                last_switch_time_ms: final(self).last_switch_time_ms,
                ..*old(self)
            }),
    {
        handle_srt_packet(
            pkt,
            &mut self.connections,
            &mut self.last_selected_idx,
            &mut self.last_switch_time_ms,
            &mut self.seq_tracker,
            self.reg.has_connected,
            config,
            inputs,
            now,
        )
    }

    /// A packet of the client goes out on link `idx`, which was chosen for it:
    /// because it is critical, or by its predicted arrival. Nothing happens where the
    /// packet is empty or there is no such link.
    pub fn packet_for(&mut self, idx: usize, pkt: &[u8], now: u64) -> (forwarded: Option<Forwarded>)
        requires
            old(self).wf(),
            old(self).roomy(),
        ensures
            final(self).wf(),
            match forwarded {
                Some(f) => {
                    &&& pkt@.len() > 0
                    &&& idx < old(self).connections@.len()
                    &&& forwards(
                        old(self).connections@,
                        final(self).connections@,
                        old(self).route(),
                        final(self).route(),
                        idx,
                        pkt@,
                        data_sequence(pkt@),
                        now,
                        f,
                    )
                },
                None => {
                    &&& pkt@.len() == 0 || idx >= old(self).connections@.len()
                    &&& *final(self) == *old(self)
                },
            },
            *final(self) == (SenderState {
                connections: final(self).connections,
                seq_tracker: final(self).seq_tracker,
                last_selected_idx: final(self).last_selected_idx,
                last_switch_time_ms: final(self).last_switch_time_ms,
                ..*old(self)
            }),
    {
        if pkt.len() == 0 || idx >= self.connections.len() {
            return None;
        }
        let forwarded: Forwarded = forward_via_connection(
            idx,
            pkt,
            get_srt_sequence_number(pkt),
            &mut self.connections,
            &mut self.last_selected_idx,
            &mut self.last_switch_time_ms,
            &mut self.seq_tracker,
            now,
        );
        Some(forwarded)
    }

    /// The starved link that is to get the next packet as a probe, if one is due, in
    /// place of link `best_idx`, which the mode's rule chose. Only where nothing speaks
    /// against that link is a packet spared. The link counts as probed now.
    pub fn probe_target(&mut self, best_idx: usize, now: u64) -> (idx: Option<usize>)
        requires
            old(self).wf(),
        ensures
            final(self).wf(),
            old(self).roomy() ==> final(self).roomy(),
            match idx {
                Some(i) => {
                    &&& spares_a_packet(old(self).connections@, best_idx, now)
                    &&& is_probe_target(old(self).connections@, i as int, best_idx, now)
                    &&& final(self).connections@ == probed(old(self).connections@, i, now)
                },
                None => {
                    &&& spares_a_packet(old(self).connections@, best_idx, now) ==> forall|j: int|
                        !#[trigger] may_be_probed(old(self).connections@, j, best_idx, now)
                    &&& final(self).connections@ == old(self).connections@
                },
            },
            *final(self) == (SenderState { connections: final(self).connections, ..*old(self) }),
    {
        if best_idx >= self.connections.len() {
            return None;
        }
        let best = &self.connections[best_idx];
        if best.is_timed_out(now) || !best.is_schedulable() || best.stall_gated || is_starved(
            best,
        ) {
            return None;
        }
        let target: Option<usize> = pick_probe_target(self.connections.as_slice(), best_idx, now);
        if let Some(i) = target {
            assert(may_be_probed(self.connections@, i as int, best_idx, now));
            let c = &mut self.connections[i];
            c.last_probe_ms = now;
        }
        target
    }

    /// A packet of the client came in: it goes out as a probe where one is due, and is
    /// queued on the link that suits it otherwise.
    pub fn client_packet_or_probe(
        &mut self,
        pkt: &[u8],
        config: &ConfigSnapshot,
        inputs: &SelectionInputs,
        now: u64,
    ) -> (forwarded: Option<Forwarded>)
        requires
            old(self).wf(),
            old(self).roomy(),
            config.mode is Enhanced ==> inputs.scores@.len() == old(self).connections@.len(),
            config.mode is RttThreshold ==> inputs.rtt_scores@.len() == old(
                self,
            ).connections@.len(),
        ensures
            final(self).wf(),
            routed_or_probed(
                old(self).connections@,
                final(self).connections@,
                old(self).route(),
                final(self).route(),
                pkt@,
                old(self).reg.has_connected,
                *config,
                *inputs,
                now,
                forwarded,
            ),
            *final(self) == (SenderState {
                connections: final(self).connections,
                seq_tracker: final(self).seq_tracker,
                last_selected_idx: final(self).last_selected_idx,
                last_switch_time_ms: final(self).last_switch_time_ms,
                ..*old(self)
            }),
    {
        let explores: bool = match config.mode {
            SchedulingMode::Enhanced => config.exploration_enabled,
            _ => false,
        };
        if explores && self.reg.has_connected && get_srt_sequence_number(pkt).is_some() {
            let best: Option<usize> = select_connection_idx(
                &mut self.connections,
                self.last_selected_idx,
                now,
                config,
                inputs,
            );
            let ghost ready = self.connections@;
            assert(self.wf() && self.roomy()) by {
                assert forall|k: int| 0 <= k < ready.len() implies (#[trigger] ready[k]).wf()
                    && has_room(ready[k]) by {
                    assert(old(self).connections@[k].wf() && has_room(old(self).connections@[k]));
                }
            }
            let target: Option<usize> = match best {
                Some(best_idx) => self.probe_target(best_idx, now),
                None => None,
            };
            assert(probes(ready, best, now, target));
            if let Some(idx) = target {
                return self.packet_for(idx, pkt, now);
            }
        }
        self.client_packet(pkt, config, inputs, now)
    }

    /// Notes on every link what the tick said of it: whether it is weak, and where
    /// its rate control stands.
    pub fn note_verdicts(
        &mut self,
        verdicts: &[LinkClassification],
        shown: &HashMap<u64, LinkCcSnapshot>,
    )
        requires
            old(self).wf(),
            verdicts@.len() == old(self).connections@.len(),
        ensures
            final(self).wf(),
            final(self).connections@.len() == old(self).connections@.len(),
            forall|i: int|
                0 <= i < final(self).connections@.len() ==> #[trigger] final(self).connections@[i]
                    == judged_link(old(self).connections@[i], verdicts@[i], shown@),
            *final(self) == (SenderState { connections: final(self).connections, ..*old(self) }),
    {
        let ghost before = self.connections@;
        let mut i: usize = 0;
        while i < self.connections.len()
            invariant
                i <= self.connections@.len(),
                self.connections@.len() == before.len(),
                verdicts@.len() == before.len(),
                all_wf(before),
                before == old(self).connections@,
                *self == (SenderState { connections: self.connections, ..*old(self) }),
                forall|j: int|
                    0 <= j < i ==> #[trigger] self.connections@[j] == judged_link(
                        before[j],
                        verdicts@[j],
                        shown@,
                    ),
                forall|j: int| i <= j < before.len() ==> #[trigger] self.connections@[j] == before[j],
            decreases before.len() - i,
        {
            let snap: Option<&LinkCcSnapshot> = shown.get(&self.connections[i].conn_id);
            let c = &mut self.connections[i];
            c.weak = verdicts[i].weak;
            if let Some(s) = snap {
                c.cc_target_bps = s.target_bps;
                c.cc_backing_off = s.state == CcState::BackingOff;
            }
            i += 1;
        }
        assert(all_wf(self.connections@)) by {
            assert forall|k: int| 0 <= k < before.len() implies (
            #[trigger] self.connections@[k]).wf() by {
                assert(before[k].wf());
            }
        }
    }

    /// A packet came in on a link.
    pub fn uplink_packet(
        &mut self,
        packet: &UplinkPacket,
        config: &ConfigSnapshot,
        now: u64,
    ) -> (outcome: Option<UplinkOutcome>)
        requires
            old(self).wf(),
            now <= u64::MAX - REG2_TIMEOUT * 1000,
            now <= u64::MAX - REG3_TIMEOUT * 1000,
        ensures
            final(self).wf(),
            uplink_handled(
                old(self).connections@,
                final(self).connections@,
                old(self).reg,
                final(self).reg,
                *packet,
                old(self).seq_tracker,
                config.mode is Classic,
                now,
                outcome,
            ),
            *final(self) == (SenderState {
                connections: final(self).connections,
                reg: final(self).reg,
                ..*old(self)
            }),
    {
        handle_uplink_packet(
            packet,
            &mut self.connections,
            &mut self.reg,
            &self.seq_tracker,
            is_classic(config),
            now,
        )
    }

    /// The flush timer went off: what waits on the links is to be sent.
    pub fn flush(&mut self, now: u64) -> (batches: Vec<(usize, Vec<QueuedPacket>)>)
        requires
            old(self).wf(),
            old(self).roomy(),
        ensures
            final(self).wf(),
            all_flushed(old(self).connections@, final(self).connections@, now, batches@),
            *final(self) == (SenderState { connections: final(self).connections, ..*old(self) }),
    {
        flush_all_batches(&mut self.connections, now)
    }

    /// A new list of addresses was read: it waits for the next round, in place of
    /// one that may wait already.
    pub fn queue_reload(&mut self, changes: PendingConnectionChanges)
        ensures
            *final(self) == (SenderState { pending_changes: Some(changes), ..*old(self) }),
    {
        self.pending_changes = Some(changes);
    }

    /// A round begins.
    pub fn begin_round(&mut self, now: u64)
        requires
            old(self).wf(),
            now <= u64::MAX - STARTUP_GRACE_MS,
        ensures
            final(self).wf(),
            final(self).connections@.len() == old(self).connections@.len(),
            round_begun(
                old(self).connections@,
                final(self).connections@,
                old(self).reg,
                final(self).reg,
                now,
            ),
            *final(self) == (SenderState {
                connections: final(self).connections,
                reg: final(self).reg,
                ..*old(self)
            }),
    {
        begin_housekeeping(&mut self.connections, &mut self.reg, now);
    }

    /// The round for link `idx`.
    pub fn serve_link(&mut self, idx: usize, config: &ConfigSnapshot, now: u64) -> (action:
        LinkAction)
        requires
            old(self).wf(),
            idx < old(self).connections@.len(),
        ensures
            final(self).wf(),
            link_handled(
                old(self).connections@[idx as int],
                final(self).connections@[idx as int],
                config.mode is Classic,
                now,
                action,
            ),
            final(self).connections@ == old(self).connections@.update(
                idx as int,
                final(self).connections@[idx as int],
            ),
            *final(self) == (SenderState { connections: final(self).connections, ..*old(self) }),
    {
        housekeep_link(&mut self.connections[idx], is_classic(config), now)
    }

    /// A link that was to be connected again was tried. Where its socket was
    /// replaced the link starts over, else it is left for the next attempt. The
    /// registration packet that the link needs is returned either way.
    pub fn link_retried(&mut self, idx: usize, socket_replaced: bool, now: u64) -> (packet:
        RecoveryPacket)
        requires
            old(self).wf(),
            idx < old(self).connections@.len(),
            now <= u64::MAX - STARTUP_GRACE_MS,
            now <= u64::MAX - REG2_TIMEOUT * 1000,
        ensures
            final(self).wf(),
            final(self).connections@ == old(self).connections@.update(
                idx as int,
                final(self).connections@[idx as int],
            ),
            socket_replaced ==> starts_over(
                old(self).connections@[idx as int],
                final(self).connections@[idx as int],
                now,
            ),
            !socket_replaced ==> final(self).connections@[idx as int].is_given_up(
                &old(self).connections@[idx as int],
                now,
            ),
            recovery_chosen(old(self).reg, final(self).reg, idx, now, packet),
            *final(self) == (SenderState {
                connections: final(self).connections,
                reg: final(self).reg,
                ..*old(self)
            }),
    {
        if socket_replaced {
            note_reconnected(&mut self.connections[idx], now);
        } else {
            self.connections[idx].mark_for_recovery(now);
        }
        recovery_packet(&mut self.reg, idx, now)
    }

    /// Whether `self` is `before` once a round has ended.
    pub open spec fn has_ended_round(&self, before: &Self, now: u64, end: RoundEnd) -> bool {
        &&& registration_driven(before.connections@, before.reg, self.reg, now, end.sends)
        &&& self.all_failed_at == failing_since(before.connections@, before.all_failed_at, now)
        &&& end.outcome == outage(self.all_failed_at, before.reg.has_connected, now)
        &&& self.pending_changes is None
        &&& exists|mid: SequenceTracker| #[trigger]
            swept_unless_failed(before.seq_tracker, mid, now, end.outcome) && match end.applied {
                Some(a) => {
                    &&& before.pending_changes == Some(a.0)
                    &&& a.0.new_ips is Some
                    &&& changes_applied(
                        before.connections@,
                        self.connections@,
                        mid,
                        self.seq_tracker,
                        desired_labels(a.0.receiver_host@, a.0.receiver_port, a.0.new_ips->0@),
                        a.1,
                    )
                    &&& self.last_selected_idx == if a.1.removed@.len() > 0 {
                        None
                    } else {
                        before.last_selected_idx
                    }
                },
                None => {
                    &&& before.pending_changes is None || before.pending_changes->0.new_ips is None
                    &&& self.connections == before.connections
                    &&& self.seq_tracker == mid
                    &&& self.last_selected_idx == before.last_selected_idx
                },
            }
        &&& self.last_switch_time_ms == before.last_switch_time_ms
        &&& end.report_due == (before.status_elapsed_ms + HOUSEKEEPING_INTERVAL_MS
            >= STATUS_LOG_INTERVAL_MS)
        &&& self.status_elapsed_ms == (before.status_elapsed_ms + HOUSEKEEPING_INTERVAL_MS)
            % STATUS_LOG_INTERVAL_MS as int
    }

    /// A round ends: registration is driven on, all links being gone is watched
    /// for, a list of addresses that waits is applied, and the status report is
    /// counted towards.
    pub fn end_round(&mut self, now: u64) -> (end: RoundEnd)
        requires
            old(self).wf(),
            now <= u64::MAX - REG2_TIMEOUT * 1000,
        ensures
            final(self).wf(),
            final(self).has_ended_round(old(self), now, end),
    {
        let (sends, outcome) = finish_housekeeping(
            self.connections.as_slice(),
            &mut self.reg,
            &mut self.all_failed_at,
            now,
        );
        if outcome.is_ok() {
            self.seq_tracker.cleanup(now);
        }
        let ghost mid = self.seq_tracker;
        assert(swept_unless_failed(old(self).seq_tracker, mid, now, outcome));
        let waiting: Option<PendingConnectionChanges> = self.pending_changes.take();
        let mut applied: Option<(PendingConnectionChanges, ConnectionChanges)> = None;
        if let Some(pending) = waiting {
            if let Some(new_ips) = &pending.new_ips {
                let changes: ConnectionChanges = apply_connection_changes(
                    &mut self.connections,
                    new_ips.as_slice(),
                    pending.receiver_host.as_str(),
                    pending.receiver_port,
                    &mut self.last_selected_idx,
                    &mut self.seq_tracker,
                );
                proof {
                    kept_in_order(
                        old(self).connections@,
                        desired_labels(
                            pending.receiver_host@,
                            pending.receiver_port,
                            new_ips@,
                        ),
                    );
                }
                applied = Some((pending, changes));
            }
        }
        let report_due: bool = status_due(&mut self.status_elapsed_ms);
        RoundEnd { sends, outcome, applied, report_due }
    }

    /// A link for a new address was made.
    pub fn add_link(&mut self, conn: SrtlaConnection)
        requires
            old(self).wf(),
            conn.wf(),
        ensures
            final(self).wf(),
            final(self).connections@ == old(self).connections@.push(conn),
            *final(self) == (SenderState { connections: final(self).connections, ..*old(self) }),
    {
        self.connections.push(conn);
    }

    /// Packets could not be sent on link `idx`: it is to be connected again. Nothing
    /// happens where there is no such link.
    pub fn send_failed(&mut self, idx: usize, now: u64)
        requires
            old(self).wf(),
        ensures
            final(self).wf(),
            idx >= old(self).connections@.len() ==> *final(self) == *old(self),
            idx < old(self).connections@.len() ==> {
                &&& final(self).connections@ == old(self).connections@.update(
                    idx as int,
                    final(self).connections@[idx as int],
                )
                &&& final(self).connections@[idx as int].is_given_up(
                    &old(self).connections@[idx as int],
                    now,
                )
            },
            *final(self) == (SenderState { connections: final(self).connections, ..*old(self) }),
    {
        if idx < self.connections.len() {
            self.connections[idx].mark_for_recovery(now);
        }
    }
}

proof fn kept_in_order(conns: Seq<SrtlaConnection>, wanted: Seq<Seq<char>>)
    requires
        all_wf(conns),
    ensures
        all_wf(kept(conns, wanted)),
    decreases conns.len(),
{
    if conns.len() > 0 {
        assert forall|i: int| 0 <= i < conns.len() - 1 implies (
        #[trigger] conns.drop_last()[i]).wf() by {
            assert(conns[i].wf());
        }
        kept_in_order(conns.drop_last(), wanted);
        assert(conns[conns.len() - 1].wf());
    }
}

/// A packet may be a probe only where it is data, a link was registered, the mode is
/// enhanced and exploration is on; and then it may.
pub proof fn probes_are_data_in_enhanced_mode(
    pkt: Seq<u8>,
    registration_complete: bool,
    config: ConfigSnapshot,
)
    requires
        pkt.len() >= 4,
    ensures
        may_be_a_probe(pkt, registration_complete, config) <==> config.mode is Enhanced
            && config.exploration_enabled && registration_complete && pkt[0] < 0x80,
{
    data_packets_have_numbers(0, pkt);
}

/// A probe is sent only where nothing speaks against the best link: it is past
/// registration, neither gated nor timed out, neither weak nor lossy, and has not more in
/// flight than its path holds. It goes to another link than that one, which is starved.
pub proof fn probe_is_spared_by_a_sound_link(
    conns: Seq<SrtlaConnection>,
    best: usize,
    now: u64,
    target: usize,
)
    requires
        probes(conns, Some(best), now, Some(target)),
        best < conns.len(),
        conns[best as int].in_flight_packets >= 0,
    ensures
        target < conns.len() && target != best,
        starved(conns[target as int]),
        !conns[best as int].weak && !conns[best as int].loss_degraded && !overfull(
            conns[best as int],
        ),
        conns[best as int].phase !is Registering && !conns[best as int].stall_gated
            && !conns[best as int].timed_out(now),
{
    assert(usable(conns[best as int], now));
    starved_links_lack_traffic(conns[best as int]);
    assert(may_be_probed(conns, target as int, best, now));
}

/// Where no probe is due to any starved link, or nothing may be spared, none is sent.
pub proof fn no_probe_without_a_starved_link(
    conns: Seq<SrtlaConnection>,
    best: Option<usize>,
    now: u64,
    target: Option<usize>,
)
    requires
        probes(conns, best, now, target),
    ensures
        best is None ==> target is None,
        (forall|j: int| 0 <= j < conns.len() ==> !starved(#[trigger] conns[j])) ==> target is None,
        best is Some && best->0 < conns.len() && starved(conns[best->0 as int]) ==> target is None,
        target is None && best is Some && best->0 < conns.len() && usable(
            conns[best->0 as int],
            now,
        ) && !starved(conns[best->0 as int]) ==> forall|j: int|
            0 <= j < conns.len() && j != best->0 && usable(#[trigger] conns[j], now)
                && conns[j].connected && starved(conns[j]) ==> conns[j].last_probe_ms != 0 && now
                < conns[j].last_probe_ms + 200,
{
    if target is Some {
        assert(may_be_probed(conns, target->0 as int, best->0, now));
        assert(starved(conns[target->0 as int]));
    } else if best is Some && best->0 < conns.len() && usable(conns[best->0 as int], now)
        && !starved(conns[best->0 as int]) {
        assert forall|j: int|
            0 <= j < conns.len() && j != best->0 && usable(#[trigger] conns[j], now)
                && conns[j].connected && starved(conns[j]) implies conns[j].last_probe_ms != 0
            && now < conns[j].last_probe_ms + 200 by {
            assert(!may_be_probed(conns, j, best->0, now));
        }
    }
}

/// A data packet takes one link: it is traced to the link that then counts as the last, for
/// five seconds, or it takes none, and then nothing is forwarded and the route stays.
pub proof fn client_packet_takes_one_link(
    before: Seq<SrtlaConnection>,
    after: Seq<SrtlaConnection>,
    route: RouteView,
    next: RouteView,
    pkt: Seq<u8>,
    registration_complete: bool,
    config: ConfigSnapshot,
    inputs: SelectionInputs,
    now: u64,
    forwarded: Option<Forwarded>,
    later: u64,
)
    requires
        routed_or_probed(
            before,
            after,
            route,
            next,
            pkt,
            registration_complete,
            config,
            inputs,
            now,
            forwarded,
        ),
        later <= now + 5000,
        before.len() <= usize::MAX,
        config.mode is Enhanced ==> inputs.scores@.len() == before.len(),
        config.mode is RttThreshold ==> inputs.rtt_scores@.len() == before.len(),
    ensures
        after.len() == before.len(),
        forwarded is None ==> next == route,
        forwarded is Some ==> pkt.len() > 0 && next.last_selected_idx is Some
            && next.last_selected_idx->0 < before.len(),
        forwarded is Some && data_sequence(pkt) is Some ==> next.tracker.link_of(
            data_sequence(pkt)->0,
            later,
        ) == Some(before[next.last_selected_idx->0 as int].conn_id),
        pkt.len() == 0 ==> forwarded is None && after == before,
{
    let ready = gated(before, now, config);
    let other: u32 = if data_sequence(pkt) == Some(0u32) {
        1
    } else {
        0
    };
    if may_be_a_probe(pkt, registration_complete, config) {
        let best = mode_choice(ready, route.last_selected_idx, now, config, inputs);
        let target = choose|target: Option<usize>| #[trigger]
            probes(ready, best, now, target) && match target {
                Some(i) => forwarded is Some && forwards(
                    probed(ready, i, now),
                    after,
                    route,
                    next,
                    i,
                    pkt,
                    data_sequence(pkt),
                    now,
                    forwarded->0,
                ),
                None => client_handled(
                    ready,
                    after,
                    route,
                    next,
                    pkt,
                    true,
                    config,
                    inputs,
                    now,
                    forwarded,
                ),
            };
        if let Some(i) = target {
            assert(may_be_probed(ready, i as int, best->0, now));
            number_is_traced_to_its_link(
                route.tracker,
                next.tracker,
                data_sequence(pkt)->0,
                probed(ready, i, now)[i as int].conn_id,
                now,
                other,
                later,
            );
        } else {
            packet_takes_its_choice(
                ready,
                after,
                route,
                next,
                pkt,
                true,
                config,
                inputs,
                now,
                forwarded,
                later,
            );
        }
    } else {
        packet_takes_its_choice(
            before,
            after,
            route,
            next,
            pkt,
            registration_complete,
            config,
            inputs,
            now,
            forwarded,
            later,
        );
    }
}

proof fn packet_takes_its_choice(
    before: Seq<SrtlaConnection>,
    after: Seq<SrtlaConnection>,
    route: RouteView,
    next: RouteView,
    pkt: Seq<u8>,
    registration_complete: bool,
    config: ConfigSnapshot,
    inputs: SelectionInputs,
    now: u64,
    forwarded: Option<Forwarded>,
    later: u64,
)
    requires
        client_handled(
            before,
            after,
            route,
            next,
            pkt,
            registration_complete,
            config,
            inputs,
            now,
            forwarded,
        ),
        later <= now + 5000,
        before.len() <= usize::MAX,
        config.mode is Enhanced ==> inputs.scores@.len() == before.len(),
        config.mode is RttThreshold ==> inputs.rtt_scores@.len() == before.len(),
    ensures
        after.len() == before.len(),
        forwarded is None ==> next == route,
        forwarded is Some ==> pkt.len() > 0 && next.last_selected_idx is Some
            && next.last_selected_idx->0 < before.len(),
        forwarded is Some && data_sequence(pkt) is Some ==> next.tracker.link_of(
            data_sequence(pkt)->0,
            later,
        ) == Some(before[next.last_selected_idx->0 as int].conn_id),
        pkt.len() == 0 ==> forwarded is None && after == before,
{
    if pkt.len() > 0 {
        let (ready, choice) = choose|ready: Seq<SrtlaConnection>, choice: Option<usize>| #[trigger]
            routes_to(
                before,
                ready,
                route.last_selected_idx,
                registration_complete,
                config,
                inputs,
                now,
                choice,
            ) && match forwarded {
                Some(f) => choice is Some && forwards(
                    ready,
                    after,
                    route,
                    next,
                    choice->0,
                    pkt,
                    data_sequence(pkt),
                    now,
                    f,
                ),
                None => choice is None && after == ready && next == route,
            };
        if registration_complete {
            chosen_link_is_not_gated(ready, route.last_selected_idx, now, config, inputs);
        }
        if forwarded is Some && data_sequence(pkt) is Some {
            let s = data_sequence(pkt)->0;
            let other: u32 = if s == 0 {
                1
            } else {
                0
            };
            number_is_traced_to_its_link(
                route.tracker,
                next.tracker,
                s,
                ready[choice->0 as int].conn_id,
                now,
                other,
                later,
            );
        }
    }
}

/// What the tick says of a link: whether it is weak, and the target of its own rate
/// control, where there is one; nothing else of it changes.
pub proof fn verdicts_reach_their_link(
    conn: SrtlaConnection,
    verdict: LinkClassification,
    shown: Map<u64, LinkCcSnapshot>,
)
    ensures
        judged_link(conn, verdict, shown).weak == verdict.weak,
        shown.contains_key(conn.conn_id) ==> judged_link(conn, verdict, shown).cc_target_bps
            == shown[conn.conn_id].target_bps,
        shown.contains_key(conn.conn_id) ==> (judged_link(conn, verdict, shown).cc_backing_off
            <==> shown[conn.conn_id].state is BackingOff),
        !shown.contains_key(conn.conn_id) ==> judged_link(conn, verdict, shown).cc_target_bps
            == conn.cc_target_bps && judged_link(conn, verdict, shown).cc_backing_off
            == conn.cc_backing_off,
        judged_link(conn, verdict, shown).window == conn.window,
        judged_link(conn, verdict, shown).connected == conn.connected,
        judged_link(conn, verdict, shown).packet_log == conn.packet_log,
{
}

/// The end of a round: a list of addresses that waits is applied, once, and then only links
/// that it asks for are left; without one the links stay. The sender fails exactly where
/// all links are lost and were found so more than ten seconds ago. A report is due with
/// every thirtieth round.
pub proof fn round_end_applies_what_waits(
    before: SenderState,
    after: SenderState,
    now: u64,
    end: RoundEnd,
    c: SrtlaConnection,
)
    requires
        after.has_ended_round(&before, now, end),
        before.status_elapsed_ms <= 29_000,
    ensures
        after.pending_changes is None,
        end.applied is Some <==> before.pending_changes is Some
            && before.pending_changes->0.new_ips is Some,
        end.applied is None ==> after.connections == before.connections && after.last_selected_idx
            == before.last_selected_idx,
        end.applied is Some ==> (after.connections@.contains(c) <==> before.connections@.contains(c)
            && desired_labels(
            before.pending_changes->0.receiver_host@,
            before.pending_changes->0.receiver_port,
            before.pending_changes->0.new_ips->0@,
        ).contains(c.label@)),
        end.applied is Some && after.connections@.len() < before.connections@.len()
            ==> after.last_selected_idx is None,
        end.outcome is Err <==> before.all_failed_at is Some && now > before.all_failed_at->0
            + 10_000 && forall|i: int|
            0 <= i < before.connections@.len() ==> (#[trigger] before.connections@[i]).timed_out(now),
        end.report_due <==> before.status_elapsed_ms == 29_000,
        !end.report_due ==> after.status_elapsed_ms == before.status_elapsed_ms + 1000,
        end.report_due ==> after.status_elapsed_ms == 0,
        end.outcome is Err && end.applied is None ==> after.seq_tracker == before.seq_tracker,
{
    sender_gives_up_after_ten_seconds(
        before.connections@,
        before.all_failed_at,
        before.reg.has_connected,
        now,
    );
    if end.applied is Some {
        let a = end.applied->0;
        let wanted = desired_labels(a.0.receiver_host@, a.0.receiver_port, a.0.new_ips->0@);
        links_stay_where_they_are_wanted(before.connections@, wanted, c, 0);
    }
}

} // verus!
