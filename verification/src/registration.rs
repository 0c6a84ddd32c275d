//! The registration handshake: which link asks for a group (REG1), how the group
//! id spreads over all links (REG2), and how the first link is picked by probing.

use crate::clock::{elapsed, since};
use crate::connection::link::SrtlaConnection;
use crate::protocol::builders::{create_reg1_packet, create_reg2_packet, registration_bytes};
use crate::protocol::constants::{
    REG2_TIMEOUT, REG3_TIMEOUT, SRTLA_ID_LEN, SRTLA_TYPE_REG1, SRTLA_TYPE_REG1_LEN,
    SRTLA_TYPE_REG2, SRTLA_TYPE_REG2_LEN, SRTLA_TYPE_REG3, SRTLA_TYPE_REG_ERR, SRTLA_TYPE_REG_NGP,
};
use crate::protocol::types::{get_packet_type, packet_type};
use rand::RngCore;
use vstd::prelude::*;

verus! {

/// Least pause between two REG1 packets. While REG2 is awaited none is sent, and after
/// a refusal the pause is `REG2_TIMEOUT` seconds.
pub const REG1_RETRY_MS: u64 = 1000;

/// Time for which answers to probes are awaited.
pub const PROBE_TIMEOUT_MS: u64 = 2000;

/// What a registration packet told.
#[derive(Debug, Clone, Copy, PartialEq, Eq, Structural)]
pub enum RegistrationEvent {
    RegNgp,
    Reg2,
    Reg3,
    RegErr,
}

/// Registration packets that are to be sent now.
pub struct RegDriverSends {
    /// REG1, and the link it goes out on.
    pub reg1: Option<(usize, [u8; SRTLA_TYPE_REG1_LEN])>,
    /// REG2, which goes out on every link.
    pub broadcast_reg2: Option<[u8; SRTLA_TYPE_REG2_LEN]>,
}

impl Default for RegDriverSends {
    fn default() -> (sends: Self)
        ensures
            sends.reg1 is None,
            sends.broadcast_reg2 is None,
    {
        RegDriverSends { reg1: None, broadcast_reg2: None }
    }
}

/// How far probing is.
#[derive(Debug, Clone, Copy, PartialEq, Eq, Structural)]
pub enum ProbingState {
    NotStarted,
    Probing,
    WaitingForProbes,
    Complete,
}

/// A probe sent on a link, and its round-trip time once it was answered.
#[derive(Debug, Clone, Copy, PartialEq, Eq, Structural)]
pub struct ProbeResult {
    pub conn_idx: usize,
    pub probe_sent_ms: u64,
    pub rtt_ms: Option<u64>,
}

/// The state of the handshake. Links are known by their index.
pub struct SrtlaRegistrationManager {
    pub srtla_id: [u8; SRTLA_ID_LEN],
    /// The link on which REG2 is awaited.
    pub pending_reg2_idx: Option<usize>,
    /// When the wait ends; 0 where none is set.
    pub pending_timeout_at_ms: u64,
    /// Connected links, as of the last count.
    pub active_connections: usize,
    /// Whether a link was ever registered.
    pub has_connected: bool,
    pub broadcast_reg2_pending: bool,
    /// The link that REG1 is to be sent on.
    pub reg1_target_idx: Option<usize>,
    pub reg1_next_send_at_ms: u64,
    pub probing_state: ProbingState,
    pub probe_id: [u8; SRTLA_ID_LEN],
    pub probe_results: Vec<ProbeResult>,
}

/// The links among `conns` that are connected.
pub open spec fn connected_count(conns: Seq<SrtlaConnection>) -> nat
    decreases conns.len(),
{
    if conns.len() == 0 {
        0
    } else {
        connected_count(conns.drop_last()) + if conns.last().connected {
            1nat
        } else {
            0nat
        }
    }
}

/// The probes of the links to which one could be sent, in order.
pub open spec fn sent_probes(outcomes: Seq<Option<u64>>) -> Seq<ProbeResult>
    decreases outcomes.len(),
{
    if outcomes.len() == 0 {
        Seq::empty()
    } else {
        let before = sent_probes(outcomes.drop_last());
        match outcomes.last() {
            Some(at) => before.push(
                ProbeResult {
                    conn_idx: (outcomes.len() - 1) as usize,
                    probe_sent_ms: at,
                    rtt_ms: None,
                },
            ),
            None => before,
        }
    }
}

/// Whether result `i` is the first for link `conn_idx`.
pub open spec fn is_first_for(results: Seq<ProbeResult>, i: int, conn_idx: usize) -> bool {
    &&& 0 <= i < results.len()
    &&& results[i].conn_idx == conn_idx
    &&& forall|j: int| 0 <= j < i ==> (#[trigger] results[j]).conn_idx != conn_idx
}

/// The results after an answer from link `conn_idx` at `now_ms`: its first result
/// gets a round-trip time, unless it has one.
pub open spec fn answered(results: Seq<ProbeResult>, conn_idx: usize, now_ms: u64) -> Seq<
    ProbeResult,
> {
    Seq::new(
        results.len(),
        |i: int|
            if is_first_for(results, i, conn_idx) && results[i].rtt_ms is None {
                ProbeResult {
                    rtt_ms: Some(since(now_ms, results[i].probe_sent_ms)),
                    ..results[i]
                }
            } else {
                results[i]
            },
    )
}

/// Whether every probe was answered.
pub open spec fn all_answered(results: Seq<ProbeResult>) -> bool {
    forall|i: int| 0 <= i < results.len() ==> (#[trigger] results[i]).rtt_ms is Some
}

/// Whether result `i` is the first among the fastest that were answered.
pub open spec fn is_fastest(results: Seq<ProbeResult>, i: int) -> bool {
    &&& 0 <= i < results.len()
    &&& results[i].rtt_ms is Some
    &&& forall|j: int|
        0 <= j < results.len() && (#[trigger] results[j]).rtt_ms is Some ==> results[i].rtt_ms->0
            <= results[j].rtt_ms->0
    &&& forall|j: int|
        0 <= j < i && (#[trigger] results[j]).rtt_ms is Some ==> results[i].rtt_ms->0
            < results[j].rtt_ms->0
}

/// The link that probing picks: the first among the fastest, or the first link
/// where none answered.
pub open spec fn picks(results: Seq<ProbeResult>, conn_idx: usize) -> bool {
    ||| exists|i: int| #[trigger] is_fastest(results, i) && results[i].conn_idx == conn_idx
    ||| conn_idx == 0 && forall|i: int|
        0 <= i < results.len() ==> (#[trigger] results[i]).rtt_ms is None
}

/// `rand::rng().fill_bytes`: fresh random bytes. Nothing is claimed of them: they
/// are left to chance.
#[verifier::external_body]
fn random_id() -> (id: [u8; SRTLA_ID_LEN]) {
    let mut id = [0u8; SRTLA_ID_LEN];
    rand::rng().fill_bytes(&mut id);
    id
}

impl SrtlaRegistrationManager {
    /// Whether nothing has happened yet.
    pub open spec fn is_fresh(&self) -> bool {
        &&& self.pending_reg2_idx is None
        &&& self.pending_timeout_at_ms == 0
        &&& self.active_connections == 0
        &&& !self.has_connected
        &&& !self.broadcast_reg2_pending
        &&& self.reg1_target_idx is None
        &&& self.reg1_next_send_at_ms == 0
        &&& self.probing_state is NotStarted
        &&& self.probe_results@ == Seq::<ProbeResult>::empty()
    }

    /// A handshake that has not begun, under the given ids.
    pub fn with_ids(srtla_id: [u8; SRTLA_ID_LEN], probe_id: [u8; SRTLA_ID_LEN]) -> (reg: Self)
        ensures
            reg.is_fresh(),
            reg.srtla_id == srtla_id,
            reg.probe_id == probe_id,
    {
        SrtlaRegistrationManager {
            srtla_id,
            pending_reg2_idx: None,
            pending_timeout_at_ms: 0,
            active_connections: 0,
            has_connected: false,
            broadcast_reg2_pending: false,
            reg1_target_idx: None,
            reg1_next_send_at_ms: 0,
            probing_state: ProbingState::NotStarted,
            probe_id,
            probe_results: Vec::new(),
        }
    }

    /// A handshake that has not begun, under random ids.
    pub fn new() -> (reg: Self)
        ensures
            reg.is_fresh(),
    {
        Self::with_ids(random_id(), random_id())
    }

    /// Builds a REG1 for a link and waits for REG2 on it.
    pub fn build_reg1_for(&mut self, conn_idx: usize, now: u64) -> (pkt: [u8; SRTLA_TYPE_REG1_LEN])
        requires
            now <= u64::MAX - REG2_TIMEOUT * 1000,
        ensures
            pkt@ == registration_bytes(SRTLA_TYPE_REG1, old(self).srtla_id@),
            *final(self) == (SrtlaRegistrationManager {
                pending_reg2_idx: Some(conn_idx),
                reg1_target_idx: Some(conn_idx),
                pending_timeout_at_ms: (now + REG2_TIMEOUT * 1000) as u64,
                reg1_next_send_at_ms: (now + REG1_RETRY_MS) as u64,
                ..*old(self)
            }),
    {
        self.pending_reg2_idx = Some(conn_idx);
        self.reg1_target_idx = Some(conn_idx);
        self.pending_timeout_at_ms = now + REG2_TIMEOUT * 1000;
        self.reg1_next_send_at_ms = now + REG1_RETRY_MS;
        create_reg1_packet(&self.srtla_id)
    }

    /// Builds a REG2 under the present id.
    pub fn build_reg2(&self, _conn_idx: usize) -> (pkt: [u8; SRTLA_TYPE_REG2_LEN])
        ensures
            pkt@ == registration_bytes(SRTLA_TYPE_REG2, self.srtla_id@),
    {
        create_reg2_packet(&self.srtla_id)
    }

    /// Whether a REG_NGP makes its link the target of REG1: nothing is connected
    /// and no REG2 is awaited.
    pub open spec fn accepts_target(&self) -> bool {
        self.active_connections == 0 && self.pending_reg2_idx is None
    }

    fn handle_reg_ngp(&mut self, conn_idx: usize, now_ms: u64)
        ensures
            old(self).probing_state is WaitingForProbes ==> {
                &&& final(self).probe_results@ == answered(
                    old(self).probe_results@,
                    conn_idx,
                    now_ms,
                )
                &&& *final(self) == (SrtlaRegistrationManager {
                    probe_results: final(self).probe_results,
                    ..*old(self)
                })
            },
            old(self).probing_state !is WaitingForProbes ==> *final(self) == if old(
                self,
            ).accepts_target() {
                SrtlaRegistrationManager {
                    reg1_target_idx: Some(conn_idx),
                    reg1_next_send_at_ms: now_ms,
                    ..*old(self)
                }
            } else {
                *old(self)
            },
    {
        if self.probing_state == ProbingState::WaitingForProbes {
            self.handle_probe_response(conn_idx, now_ms);
            return;
        }
        if self.active_connections == 0 && self.pending_reg2_idx.is_none() {
            self.reg1_target_idx = Some(conn_idx);
            self.reg1_next_send_at_ms = now_ms;
        }
    }

    /// Whether a REG2 from a link is the awaited one, and whole.
    pub open spec fn accepts_reg2(&self, conn_idx: usize, buf: Seq<u8>) -> bool {
        buf.len() >= 2 + SRTLA_ID_LEN && self.pending_reg2_idx == Some(conn_idx)
    }

    fn handle_reg2(&mut self, conn_idx: usize, buf: &[u8], now_ms: u64)
        requires
            now_ms <= u64::MAX - REG3_TIMEOUT * 1000,
        ensures
            old(self).accepts_reg2(conn_idx, buf@) ==> {
                &&& final(self).srtla_id@ == buf@.subrange(2, 2 + SRTLA_ID_LEN)
                &&& *final(self) == (SrtlaRegistrationManager {
                    srtla_id: final(self).srtla_id,
                    pending_reg2_idx: None,
                    pending_timeout_at_ms: (now_ms + REG3_TIMEOUT * 1000) as u64,
                    broadcast_reg2_pending: true,
                    reg1_target_idx: None,
                    reg1_next_send_at_ms: 0,
                    ..*old(self)
                })
            },
            !old(self).accepts_reg2(conn_idx, buf@) ==> *final(self) == *old(self),
    {
        if buf.len() < 2 + SRTLA_ID_LEN {
            return;
        }
        if self.pending_reg2_idx == Some(conn_idx) {
            let mut id: [u8; SRTLA_ID_LEN] = [0u8; SRTLA_ID_LEN];
            let mut i: usize = 0;
            while i < SRTLA_ID_LEN
                invariant
                    i <= SRTLA_ID_LEN,
                    id@.len() == SRTLA_ID_LEN,
                    buf@.len() >= 2 + SRTLA_ID_LEN,
                    forall|k: int| 0 <= k < i ==> #[trigger] id@[k] == buf@[2 + k],
                decreases SRTLA_ID_LEN - i,
            {
                id[i] = buf[2 + i];
                i += 1;
            }
            assert(id@ =~= buf@.subrange(2, 2 + SRTLA_ID_LEN));
            self.srtla_id = id;
            self.pending_reg2_idx = None;
            self.pending_timeout_at_ms = now_ms + REG3_TIMEOUT * 1000;
            self.broadcast_reg2_pending = true;
            self.reg1_target_idx = None;
            self.reg1_next_send_at_ms = 0;
        }
    }

    fn handle_reg_err(&mut self, now_ms: u64)
        requires
            now_ms <= u64::MAX - REG2_TIMEOUT * 1000,
        ensures
            *final(self) == (SrtlaRegistrationManager {
                pending_reg2_idx: None,
                pending_timeout_at_ms: 0,
                reg1_target_idx: None,
                reg1_next_send_at_ms: (now_ms + REG2_TIMEOUT * 1000) as u64,
                ..*old(self)
            }),
    {
        self.pending_reg2_idx = None;
        self.pending_timeout_at_ms = 0;
        self.reg1_target_idx = None;
        self.reg1_next_send_at_ms = now_ms + REG2_TIMEOUT * 1000;
    }

    /// What a packet tells, where it is one that registration takes in.
    pub open spec fn event_of(buf: Seq<u8>) -> Option<RegistrationEvent> {
        match packet_type(buf) {
            Some(t) => if t == SRTLA_TYPE_REG_NGP {
                Some(RegistrationEvent::RegNgp)
            } else if t == SRTLA_TYPE_REG2 {
                Some(RegistrationEvent::Reg2)
            } else if t == SRTLA_TYPE_REG3 {
                Some(RegistrationEvent::Reg3)
            } else if t == SRTLA_TYPE_REG_ERR {
                Some(RegistrationEvent::RegErr)
            } else {
                None
            },
            None => None,
        }
    }

    /// Whether `self` is what a packet that came in on a link at `now_ms` makes of
    /// `before`.
    pub open spec fn follows_packet(
        &self,
        before: &Self,
        conn_idx: usize,
        buf: Seq<u8>,
        now_ms: u64,
    ) -> bool {
        match Self::event_of(buf) {
            None => *self == *before,
            Some(RegistrationEvent::RegNgp) => if before.probing_state is WaitingForProbes {
                &&& self.probe_results@ == answered(before.probe_results@, conn_idx, now_ms)
                &&& *self == (SrtlaRegistrationManager {
                    probe_results: self.probe_results,
                    ..*before
                })
            } else if before.accepts_target() {
                *self == (SrtlaRegistrationManager {
                    reg1_target_idx: Some(conn_idx),
                    reg1_next_send_at_ms: now_ms,
                    ..*before
                })
            } else {
                *self == *before
            },
            Some(RegistrationEvent::Reg2) => if before.accepts_reg2(conn_idx, buf) {
                &&& self.srtla_id@ == buf.subrange(2, 2 + SRTLA_ID_LEN)
                &&& *self == (SrtlaRegistrationManager {
                    srtla_id: self.srtla_id,
                    pending_reg2_idx: None,
                    pending_timeout_at_ms: (now_ms + REG3_TIMEOUT * 1000) as u64,
                    broadcast_reg2_pending: true,
                    reg1_target_idx: None,
                    reg1_next_send_at_ms: 0,
                    ..*before
                })
            } else {
                *self == *before
            },
            Some(RegistrationEvent::Reg3) => *self == (SrtlaRegistrationManager {
                has_connected: true,
                ..*before
            }),
            Some(RegistrationEvent::RegErr) => *self == (SrtlaRegistrationManager {
                pending_reg2_idx: None,
                pending_timeout_at_ms: 0,
                reg1_target_idx: None,
                reg1_next_send_at_ms: (now_ms + REG2_TIMEOUT * 1000) as u64,
                ..*before
            }),
        }
    }

    /// Takes in a packet that came in on a link; what it told, where it is a
    /// registration packet. A REG_NGP makes its link the target of REG1, or
    /// answers a probe. The awaited REG2 brings the group's id, which is then
    /// broadcast. A REG3 says that a link is registered. A REG_ERR ends the
    /// attempt.
    pub fn process_registration_packet(
        &mut self,
        conn_idx: usize,
        buf: &[u8],
        now_ms: u64,
    ) -> (event: Option<RegistrationEvent>)
        requires
            now_ms <= u64::MAX - REG2_TIMEOUT * 1000,
            now_ms <= u64::MAX - REG3_TIMEOUT * 1000,
        ensures
            event == Self::event_of(buf@),
            final(self).follows_packet(old(self), conn_idx, buf@, now_ms),
    {
        match get_packet_type(buf) {
            Some(t) => {
                if t == SRTLA_TYPE_REG_NGP {
                    self.handle_reg_ngp(conn_idx, now_ms);
                    Some(RegistrationEvent::RegNgp)
                } else if t == SRTLA_TYPE_REG2 {
                    self.handle_reg2(conn_idx, buf, now_ms);
                    Some(RegistrationEvent::Reg2)
                } else if t == SRTLA_TYPE_REG3 {
                    self.has_connected = true;
                    Some(RegistrationEvent::Reg3)
                } else if t == SRTLA_TYPE_REG_ERR {
                    self.handle_reg_err(now_ms);
                    Some(RegistrationEvent::RegErr)
                } else {
                    None
                }
            },
            None => None,
        }
    }

    /// Whether the driver sends a REG1 at `now`: nothing is connected, a target is
    /// set, no REG2 is awaited and the pause is over.
    pub open spec fn sends_reg1(&self, now: u64) -> bool {
        &&& self.active_connections == 0
        &&& self.reg1_target_idx is Some
        &&& self.pending_reg2_idx is None
        &&& now >= self.reg1_next_send_at_ms
    }

    /// The registration packets that are due, taken as sent: REG1 on its target,
    /// and once after each accepted REG2 a REG2 on every link.
    pub fn reg_driver_pending_sends(&mut self, _connection_count: usize, now: u64) -> (sends:
        RegDriverSends)
        requires
            now <= u64::MAX - REG2_TIMEOUT * 1000,
        ensures
            match sends.reg1 {
                Some(reg1) => {
                    &&& old(self).sends_reg1(now)
                    &&& Some(reg1.0) == old(self).reg1_target_idx
                    &&& reg1.1@ == registration_bytes(SRTLA_TYPE_REG1, old(self).srtla_id@)
                },
                None => !old(self).sends_reg1(now),
            },
            match sends.broadcast_reg2 {
                Some(reg2) => {
                    &&& old(self).broadcast_reg2_pending
                    &&& reg2@ == registration_bytes(SRTLA_TYPE_REG2, old(self).srtla_id@)
                },
                None => !old(self).broadcast_reg2_pending,
            },
            *final(self) == if old(self).sends_reg1(now) {
                SrtlaRegistrationManager {
                    pending_reg2_idx: old(self).reg1_target_idx,
                    pending_timeout_at_ms: (now + REG2_TIMEOUT * 1000) as u64,
                    reg1_next_send_at_ms: (now + REG2_TIMEOUT * 1000) as u64,
                    broadcast_reg2_pending: false,
                    ..*old(self)
                }
            } else {
                SrtlaRegistrationManager { broadcast_reg2_pending: false, ..*old(self) }
            },
    {
        let mut sends = RegDriverSends::default();
        if self.active_connections == 0 {
            if let Some(idx) = self.reg1_target_idx {
                if self.pending_reg2_idx.is_none() && now >= self.reg1_next_send_at_ms {
                    let pkt = create_reg1_packet(&self.srtla_id);
                    self.pending_reg2_idx = Some(idx);
                    self.pending_timeout_at_ms = now + REG2_TIMEOUT * 1000;
                    self.reg1_next_send_at_ms = now + REG2_TIMEOUT * 1000;
                    sends.reg1 = Some((idx, pkt));
                }
            }
        }
        if self.broadcast_reg2_pending {
            sends.broadcast_reg2 = Some(create_reg2_packet(&self.srtla_id));
            self.broadcast_reg2_pending = false;
        }
        sends
    }

    /// The REG1 that answers a REG_NGP at once, where one is due on this link.
    pub fn reg1_if_ngp_immediate(&mut self, conn_idx: usize, now: u64) -> (pkt: Option<
        [u8; SRTLA_TYPE_REG1_LEN],
    >)
        requires
            now <= u64::MAX - REG2_TIMEOUT * 1000,
        ensures
            pkt is Some <==> old(self).sends_reg1(now) && old(self).reg1_target_idx == Some(
                conn_idx,
            ),
            pkt is Some ==> pkt->0@ == registration_bytes(SRTLA_TYPE_REG1, old(self).srtla_id@),
            *final(self) == if pkt is Some {
                SrtlaRegistrationManager {
                    pending_reg2_idx: Some(conn_idx),
                    pending_timeout_at_ms: (now + REG2_TIMEOUT * 1000) as u64,
                    reg1_next_send_at_ms: (now + REG1_RETRY_MS) as u64,
                    ..*old(self)
                }
            } else {
                *old(self)
            },
    {
        if self.active_connections == 0 && self.pending_reg2_idx.is_none() && self.reg1_target_idx
            == Some(conn_idx) && now >= self.reg1_next_send_at_ms {
            Some(self.build_reg1_for(conn_idx, now))
        } else {
            None
        }
    }

    /// Counts the connected links anew.
    pub fn update_active_connections(&mut self, connections: &[SrtlaConnection])
        ensures
            *final(self) == (SrtlaRegistrationManager {
                active_connections: connected_count(connections@) as usize,
                ..*old(self)
            }),
            connected_count(connections@) <= connections@.len(),
    {
        let mut count: usize = 0;
        let mut i: usize = 0;
        while i < connections.len()
            invariant
                i <= connections@.len(),
                count <= i,
                count == connected_count(connections@.take(i as int)),
            decreases connections@.len() - i,
        {
            assert(connections@.take(i + 1).drop_last() =~= connections@.take(i as int));
            if connections[i].connected {
                count += 1;
            }
            i += 1;
        }
        assert(connections@.take(connections@.len() as int) =~= connections@);
        self.active_connections = count;
    }

    /// The link on which REG2 is awaited.
    pub fn pending_reg2_idx(&self) -> (idx: Option<usize>)
        ensures
            idx == self.pending_reg2_idx,
    {
        self.pending_reg2_idx
    }

    /// Whether the wait for REG2 is over at `now`.
    pub open spec fn wait_is_over(&self, now: u64) -> bool {
        &&& self.pending_reg2_idx is Some
        &&& self.pending_timeout_at_ms != 0
        &&& now >= self.pending_timeout_at_ms
    }

    /// Gives up waiting for REG2 where the time is up; the link that was waited
    /// on. The next REG_NGP picks a new target.
    pub fn clear_pending_if_timed_out(&mut self, now_ms_value: u64) -> (gave_up: Option<usize>)
        ensures
            gave_up == if old(self).wait_is_over(now_ms_value) {
                old(self).pending_reg2_idx
            } else {
                None
            },
            *final(self) == if old(self).wait_is_over(now_ms_value) {
                SrtlaRegistrationManager {
                    pending_reg2_idx: None,
                    pending_timeout_at_ms: 0,
                    reg1_target_idx: None,
                    reg1_next_send_at_ms: now_ms_value,
                    ..*old(self)
                }
            } else {
                *old(self)
            },
    {
        if let Some(idx) = self.pending_reg2_idx {
            if self.pending_timeout_at_ms != 0 && now_ms_value >= self.pending_timeout_at_ms {
                self.pending_reg2_idx = None;
                self.pending_timeout_at_ms = 0;
                self.reg1_target_idx = None;
                self.reg1_next_send_at_ms = now_ms_value;
                return Some(idx);
            }
        }
        None
    }

    /// Whether probing may begin: it has not yet, and nothing is connected.
    pub open spec fn may_probe(&self) -> bool {
        self.probing_state is NotStarted && self.active_connections == 0
    }

    /// Whether probing may begin.
    pub fn should_start_probing(&self) -> (r: bool)
        ensures
            r == self.may_probe(),
    {
        self.probing_state == ProbingState::NotStarted && self.active_connections == 0
    }

    /// Begins probing, once a probe was sent on every link: `outcomes` says for
    /// each link when its probe went out, or that it did not. Where none went out,
    /// probing is over and the first link becomes the target.
    pub fn start_probing(&mut self, outcomes: &[Option<u64>], probe_start_ms: u64, now_ms: u64)
        requires
            now_ms <= u64::MAX - PROBE_TIMEOUT_MS,
        ensures
            !old(self).may_probe() ==> *final(self) == *old(self),
            old(self).may_probe() ==> {
                &&& final(self).probe_results@ == sent_probes(outcomes@)
                &&& *final(self) == if sent_probes(outcomes@).len() > 0 {
                    SrtlaRegistrationManager {
                        probe_results: final(self).probe_results,
                        probing_state: ProbingState::WaitingForProbes,
                        pending_timeout_at_ms: (now_ms + PROBE_TIMEOUT_MS) as u64,
                        ..*old(self)
                    }
                } else if outcomes@.len() > 0 {
                    SrtlaRegistrationManager {
                        probe_results: final(self).probe_results,
                        probing_state: ProbingState::Complete,
                        reg1_target_idx: Some(0),
                        reg1_next_send_at_ms: probe_start_ms,
                        ..*old(self)
                    }
                } else {
                    SrtlaRegistrationManager {
                        probe_results: final(self).probe_results,
                        probing_state: ProbingState::Complete,
                        ..*old(self)
                    }
                }
            },
            old(self).may_probe() ==> has_started_probing(
                *final(self),
                *old(self),
                outcomes@,
                probe_start_ms,
                now_ms,
            ),
    {
        proof {
            no_probe_went_out(outcomes@);
        }
        if !self.should_start_probing() {
            return;
        }
        let mut results: Vec<ProbeResult> = Vec::new();
        let mut i: usize = 0;
        assert(outcomes@.take(0) =~= Seq::empty());
        while i < outcomes.len()
            invariant
                i <= outcomes@.len(),
                results@ == sent_probes(outcomes@.take(i as int)),
            decreases outcomes@.len() - i,
        {
            assert(outcomes@.take(i + 1).drop_last() =~= outcomes@.take(i as int));
            if let Some(at) = outcomes[i] {
                results.push(ProbeResult { conn_idx: i, probe_sent_ms: at, rtt_ms: None });
            }
            i += 1;
        }
        assert(outcomes@.take(outcomes@.len() as int) =~= outcomes@);
        if results.len() > 0 {
            self.probing_state = ProbingState::WaitingForProbes;
            self.pending_timeout_at_ms = now_ms + PROBE_TIMEOUT_MS;
        } else {
            self.probing_state = ProbingState::Complete;
            if outcomes.len() > 0 {
                self.reg1_target_idx = Some(0);
                self.reg1_next_send_at_ms = probe_start_ms;
            }
        }
        self.probe_results = results;
    }

    /// Takes in the answer of a link to its probe, while answers are awaited. Only
    /// the first answer counts.
    pub fn handle_probe_response(&mut self, conn_idx: usize, now_ms: u64)
        ensures
            old(self).probing_state !is WaitingForProbes ==> *final(self) == *old(self),
            old(self).probing_state is WaitingForProbes ==> final(self).probe_results@ == answered(
                old(self).probe_results@,
                conn_idx,
                now_ms,
            ),
            *final(self) == (SrtlaRegistrationManager {
                probe_results: final(self).probe_results,
                ..*old(self)
            }),
    {
        if self.probing_state != ProbingState::WaitingForProbes {
            return;
        }
        let mut i: usize = 0;
        while i < self.probe_results.len()
            invariant
                i <= self.probe_results@.len(),
                *self == *old(self),
                self.probing_state is WaitingForProbes,
                forall|j: int|
                    0 <= j < i ==> (#[trigger] self.probe_results@[j]).conn_idx != conn_idx,
            decreases self.probe_results@.len() - i,
        {
            let result: ProbeResult = self.probe_results[i];
            if result.conn_idx == conn_idx {
                assert(is_first_for(old(self).probe_results@, i as int, conn_idx));
                if result.rtt_ms.is_none() {
                    let rtt: u64 = elapsed(now_ms, result.probe_sent_ms);
                    self.probe_results.set(
                        i,
                        ProbeResult { rtt_ms: Some(rtt), ..result },
                    );
                }
                assert forall|k: int| i < k < old(self).probe_results@.len() implies !is_first_for(
                    old(self).probe_results@,
                    k,
                    conn_idx,
                ) by {
                    assert(old(self).probe_results@[i as int].conn_idx == conn_idx);
                }
                assert(self.probe_results@ =~= answered(
                    old(self).probe_results@,
                    conn_idx,
                    now_ms,
                ));
                return;
            }
            i += 1;
        }
        assert(self.probe_results@ =~= answered(old(self).probe_results@, conn_idx, now_ms));
    }

    /// Whether probing ends at `now_ms`: every link answered, or the time is up.
    pub open spec fn probing_ends(&self, now_ms: u64) -> bool {
        &&& self.probing_state is WaitingForProbes
        &&& all_answered(self.probe_results@) || now_ms >= self.pending_timeout_at_ms
    }

    /// Ends probing where that is due; the fastest link becomes the target of
    /// REG1.
    pub fn check_probing_complete(&mut self, now_ms: u64) -> (ended: bool)
        ensures
            ended == old(self).probing_ends(now_ms),
            !ended ==> *final(self) == *old(self),
            ended ==> {
                &&& final(self).reg1_target_idx is Some
                &&& picks(old(self).probe_results@, final(self).reg1_target_idx->0)
                &&& *final(self) == (SrtlaRegistrationManager {
                    reg1_target_idx: final(self).reg1_target_idx,
                    reg1_next_send_at_ms: now_ms,
                    probing_state: ProbingState::Complete,
                    pending_timeout_at_ms: 0,
                    ..*old(self)
                })
            },
    {
        if self.probing_state != ProbingState::WaitingForProbes {
            return false;
        }
        let ghost results = self.probe_results@;
        let mut all: bool = true;
        let mut best: Option<usize> = None;
        let mut i: usize = 0;
        while i < self.probe_results.len()
            invariant
                i <= results.len(),
                results == self.probe_results@,
                *self == *old(self),
                all == forall|j: int| 0 <= j < i ==> (#[trigger] results[j]).rtt_ms is Some,
                match best {
                    Some(b) => {
                        &&& b < i
                        &&& results[b as int].rtt_ms is Some
                        &&& forall|j: int|
                            0 <= j < i && (#[trigger] results[j]).rtt_ms is Some
                                ==> results[b as int].rtt_ms->0 <= results[j].rtt_ms->0
                        &&& forall|j: int|
                            0 <= j < b && (#[trigger] results[j]).rtt_ms is Some
                                ==> results[b as int].rtt_ms->0 < results[j].rtt_ms->0
                    },
                    None => forall|j: int|
                        0 <= j < i ==> (#[trigger] results[j]).rtt_ms is None,
                },
            decreases results.len() - i,
        {
            match self.probe_results[i].rtt_ms {
                Some(rtt) => {
                    match best {
                        Some(b) => {
                            if let Some(lowest) = self.probe_results[b].rtt_ms {
                                if rtt < lowest {
                                    best = Some(i);
                                }
                            }
                        },
                        None => {
                            best = Some(i);
                        },
                    }
                },
                None => {
                    assert(results[i as int].rtt_ms is None);
                    all = false;
                },
            }
            i += 1;
        }
        if !all && now_ms < self.pending_timeout_at_ms {
            return false;
        }
        match best {
            Some(b) => {
                assert(is_fastest(results, b as int));
                self.reg1_target_idx = Some(self.probe_results[b].conn_idx);
            },
            None => {
                self.reg1_target_idx = Some(0);
            },
        }
        self.reg1_next_send_at_ms = now_ms;
        self.probing_state = ProbingState::Complete;
        self.pending_timeout_at_ms = 0;
        true
    }

    /// Whether probing is under way.
    pub fn is_probing(&self) -> (r: bool)
        ensures
            r == (self.probing_state is Probing || self.probing_state is WaitingForProbes),
    {
        self.probing_state == ProbingState::Probing || self.probing_state
            == ProbingState::WaitingForProbes
    }

    /// The link that REG1 is to be sent on.
    pub fn get_selected_connection_idx(&self) -> (idx: Option<usize>)
        ensures
            idx == self.reg1_target_idx,
    {
        self.reg1_target_idx
    }
}

impl Default for SrtlaRegistrationManager {
    fn default() -> (reg: Self)
        ensures
            reg.is_fresh(),
    {
        Self::new()
    }
}

/// Probing picks one link: the results leave no choice.
pub proof fn pick_is_unique(results: Seq<ProbeResult>, a: usize, b: usize)
    requires
        picks(results, a),
        picks(results, b),
    ensures
        a == b,
{
    if exists|i: int| #[trigger] is_fastest(results, i) && results[i].conn_idx == a {
        let i = choose|i: int| #[trigger] is_fastest(results, i) && results[i].conn_idx == a;
        assert(results[i].rtt_ms is Some);
        let j = choose|j: int| #[trigger] is_fastest(results, j) && results[j].conn_idx == b;
        assert(is_fastest(results, j));
        assert(results[j].rtt_ms is Some);
        if i < j {
            assert(results[j].rtt_ms->0 < results[i].rtt_ms->0);
        } else if j < i {
            assert(results[i].rtt_ms->0 < results[j].rtt_ms->0);
        }
    } else {
        if exists|j: int| #[trigger] is_fastest(results, j) && results[j].conn_idx == b {
            let j = choose|j: int| #[trigger] is_fastest(results, j) && results[j].conn_idx == b;
            assert(results[j].rtt_ms is None);
        }
    }
}

/// While REG2 is awaited, no REG1 goes out, whatever the time and the target.
pub proof fn no_reg1_while_reg2_is_awaited(reg: SrtlaRegistrationManager, now: u64)
    requires
        reg.pending_reg2_idx is Some,
    ensures
        !reg.sends_reg1(now),
        !reg.accepts_target(),
{
}

/// A REG2 that arrives on the link it is awaited on hands over the id that it was
/// built from; on any other link it changes nothing.
pub proof fn reg2_hands_over_the_id(
    before: SrtlaRegistrationManager,
    after: SrtlaRegistrationManager,
    conn_idx: usize,
    id: Seq<u8>,
    now_ms: u64,
)
    requires
        id.len() == SRTLA_ID_LEN,
        after.follows_packet(&before, conn_idx, registration_bytes(SRTLA_TYPE_REG2, id), now_ms),
    ensures
        SrtlaRegistrationManager::event_of(registration_bytes(SRTLA_TYPE_REG2, id)) == Some(
            RegistrationEvent::Reg2,
        ),
        before.pending_reg2_idx == Some(conn_idx) ==> after.srtla_id@ == id
            && after.broadcast_reg2_pending && after.pending_reg2_idx is None,
        before.pending_reg2_idx != Some(conn_idx) ==> after == before,
{
    let pkt = registration_bytes(SRTLA_TYPE_REG2, id);
    assert(pkt.subrange(0, 2) =~= crate::bytes::half_bytes(SRTLA_TYPE_REG2));
    crate::bytes::half_roundtrip(pkt, 0, SRTLA_TYPE_REG2);
    assert(pkt.subrange(2, 2 + SRTLA_ID_LEN) =~= id);
}

/// A REG_NGP makes its link the target of REG1 exactly where nothing is connected, no
/// REG2 is awaited and no probes are out; while probes are out it only answers one.
pub proof fn ngp_names_the_target(
    before: SrtlaRegistrationManager,
    after: SrtlaRegistrationManager,
    conn_idx: usize,
    rest: Seq<u8>,
    now_ms: u64,
)
    requires
        after.follows_packet(&before, conn_idx, seq![0x92u8, 0x11u8] + rest, now_ms),
    ensures
        ({
            let free = before.active_connections == 0 && before.pending_reg2_idx is None;
            &&& before.probing_state !is WaitingForProbes && free ==> after.reg1_target_idx == Some(
                conn_idx,
            ) && after.reg1_next_send_at_ms == now_ms
            &&& before.probing_state !is WaitingForProbes && !free ==> after == before
            &&& before.probing_state is WaitingForProbes ==> after.reg1_target_idx
                == before.reg1_target_idx && after.probe_results@.len()
                == before.probe_results@.len()
            &&& after.pending_reg2_idx == before.pending_reg2_idx
            &&& after.srtla_id == before.srtla_id
        }),
{
    let s = seq![0x92u8, 0x11u8] + rest;
    assert(s[0] == 0x92 && s[1] == 0x11);
    assert(packet_type(s) == Some(0x9211u16));
}

/// REG3 says that a link was registered; REG_ERR ends the attempt, and no REG1 goes out
/// for four seconds; packets of other types change nothing.
pub proof fn other_answers_of_the_receiver(
    before: SrtlaRegistrationManager,
    after: SrtlaRegistrationManager,
    conn_idx: usize,
    buf: Seq<u8>,
    now_ms: u64,
    later_ms: u64,
)
    requires
        after.follows_packet(&before, conn_idx, buf, now_ms),
        now_ms <= u64::MAX - 4000,
    ensures
        buf.len() >= 2 && buf[0] == 0x92 && buf[1] == 0x02 ==> after.has_connected
            && after.pending_reg2_idx == before.pending_reg2_idx,
        buf.len() >= 2 && buf[0] == 0x92 && buf[1] == 0x10 ==> {
            &&& after.pending_reg2_idx is None
            &&& after.reg1_target_idx is None
            &&& after.reg1_next_send_at_ms == now_ms + 4000
            &&& later_ms < now_ms + 4000 ==> !after.sends_reg1(later_ms)
            &&& after.has_connected == before.has_connected
        },
        buf.len() < 2 || buf[0] != 0x92 || (buf[1] != 0x01 && buf[1] != 0x02 && buf[1] != 0x10
            && buf[1] != 0x11) ==> after == before,
        buf.len() >= 2 && buf[0] == 0x92 && buf[1] == 0x01 && buf.len() < 258 ==> after == before,
{
}

/// A REG1 goes out exactly where nothing is connected, a target is set, no REG2 is
/// awaited and the pause is over.
pub proof fn reg1_waits_for_its_turn(reg: SrtlaRegistrationManager, now: u64)
    ensures
        reg.active_connections > 0 ==> !reg.sends_reg1(now),
        reg.reg1_target_idx is None ==> !reg.sends_reg1(now),
        now < reg.reg1_next_send_at_ms ==> !reg.sends_reg1(now),
        reg.active_connections == 0 && reg.reg1_target_idx is Some && reg.pending_reg2_idx is None
            && now >= reg.reg1_next_send_at_ms ==> reg.sends_reg1(now),
{
}

/// Probing picks a link that answered no later than any other, measured from its own
/// probe; only where none answered, the first link.
pub proof fn fastest_link_is_picked(results: Seq<ProbeResult>, picked: usize, j: int)
    requires
        picks(results, picked),
        0 <= j < results.len(),
    ensures
        results[j].rtt_ms is Some ==> exists|i: int|
            0 <= i < results.len() && (#[trigger] results[i]).conn_idx == picked
                && results[i].rtt_ms is Some && results[i].rtt_ms->0 <= results[j].rtt_ms->0,
        (forall|i: int| 0 <= i < results.len() ==> (#[trigger] results[i]).rtt_ms is None)
            ==> picked == 0,
{
    if exists|i: int| #[trigger] is_fastest(results, i) && results[i].conn_idx == picked {
        let i = choose|i: int| #[trigger] is_fastest(results, i) && results[i].conn_idx == picked;
        assert(results[i].rtt_ms is Some);
    }
}

/// The answer of a link gives its probe the time since that was sent, once; the other
/// probes stay as they are.
pub proof fn answer_times_its_probe(
    results: Seq<ProbeResult>,
    conn_idx: usize,
    now_ms: u64,
    i: int,
)
    requires
        0 <= i < results.len(),
        results[i].probe_sent_ms <= now_ms,
        forall|j: int|
            0 <= j < results.len() && j != i ==> (#[trigger] results[j]).conn_idx
                != results[i].conn_idx,
    ensures
        ({
            let after = answered(results, conn_idx, now_ms);
            &&& after.len() == results.len()
            &&& after[i].conn_idx == results[i].conn_idx
            &&& after[i].probe_sent_ms == results[i].probe_sent_ms
            &&& results[i].conn_idx != conn_idx ==> after[i] == results[i]
            &&& results[i].rtt_ms is Some ==> after[i] == results[i]
            &&& results[i].conn_idx == conn_idx && results[i].rtt_ms is None
                ==> after[i].rtt_ms is Some && results[i].probe_sent_ms + after[i].rtt_ms->0
                == now_ms
        }),
{
}

/// Probing ends once every probe was answered, or when its time is up; it does not end
/// where it is not under way.
pub proof fn probing_ends_in_time(reg: SrtlaRegistrationManager, now_ms: u64)
    ensures
        reg.probing_state !is WaitingForProbes ==> !reg.probing_ends(now_ms),
        reg.probing_state is WaitingForProbes && now_ms >= reg.pending_timeout_at_ms
            ==> reg.probing_ends(now_ms),
        reg.probing_state is WaitingForProbes && now_ms < reg.pending_timeout_at_ms ==> (
        reg.probing_ends(now_ms) <==> forall|i: int|
            0 <= i < reg.probe_results@.len() ==> (#[trigger] reg.probe_results@[i]).rtt_ms is Some),
{
}

/// Every link on which a probe went out has a result with the time of its probe, which
/// awaits an answer; no other link has one.
pub proof fn sent_probes_await_answers(outcomes: Seq<Option<u64>>, i: int)
    requires
        0 <= i < outcomes.len() <= usize::MAX,
    ensures
        outcomes[i] is Some <==> exists|k: int|
            0 <= k < sent_probes(outcomes).len() && (#[trigger] sent_probes(outcomes)[k]).conn_idx
                == i,
        forall|k: int|
            0 <= k < sent_probes(outcomes).len() ==> {
                &&& (#[trigger] sent_probes(outcomes)[k]).conn_idx < outcomes.len()
                &&& outcomes[sent_probes(outcomes)[k].conn_idx as int] == Some(
                    sent_probes(outcomes)[k].probe_sent_ms,
                )
                &&& sent_probes(outcomes)[k].rtt_ms is None
            },
    decreases outcomes.len(),
{
    let front = outcomes.drop_last();
    let before = sent_probes(front);
    let all = sent_probes(outcomes);
    let last = outcomes.len() - 1;
    if front.len() > 0 {
        sent_probes_await_answers(front, 0);
        if i < last {
            sent_probes_await_answers(front, i);
            if outcomes[i] is Some {
                let k = choose|k: int|
                    0 <= k < before.len() && (#[trigger] before[k]).conn_idx == i;
                assert(all[k].conn_idx == i);
            }
        }
    }
    assert forall|k: int| 0 <= k < all.len() implies {
        &&& (#[trigger] all[k]).conn_idx < outcomes.len()
        &&& outcomes[all[k].conn_idx as int] == Some(all[k].probe_sent_ms)
        &&& all[k].rtt_ms is None
    } by {
        if k < before.len() {
            assert(before[k] == all[k]);
            assert(front[before[k].conn_idx as int] == outcomes[all[k].conn_idx as int]);
        }
    }
    if i == last && outcomes[i] is Some {
        assert(all[before.len() as int].conn_idx == i);
    }
}

/// A probing that begins awaits answers for two seconds where a probe went out; where
/// none did, it is over, and the first of the links becomes the target of REG1.
pub open spec fn has_started_probing(
    after: SrtlaRegistrationManager,
    before: SrtlaRegistrationManager,
    outcomes: Seq<Option<u64>>,
    probe_start_ms: u64,
    now_ms: u64,
) -> bool {
    let out = exists|i: int| 0 <= i < outcomes.len() && (#[trigger] outcomes[i]) is Some;
    &&& after.srtla_id == before.srtla_id
    &&& after.active_connections == before.active_connections
    &&& after.has_connected == before.has_connected
    &&& after.probe_results@ == sent_probes(outcomes)
    &&& out ==> after.probing_state is WaitingForProbes && after.pending_timeout_at_ms == now_ms
        + 2000 && after.reg1_target_idx == before.reg1_target_idx
    &&& !out ==> after.probing_state is Complete
    &&& !out && outcomes.len() > 0 ==> after.reg1_target_idx == Some(0usize)
        && after.reg1_next_send_at_ms == probe_start_ms
    &&& outcomes.len() == 0 ==> after.reg1_target_idx == before.reg1_target_idx
}

proof fn no_probe_went_out(outcomes: Seq<Option<u64>>)
    ensures
        sent_probes(outcomes).len() == 0 <==> forall|i: int|
            0 <= i < outcomes.len() ==> (#[trigger] outcomes[i]) is None,
    decreases outcomes.len(),
{
    if outcomes.len() > 0 {
        let front = outcomes.drop_last();
        no_probe_went_out(front);
        if forall|i: int| 0 <= i < outcomes.len() ==> (#[trigger] outcomes[i]) is None {
            assert forall|i: int| 0 <= i < front.len() implies (#[trigger] front[i]) is None by {
                assert(outcomes[i] is None);
            }
            assert(outcomes[outcomes.len() - 1] is None);
        } else {
            let i = choose|i: int| 0 <= i < outcomes.len() && (#[trigger] outcomes[i]) is Some;
            if i < front.len() {
                assert(front[i] is Some);
            }
        }
    }
}

/// One connected link more is one more in the count.
pub proof fn connected_links_add_up(conns: Seq<SrtlaConnection>, more: SrtlaConnection)
    ensures
        connected_count(Seq::empty()) == 0,
        connected_count(conns.push(more)) == connected_count(conns) + if more.connected {
            1nat
        } else {
            0nat
        },
{
    assert(conns.push(more).drop_last() =~= conns);
}

/// The REG2 that is awaited on a link brings the group's id, the 256 bytes behind its type,
/// and has it broadcast; the same on another link, or where none is awaited, does nothing.
pub proof fn awaited_reg2_brings_the_id(
    before: SrtlaRegistrationManager,
    after: SrtlaRegistrationManager,
    conn_idx: usize,
    id: Seq<u8>,
    rest: Seq<u8>,
    now_ms: u64,
    later_ms: u64,
)
    requires
        after.follows_packet(&before, conn_idx, seq![0x92u8, 0x01u8] + id + rest, now_ms),
        id.len() == 256,
    ensures
        before.pending_reg2_idx == Some(conn_idx) ==> {
            &&& after.srtla_id@ == id
            &&& after.broadcast_reg2_pending
            &&& after.pending_reg2_idx is None
            &&& after.reg1_target_idx is None
            &&& !after.sends_reg1(later_ms)
            &&& after.has_connected == before.has_connected
        },
        before.pending_reg2_idx != Some(conn_idx) ==> after == before,
{
    let s = seq![0x92u8, 0x01u8] + id + rest;
    assert(s[0] == 0x92 && s[1] == 0x01);
    assert(packet_type(s) == Some(0x9201u16));
    assert(s.subrange(2, 258) =~= id);
}

/// Probing that has begun with probes sent lasts until all are answered, and two seconds at
/// most; where none went out it is over, and no answer is awaited.
pub proof fn probing_lasts_two_seconds(
    after: SrtlaRegistrationManager,
    before: SrtlaRegistrationManager,
    outcomes: Seq<Option<u64>>,
    probe_start_ms: u64,
    now_ms: u64,
    later_ms: u64,
    i: int,
)
    requires
        has_started_probing(after, before, outcomes, probe_start_ms, now_ms),
        0 <= i < outcomes.len() <= usize::MAX,
    ensures
        outcomes[i] is Some ==> (after.probing_ends(later_ms) <==> later_ms >= now_ms + 2000),
        outcomes[i] is Some ==> after.reg1_target_idx == before.reg1_target_idx,
        (forall|k: int| 0 <= k < outcomes.len() ==> (#[trigger] outcomes[k]) is None) ==> {
            &&& after.probing_state is Complete
            &&& after.reg1_target_idx == Some(0usize)
            &&& after.reg1_next_send_at_ms == probe_start_ms
            &&& after.probe_results@.len() == 0
        },
        after.srtla_id == before.srtla_id,
{
    no_probe_went_out(outcomes);
    if outcomes[i] is Some {
        sent_probes_await_answers(outcomes, i);
        let k = choose|k: int|
            0 <= k < sent_probes(outcomes).len() && (#[trigger] sent_probes(outcomes)[k]).conn_idx
                == i;
        assert(after.probe_results@[k].rtt_ms is None);
    }
}

/// Probing can begin only once, and only while nothing is connected.
pub proof fn probing_begins_once(reg: SrtlaRegistrationManager)
    ensures
        reg.active_connections > 0 ==> !reg.may_probe(),
        reg.probing_state is WaitingForProbes || reg.probing_state is Complete ==> !reg.may_probe(),
        reg.is_fresh() ==> reg.may_probe(),
{
}

/// A wait for REG2 is over exactly where one is awaited, a time was set for it, and that is
/// reached.
pub proof fn wait_is_over_in_time(reg: SrtlaRegistrationManager, now: u64)
    ensures
        reg.pending_reg2_idx is None ==> !reg.wait_is_over(now),
        reg.pending_timeout_at_ms == 0 ==> !reg.wait_is_over(now),
        now < reg.pending_timeout_at_ms ==> !reg.wait_is_over(now),
        reg.pending_reg2_idx is Some && 0 < reg.pending_timeout_at_ms <= now ==> reg.wait_is_over(
            now,
        ),
{
}

/// A handshake that has not begun awaits nothing, has no target and sends nothing.
pub proof fn fresh_handshake_waits_for_the_receiver(reg: SrtlaRegistrationManager, now: u64)
    requires
        reg.is_fresh(),
    ensures
        !reg.sends_reg1(now),
        !reg.wait_is_over(now),
        !reg.probing_ends(now),
        !reg.broadcast_reg2_pending,
        !reg.has_connected,
        reg.active_connections == 0,
        reg.reg1_next_send_at_ms == 0,
        reg.probe_results@.len() == 0,
{
}

/// Of links that answered equally fast, the first that was probed is picked.
pub proof fn first_of_equals_is_picked(results: Seq<ProbeResult>, i: int, j: int)
    requires
        is_fastest(results, i),
        0 <= j < results.len(),
        results[j].rtt_ms == results[i].rtt_ms,
    ensures
        i <= j,
        results[i].rtt_ms is Some,
        picks(results, results[i].conn_idx),
{
}

} // verus!
