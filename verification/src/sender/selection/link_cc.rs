//! Rate control of a link: a target rate that grows while the link is calm, holds
//! while its round-trip time swells, and shrinks on loss.

use crate::clock::since;
use crate::connection::link::SrtlaConnection;
use crate::sender::selection::enhanced::ASSUMED_SRT_PAYLOAD_BYTES;
use std::collections::HashMap;
use vstd::prelude::*;

verus! {

broadcast use vstd::std_specs::hash::group_hash_axioms;

/// Time over which loss is counted.
pub const LOSS_WINDOW_MS: u64 = 1_000;

/// Loss above this, in permille, makes the link back off.
pub const LOSS_BACKOFF_PERMILLE: u32 = 5;

/// What backing off leaves of the target, in permille.
pub const BACKOFF_PERMILLE: u64 = 850;

/// Growth per tick, in permille of the target: as a rule, with a stable round-trip
/// time, and after a backoff.
pub const AI_STEP_PERMILLE: u64 = 20;

pub const HAI_STEP_PERMILLE: u64 = 60;

pub const FAST_RECOVERY_STEP_PERMILLE: u64 = 40;

/// Ticks of faster growth after a backoff.
pub const FAST_RECOVERY_TICKS: u32 = 5;

/// What draining leaves of the target, in permille.
pub const DRAIN_PERMILLE: u64 = 750;

/// Bounds of the target.
pub const MIN_TARGET_BPS: u64 = 100_000;

pub const MAX_TARGET_BPS: u64 = 200_000_000;

/// The least that a first target starts from.
pub const INITIAL_TARGET_BPS: u64 = 1_000_000;

/// What rate control is doing.
#[derive(Copy, Clone, Debug, Eq, PartialEq, Structural)]
pub enum CcState {
    /// No round-trip time is known yet.
    Bootstrap,
    /// Growing.
    Climbing,
    /// The round-trip time has swollen: waiting.
    Holding,
    /// Packets are lost: shrinking.
    BackingOff,
    /// The round-trip time has doubled: shrinking once.
    Drain,
}

impl CcState {
    /// The state's name.
    pub open spec fn name(self) -> Seq<char> {
        match self {
            CcState::Bootstrap => "bootstrap"@,
            CcState::Climbing => "climbing"@,
            CcState::Holding => "holding"@,
            CcState::BackingOff => "backing_off"@,
            CcState::Drain => "drain"@,
        }
    }

    /// The state's name.
    pub fn as_str(self) -> (s: &'static str)
        ensures
            s@ == self.name(),
    {
        match self {
            CcState::Bootstrap => "bootstrap",
            CcState::Climbing => "climbing",
            CcState::Holding => "holding",
            CcState::BackingOff => "backing_off",
            CcState::Drain => "drain",
        }
    }
}

impl Default for CcState {
    fn default() -> (s: Self)
        ensures
            s is Bootstrap,
    {
        CcState::Bootstrap
    }
}

/// How fast the target grows.
#[derive(Copy, Clone, Debug, Eq, PartialEq, Structural)]
pub enum ClimbMode {
    Normal,
    /// Faster, because the round-trip time is stable.
    Hai,
    /// Faster, because the link was backing off just before.
    FastRecovery,
}

impl ClimbMode {
    /// The mode's name.
    pub open spec fn name(self) -> Seq<char> {
        match self {
            ClimbMode::Normal => "normal"@,
            ClimbMode::Hai => "hai"@,
            ClimbMode::FastRecovery => "fast_recovery"@,
        }
    }

    /// The mode's name.
    pub fn as_str(self) -> (s: &'static str)
        ensures
            s@ == self.name(),
    {
        match self {
            ClimbMode::Normal => "normal",
            ClimbMode::Hai => "hai",
            ClimbMode::FastRecovery => "fast_recovery",
        }
    }

    /// The growth per tick, in permille of the target.
    pub open spec fn step_permille(self) -> int {
        match self {
            ClimbMode::Normal => AI_STEP_PERMILLE as int,
            ClimbMode::Hai => HAI_STEP_PERMILLE as int,
            ClimbMode::FastRecovery => FAST_RECOVERY_STEP_PERMILLE as int,
        }
    }
}

impl Default for ClimbMode {
    fn default() -> (m: Self)
        ensures
            m is Normal,
    {
        ClimbMode::Normal
    }
}

/// How far the smoothed round-trip time is above the smallest one.
#[derive(Copy, Clone, Debug, Eq, PartialEq, Structural)]
pub enum RttInflation {
    /// At most one and a half times.
    Normal,
    /// More, but less than twice.
    Elevated,
    /// Twice or more.
    Severe,
}

/// What the caller's smoothing of the round-trip times says.
#[derive(Copy, Clone, Debug, Eq, PartialEq, Structural)]
pub enum RttSignal {
    /// Nothing yet.
    Unknown,
    /// `stable` where the variation is at most a tenth of the smoothed time.
    Known { inflation: RttInflation, stable: bool },
}

/// Packets sent and lost, as of one moment.
#[derive(Copy, Clone, Debug, Eq, PartialEq, Structural)]
pub struct LossSample {
    pub ts_ms: u64,
    pub lost: u32,
    pub sent: u32,
}

/// Rate control of one link.
pub struct LinkCongestionState {
    pub state: CcState,
    /// Only meaningful while climbing.
    pub climb_mode: ClimbMode,
    pub target_bps: u64,
    /// Samples of the loss window, oldest first.
    pub loss_samples: Vec<LossSample>,
    pub window_lost: u32,
    pub window_sent: u32,
    /// Ticks of faster growth that are left.
    pub fast_recovery_ticks: u32,
    /// Totals as of the last tick.
    pub prev_bytes_sent_total: u64,
    pub prev_nak_total: i32,
    pub traffic_baseline_set: bool,
}

/// Rate control of one link, as values.
pub struct CcModel {
    pub state: CcState,
    pub climb_mode: ClimbMode,
    pub target_bps: u64,
    pub samples: Seq<LossSample>,
    pub window_lost: u32,
    pub window_sent: u32,
    pub fast_recovery_ticks: u32,
    pub prev_bytes_sent_total: u64,
    pub prev_nak_total: i32,
    pub traffic_baseline_set: bool,
}

impl View for LinkCongestionState {
    type V = CcModel;

    open spec fn view(&self) -> CcModel {
        CcModel {
            state: self.state,
            climb_mode: self.climb_mode,
            target_bps: self.target_bps,
            samples: self.loss_samples@,
            window_lost: self.window_lost,
            window_sent: self.window_sent,
            fast_recovery_ticks: self.fast_recovery_ticks,
            prev_bytes_sent_total: self.prev_bytes_sent_total,
            prev_nak_total: self.prev_nak_total,
            traffic_baseline_set: self.traffic_baseline_set,
        }
    }
}

/// `a + b`, or the largest number where that does not fit.
pub open spec fn sum_capped(a: u32, b: u32) -> u32 {
    if a + b <= u32::MAX {
        (a + b) as u32
    } else {
        u32::MAX
    }
}

/// `a - b`, or zero where that is negative.
pub open spec fn difference(a: u32, b: u32) -> u32 {
    if a >= b {
        (a - b) as u32
    } else {
        0
    }
}

/// `target` within its bounds.
pub open spec fn bounded_target(target: int) -> int {
    if target < MIN_TARGET_BPS {
        MIN_TARGET_BPS as int
    } else if target > MAX_TARGET_BPS {
        MAX_TARGET_BPS as int
    } else {
        target
    }
}

/// The larger of two numbers.
pub open spec fn at_least(a: int, b: int) -> int {
    if a >= b {
        a
    } else {
        b
    }
}

/// The smaller of two numbers.
pub open spec fn at_most(a: int, b: int) -> int {
    if a <= b {
        a
    } else {
        b
    }
}

impl CcModel {
    /// Nothing known.
    pub open spec fn fresh() -> Self {
        CcModel {
            state: CcState::Bootstrap,
            climb_mode: ClimbMode::Normal,
            target_bps: MIN_TARGET_BPS,
            samples: Seq::empty(),
            window_lost: 0,
            window_sent: 0,
            fast_recovery_ticks: 0,
            prev_bytes_sent_total: 0,
            prev_nak_total: 0,
            traffic_baseline_set: false,
        }
    }

    /// Without the samples at the front that are older than the loss window.
    pub open spec fn evicted(self, now_ms: u64) -> Self
        decreases self.samples.len(),
    {
        if self.samples.len() > 0 && self.samples[0].ts_ms < since(now_ms, LOSS_WINDOW_MS) {
            CcModel {
                samples: self.samples.skip(1),
                window_sent: difference(self.window_sent, self.samples[0].sent),
                window_lost: difference(self.window_lost, self.samples[0].lost),
                ..self
            }.evicted(now_ms)
        } else {
            self
        }
    }

    /// With one more sample.
    pub open spec fn with_loss(self, sent: u32, lost: u32, now_ms: u64) -> Self {
        CcModel {
            samples: self.samples.push(LossSample { ts_ms: now_ms, lost, sent }),
            window_sent: sum_capped(self.window_sent, sent),
            window_lost: sum_capped(self.window_lost, lost),
            ..self
        }.evicted(now_ms)
    }

    /// The loss over the window, in permille.
    pub open spec fn loss_permille(self) -> int {
        if self.window_sent == 0 {
            0
        } else {
            at_most(self.window_lost * 1000 / (self.window_sent as int), 1_000_000)
        }
    }

    /// Packets sent since the last tick. A tick with NAKs counts at least one.
    pub open spec fn sent_since(self, bytes_sent_total: u64, nak_total: i32) -> int {
        let packets = at_most(
            (since(bytes_sent_total, self.prev_bytes_sent_total) / ASSUMED_SRT_PAYLOAD_BYTES) as int,
            u32::MAX as int,
        );
        if self.lost_since(nak_total) > 0 {
            at_least(packets, 1)
        } else {
            packets
        }
    }

    /// Packets lost since the last tick.
    pub open spec fn lost_since(self, nak_total: i32) -> int {
        at_most(at_least(nak_total - self.prev_nak_total, 0), i32::MAX as int)
    }

    /// With the traffic up to the given totals. The first totals are a baseline,
    /// and a tick without traffic leaves no sample.
    pub open spec fn with_traffic(
        self,
        bytes_sent_total: u64,
        nak_total: i32,
        now_ms: u64,
    ) -> Self {
        let noted = CcModel {
            prev_bytes_sent_total: bytes_sent_total,
            prev_nak_total: nak_total,
            traffic_baseline_set: true,
            ..self
        };
        if !self.traffic_baseline_set || (bytes_sent_total <= self.prev_bytes_sent_total
            && nak_total <= self.prev_nak_total) {
            noted
        } else {
            noted.with_loss(
                self.sent_since(bytes_sent_total, nak_total) as u32,
                self.lost_since(nak_total) as u32,
                now_ms,
            )
        }
    }

    /// The state that loss and round-trip time call for.
    pub open spec fn next_state(self, inflation: RttInflation) -> CcState {
        if self.loss_permille() > LOSS_BACKOFF_PERMILLE {
            CcState::BackingOff
        } else {
            match inflation {
                RttInflation::Severe => CcState::Drain,
                RttInflation::Elevated => CcState::Holding,
                RttInflation::Normal => CcState::Climbing,
            }
        }
    }

    /// The ticks of faster growth that are left on entering `next`, with this one:
    /// all of them on leaving a backoff or a drain, one less on each tick after.
    pub open spec fn next_recovery_ticks(self, next: CcState) -> u32 {
        if next is Climbing {
            if self.state is BackingOff || self.state is Drain {
                FAST_RECOVERY_TICKS
            } else if self.fast_recovery_ticks > 0 {
                (self.fast_recovery_ticks - 1) as u32
            } else {
                0
            }
        } else {
            0
        }
    }

    /// The target that a tick starts from: a first one comes from what is sent.
    pub open spec fn seeded_target(self, observed_bps: u64) -> int {
        if self.target_bps == MIN_TARGET_BPS {
            bounded_target(at_least(observed_bps as int, INITIAL_TARGET_BPS as int))
        } else {
            self.target_bps as int
        }
    }

    /// The target after growing by `step_permille`, but not beyond twice of what is
    /// sent, where anything is.
    pub open spec fn grown(target: int, step_permille: int, observed_bps: u64) -> int {
        let step = target * step_permille / 1000;
        if observed_bps > 0 {
            at_least(target, MIN_TARGET_BPS as int) + at_least(
                at_most(step, observed_bps * 2 - target),
                0,
            )
        } else {
            target + step
        }
    }

    /// After a tick.
    pub open spec fn ticked(self, observed_bps: u64, now_ms: u64, rtt: RttSignal) -> Self {
        let seen = self.evicted(now_ms);
        match rtt {
            RttSignal::Unknown => CcModel {
                state: CcState::Bootstrap,
                climb_mode: ClimbMode::Normal,
                target_bps: MIN_TARGET_BPS,
                ..seen
            },
            RttSignal::Known { inflation, stable } => {
                let next = seen.next_state(inflation);
                let ticks = seen.next_recovery_ticks(next);
                let mode = if !(next is Climbing) {
                    ClimbMode::Normal
                } else if ticks > 0 {
                    ClimbMode::FastRecovery
                } else if stable {
                    ClimbMode::Hai
                } else {
                    ClimbMode::Normal
                };
                let from = seen.seeded_target(observed_bps);
                let target = match next {
                    CcState::Climbing => Self::grown(from, mode.step_permille(), observed_bps),
                    CcState::BackingOff => from * BACKOFF_PERMILLE / 1000,
                    CcState::Drain => from * DRAIN_PERMILLE / 1000,
                    _ => from,
                };
                CcModel {
                    state: next,
                    climb_mode: mode,
                    target_bps: bounded_target(target) as u64,
                    fast_recovery_ticks: ticks,
                    ..seen
                }
            },
        }
    }
}

fn bound_target(target: u128) -> (r: u64)
    ensures
        r == bounded_target(target as int),
{
    if target < MIN_TARGET_BPS as u128 {
        MIN_TARGET_BPS
    } else if target > MAX_TARGET_BPS as u128 {
        MAX_TARGET_BPS
    } else {
        target as u64
    }
}

impl LinkCongestionState {
    /// Nothing known.
    pub fn new() -> (cc: Self)
        ensures
            cc@ == CcModel::fresh(),
    {
        let cc = LinkCongestionState {
            state: CcState::Bootstrap,
            climb_mode: ClimbMode::Normal,
            target_bps: MIN_TARGET_BPS,
            loss_samples: Vec::new(),
            window_lost: 0,
            window_sent: 0,
            fast_recovery_ticks: 0,
            prev_bytes_sent_total: 0,
            prev_nak_total: 0,
            traffic_baseline_set: false,
        };
        assert(cc@.samples =~= Seq::empty());
        cc
    }

    fn evict_expired(&mut self, now_ms: u64)
        ensures
            final(self)@ == old(self)@.evicted(now_ms),
    {
        let cutoff: u64 = now_ms.saturating_sub(LOSS_WINDOW_MS);
        while self.loss_samples.len() > 0 && self.loss_samples[0].ts_ms < cutoff
            invariant
                cutoff == since(now_ms, LOSS_WINDOW_MS),
                self@.evicted(now_ms) == old(self)@.evicted(now_ms),
            decreases self.loss_samples@.len(),
        {
            let ghost before = self@;
            let front: LossSample = self.loss_samples.remove(0);
            self.window_sent = self.window_sent.saturating_sub(front.sent);
            self.window_lost = self.window_lost.saturating_sub(front.lost);
            proof {
                assert(self.loss_samples@ =~= before.samples.skip(1));
                assert(self@ == CcModel {
                    samples: before.samples.skip(1),
                    window_sent: difference(before.window_sent, before.samples[0].sent),
                    window_lost: difference(before.window_lost, before.samples[0].lost),
                    ..before
                });
            }
        }
    }

    /// Takes in packets sent and lost.
    pub fn record_loss(&mut self, sent: u32, lost: u32, now_ms: u64)
        ensures
            final(self)@ == old(self)@.with_loss(sent, lost, now_ms),
    {
        self.loss_samples.push(LossSample { ts_ms: now_ms, lost, sent });
        self.window_sent = self.window_sent.saturating_add(sent);
        self.window_lost = self.window_lost.saturating_add(lost);
        self.evict_expired(now_ms);
    }

    /// Takes in totals of bytes sent and NAKs received: what was added since the
    /// last call becomes a sample.
    pub fn observe_traffic(&mut self, bytes_sent_total: u64, nak_total: i32, now_ms: u64)
        ensures
            final(self)@ == old(self)@.with_traffic(bytes_sent_total, nak_total, now_ms),
    {
        if !self.traffic_baseline_set {
            self.prev_bytes_sent_total = bytes_sent_total;
            self.prev_nak_total = nak_total;
            self.traffic_baseline_set = true;
            return;
        }
        let delta_bytes: u64 = bytes_sent_total.saturating_sub(self.prev_bytes_sent_total);
        let raw_nak: i64 = nak_total as i64 - self.prev_nak_total as i64;
        let delta_nak: i64 = if raw_nak < 0 {
            0
        } else if raw_nak > i32::MAX as i64 {
            i32::MAX as i64
        } else {
            raw_nak
        };
        self.prev_bytes_sent_total = bytes_sent_total;
        self.prev_nak_total = nak_total;
        if delta_bytes == 0 && delta_nak == 0 {
            return;
        }
        let packets: u64 = delta_bytes / ASSUMED_SRT_PAYLOAD_BYTES;
        let mut sent: u32 = if packets > u32::MAX as u64 {
            u32::MAX
        } else {
            packets as u32
        };
        let lost: u32 = delta_nak as u32;
        if lost > 0 && sent < 1 {
            sent = 1;
        }
        self.record_loss(sent, lost, now_ms);
    }

    /// The loss over the window, in permille.
    pub fn loss_permille(&self) -> (pm: u32)
        ensures
            pm == self@.loss_permille(),
    {
        if self.window_sent == 0 {
            return 0;
        }
        let lost: u64 = self.window_lost as u64;
        let permille: u64 = (lost * 1000) / (self.window_sent as u64);
        if permille > 1_000_000 {
            1_000_000
        } else {
            permille as u32
        }
    }

    /// Sets state and target anew, once per housekeeping tick.
    pub fn tick(&mut self, observed_bps: u64, now_ms: u64, rtt: RttSignal)
        ensures
            final(self)@ == old(self)@.ticked(observed_bps, now_ms, rtt),
    {
        self.evict_expired(now_ms);
        let ghost seen = self@;
        match rtt {
            RttSignal::Unknown => {
                self.state = CcState::Bootstrap;
                self.climb_mode = ClimbMode::Normal;
                self.target_bps = MIN_TARGET_BPS;
            },
            RttSignal::Known { inflation, stable } => {
                let loss: u32 = self.loss_permille();
                let next: CcState = if loss > LOSS_BACKOFF_PERMILLE {
                    CcState::BackingOff
                } else {
                    match inflation {
                        RttInflation::Severe => CcState::Drain,
                        RttInflation::Elevated => CcState::Holding,
                        RttInflation::Normal => CcState::Climbing,
                    }
                };
                assert(next == seen.next_state(inflation));
                if next == CcState::Climbing {
                    if self.state == CcState::BackingOff || self.state == CcState::Drain {
                        self.fast_recovery_ticks = FAST_RECOVERY_TICKS;
                    } else if self.fast_recovery_ticks > 0 {
                        self.fast_recovery_ticks = self.fast_recovery_ticks - 1;
                    }
                } else {
                    self.fast_recovery_ticks = 0;
                }
                self.state = next;
                if self.target_bps == MIN_TARGET_BPS {
                    let seed: u64 = if observed_bps > INITIAL_TARGET_BPS {
                        observed_bps
                    } else {
                        INITIAL_TARGET_BPS
                    };
                    self.target_bps = bound_target(seed as u128);
                }
                let from: u128 = self.target_bps as u128;
                assert(from == seen.seeded_target(observed_bps));
                let mut mode: ClimbMode = ClimbMode::Normal;
                let target: u128 = match next {
                    CcState::Climbing => {
                        mode =
                        if self.fast_recovery_ticks > 0 {
                            ClimbMode::FastRecovery
                        } else if stable {
                            ClimbMode::Hai
                        } else {
                            ClimbMode::Normal
                        };
                        let permille: u128 = match mode {
                            ClimbMode::Normal => AI_STEP_PERMILLE as u128,
                            ClimbMode::Hai => HAI_STEP_PERMILLE as u128,
                            ClimbMode::FastRecovery => FAST_RECOVERY_STEP_PERMILLE as u128,
                        };
                        assert(0 <= from * permille <= 0xffff_ffff_ffff_ffff * 60)
                            by (nonlinear_arith)
                            requires
                                from <= 0xffff_ffff_ffff_ffff,
                                permille <= 60,
                        ;
                        let step: u128 = from * permille / 1000;
                        if observed_bps > 0 {
                            let cap: u128 = (observed_bps as u128) * 2;
                            let room: u128 = if cap > from {
                                cap - from
                            } else {
                                0
                            };
                            let base: u128 = if from > MIN_TARGET_BPS as u128 {
                                from
                            } else {
                                MIN_TARGET_BPS as u128
                            };
                            base + if step < room {
                                step
                            } else {
                                room
                            }
                        } else {
                            from + step
                        }
                    },
                    CcState::BackingOff => from * (BACKOFF_PERMILLE as u128) / 1000,
                    CcState::Drain => from * (DRAIN_PERMILLE as u128) / 1000,
                    _ => from,
                };
                self.climb_mode = mode;
                self.target_bps = bound_target(target);
            },
        }
    }

    /// What is shown of the link's rate control.
    pub fn snapshot(&self) -> (snap: LinkCcSnapshot)
        ensures
            snap == snapshot_of(self@),
    {
        LinkCcSnapshot {
            state: self.state,
            climb_mode: self.climb_mode,
            target_bps: self.target_bps,
            loss_permille: self.loss_permille(),
        }
    }
}

impl Default for LinkCongestionState {
    fn default() -> (cc: Self)
        ensures
            cc@ == CcModel::fresh(),
    {
        Self::new()
    }
}

/// What is shown of a link's rate control.
#[derive(Copy, Clone, Debug, Eq, PartialEq, Structural)]
pub struct LinkCcSnapshot {
    pub state: CcState,
    pub climb_mode: ClimbMode,
    pub target_bps: u64,
    pub loss_permille: u32,
}

/// What is shown of a link's rate control.
pub open spec fn snapshot_of(cc: CcModel) -> LinkCcSnapshot {
    LinkCcSnapshot {
        state: cc.state,
        climb_mode: cc.climb_mode,
        target_bps: cc.target_bps,
        loss_permille: cc.loss_permille() as u32,
    }
}

/// Rate control of all links, by their id.
pub struct LinkCcController {
    pub per_conn: HashMap<u64, LinkCongestionState>,
}

/// The values of all links' rate control.
pub open spec fn models(per_conn: Map<u64, LinkCongestionState>) -> Map<u64, CcModel> {
    per_conn.map_values(|cc: LinkCongestionState| cc@)
}

/// One link's rate control after its tick.
pub open spec fn link_ticked(
    cc: CcModel,
    conn: SrtlaConnection,
    rtt: RttSignal,
    now_ms: u64,
) -> CcModel {
    cc.with_traffic(conn.bitrate.bytes_sent_total, conn.congestion.nak_count, now_ms).ticked(
        conn.bitrate.current_bitrate_bps,
        now_ms,
        rtt,
    )
}

/// Rate control of the first `n` links after their ticks. A link that was not
/// known starts afresh; one that is listed again goes on from its last tick.
pub open spec fn all_ticked(
    before: Map<u64, CcModel>,
    conns: Seq<SrtlaConnection>,
    signals: Seq<RttSignal>,
    now_ms: u64,
    n: nat,
) -> Map<u64, CcModel>
    decreases n,
{
    if n == 0 {
        Map::empty()
    } else {
        let done = all_ticked(before, conns, signals, now_ms, (n - 1) as nat);
        let id = conns[n - 1].conn_id;
        let cc = if done.contains_key(id) {
            done[id]
        } else if before.contains_key(id) {
            before[id]
        } else {
            CcModel::fresh()
        };
        done.insert(id, link_ticked(cc, conns[n - 1], signals[n - 1], now_ms))
    }
}

impl LinkCcController {
    /// No link known.
    pub fn new() -> (ctl: Self)
        ensures
            ctl.per_conn@ == Map::<u64, LinkCongestionState>::empty(),
    {
        LinkCcController { per_conn: HashMap::new() }
    }

    /// Ticks the rate control of every link, by what its connection counted and
    /// what the caller's smoothing says of its round-trip time. Links that are not
    /// listed are forgotten. What is shown of each link is returned.
    pub fn tick_all(
        &mut self,
        connections: &[SrtlaConnection],
        signals: &[RttSignal],
        now_ms: u64,
    ) -> (shown: HashMap<u64, LinkCcSnapshot>)
        requires
            connections@.len() == signals@.len(),
        ensures
            models(final(self).per_conn@) == all_ticked(
                models(old(self).per_conn@),
                connections@,
                signals@,
                now_ms,
                connections@.len(),
            ),
            shown@ == models(final(self).per_conn@).map_values(|cc: CcModel| snapshot_of(cc)),
    {
        let ghost before = models(self.per_conn@);
        let mut next: HashMap<u64, LinkCongestionState> = HashMap::new();
        let mut shown: HashMap<u64, LinkCcSnapshot> = HashMap::new();
        let mut i: usize = 0;
        proof {
            assert(models(next@) =~= all_ticked(before, connections@, signals@, now_ms, 0));
            assert(shown@ =~= models(next@).map_values(|cc: CcModel| snapshot_of(cc)));
        }
        while i < connections.len()
            invariant
                i <= connections@.len(),
                connections@.len() == signals@.len(),
                models(next@) == all_ticked(before, connections@, signals@, now_ms, i as nat),
                shown@ == models(next@).map_values(|cc: CcModel| snapshot_of(cc)),
                forall|id: u64|
                    !next@.contains_key(id) ==> (#[trigger] self.per_conn@.contains_key(id)
                        == before.contains_key(id)),
                forall|id: u64|
                    !next@.contains_key(id) && #[trigger] self.per_conn@.contains_key(id)
                        ==> self.per_conn@[id]@ == before[id],
            decreases connections@.len() - i,
        {
            let ghost done = models(next@);
            let ghost done_next = next@;
            let conn = &connections[i];
            let id: u64 = conn.conn_id;
            let mut cc: LinkCongestionState = match next.remove(&id) {
                Some(cc) => cc,
                None => match self.per_conn.remove(&id) {
                    Some(cc) => cc,
                    None => LinkCongestionState::new(),
                },
            };
            assert(cc@ == if done.contains_key(id) {
                done[id]
            } else if before.contains_key(id) {
                before[id]
            } else {
                CcModel::fresh()
            });
            cc.observe_traffic(
                conn.bitrate.bytes_sent_total,
                conn.total_nak_count(),
                now_ms,
            );
            cc.tick(conn.bitrate.current_bitrate_bps, now_ms, signals[i]);
            let snap: LinkCcSnapshot = cc.snapshot();
            shown.insert(id, snap);
            next.insert(id, cc);
            i += 1;
            proof {
                assert(next@ =~= done_next.insert(id, next@[id]));
                assert(models(next@) =~= all_ticked(
                    before,
                    connections@,
                    signals@,
                    now_ms,
                    i as nat,
                ));
                assert(shown@ =~= models(next@).map_values(|cc: CcModel| snapshot_of(cc)));
            }
        }
        self.per_conn = next;
        shown
    }
}

/// After a tick the target is within its bounds, whatever came in.
pub proof fn target_stays_in_bounds(cc: CcModel, observed_bps: u64, now_ms: u64, rtt: RttSignal)
    ensures
        MIN_TARGET_BPS <= cc.ticked(observed_bps, now_ms, rtt).target_bps <= MAX_TARGET_BPS,
{
}

/// Loss above the limit makes the link back off, and a target above its floor
/// shrinks.
pub proof fn loss_shrinks_the_target(
    cc: CcModel,
    observed_bps: u64,
    now_ms: u64,
    inflation: RttInflation,
    stable: bool,
)
    requires
        cc.evicted(now_ms).loss_permille() > LOSS_BACKOFF_PERMILLE,
        MIN_TARGET_BPS < cc.evicted(now_ms).target_bps <= MAX_TARGET_BPS,
    ensures
        cc.ticked(observed_bps, now_ms, RttSignal::Known { inflation, stable }).state is BackingOff,
        cc.ticked(observed_bps, now_ms, RttSignal::Known { inflation, stable }).target_bps
            < cc.evicted(now_ms).target_bps,
{
}

/// A target does not grow beyond twice of what is sent, where anything is.
pub proof fn growth_follows_traffic(target: int, step_permille: int, observed_bps: u64)
    requires
        target >= MIN_TARGET_BPS,
        observed_bps > 0,
    ensures
        CcModel::grown(target, step_permille, observed_bps) <= at_least(target, observed_bps * 2),
{
}

/// The packets sent in a list of samples.
pub open spec fn sent_in(samples: Seq<LossSample>) -> nat
    decreases samples.len(),
{
    if samples.len() == 0 {
        0
    } else {
        samples[0].sent as nat + sent_in(samples.skip(1))
    }
}

/// The packets lost in a list of samples.
pub open spec fn lost_in(samples: Seq<LossSample>) -> nat
    decreases samples.len(),
{
    if samples.len() == 0 {
        0
    } else {
        samples[0].lost as nat + lost_in(samples.skip(1))
    }
}

/// Whether the totals are those of the samples in the window.
pub open spec fn totals_match(cc: CcModel) -> bool {
    cc.window_sent == sent_in(cc.samples) && cc.window_lost == lost_in(cc.samples)
}

proof fn sums_of_push(samples: Seq<LossSample>, s: LossSample)
    ensures
        sent_in(samples.push(s)) == sent_in(samples) + s.sent,
        lost_in(samples.push(s)) == lost_in(samples) + s.lost,
    decreases samples.len(),
{
    if samples.len() > 0 {
        sums_of_push(samples.skip(1), s);
        assert(samples.push(s).skip(1) =~= samples.skip(1).push(s));
    } else {
        reveal_with_fuel(sent_in, 2);
        reveal_with_fuel(lost_in, 2);
        assert(samples.push(s).skip(1) =~= Seq::empty());
    }
}

/// Eviction keeps the totals those of the samples, and leaves no expired sample in
/// front.
pub proof fn eviction_keeps_totals(cc: CcModel, now_ms: u64)
    requires
        totals_match(cc),
    ensures
        totals_match(cc.evicted(now_ms)),
        cc.evicted(now_ms).samples.len() > 0 ==> cc.evicted(now_ms).samples[0].ts_ms >= since(
            now_ms,
            LOSS_WINDOW_MS,
        ),
    decreases cc.samples.len(),
{
    if cc.samples.len() > 0 && cc.samples[0].ts_ms < since(now_ms, LOSS_WINDOW_MS) {
        let next = CcModel {
            samples: cc.samples.skip(1),
            window_sent: difference(cc.window_sent, cc.samples[0].sent),
            window_lost: difference(cc.window_lost, cc.samples[0].lost),
            ..cc
        };
        eviction_keeps_totals(next, now_ms);
    }
}

/// A new sample keeps the totals those of the samples in the window, as long as
/// they fit their type.
pub proof fn samples_keep_totals(cc: CcModel, sent: u32, lost: u32, now_ms: u64)
    requires
        totals_match(cc),
        cc.window_sent + sent <= u32::MAX,
        cc.window_lost + lost <= u32::MAX,
    ensures
        totals_match(cc.with_loss(sent, lost, now_ms)),
{
    let s = LossSample { ts_ms: now_ms, lost, sent };
    sums_of_push(cc.samples, s);
    let pushed = CcModel {
        samples: cc.samples.push(s),
        window_sent: sum_capped(cc.window_sent, sent),
        window_lost: sum_capped(cc.window_lost, lost),
        ..cc
    };
    eviction_keeps_totals(pushed, now_ms);
}

/// What a tick is given: the observed rate, the time and the round-trip signal.
pub struct CcTick {
    pub observed_bps: u64,
    pub now_ms: u64,
    pub rtt: RttSignal,
}

/// After several ticks.
pub open spec fn ticked_over(cc: CcModel, ticks: Seq<CcTick>) -> CcModel
    decreases ticks.len(),
{
    if ticks.len() == 0 {
        cc
    } else {
        let t = ticks.last();
        ticked_over(cc, ticks.drop_last()).ticked(t.observed_bps, t.now_ms, t.rtt)
    }
}

proof fn eviction_keeps_the_state(cc: CcModel, now_ms: u64)
    ensures
        cc.evicted(now_ms).state == cc.state,
        cc.evicted(now_ms).fast_recovery_ticks == cc.fast_recovery_ticks,
    decreases cc.samples.len(),
{
    if cc.samples.len() > 0 && cc.samples[0].ts_ms < since(now_ms, LOSS_WINDOW_MS) {
        let next = CcModel {
            samples: cc.samples.skip(1),
            window_sent: difference(cc.window_sent, cc.samples[0].sent),
            window_lost: difference(cc.window_lost, cc.samples[0].lost),
            ..cc
        };
        eviction_keeps_the_state(next, now_ms);
    }
}

/// A link that leaves a backoff or a drain and climbs from then on does so in fast
/// recovery for `FAST_RECOVERY_TICKS` ticks, the first one included, and not longer.
pub proof fn fast_recovery_lasts_its_ticks(cc: CcModel, ticks: Seq<CcTick>)
    requires
        cc.state is BackingOff || cc.state is Drain,
        ticks.len() > 0,
        forall|n: int|
            0 < n <= ticks.len() ==> (#[trigger] ticked_over(cc, ticks.take(n))).state is Climbing,
    ensures
        ticked_over(cc, ticks).climb_mode is FastRecovery <==> ticks.len() <= FAST_RECOVERY_TICKS,
        ticked_over(cc, ticks).fast_recovery_ticks == if ticks.len() <= FAST_RECOVERY_TICKS {
            FAST_RECOVERY_TICKS + 1 - ticks.len()
        } else {
            0
        },
    decreases ticks.len(),
{
    let front = ticks.drop_last();
    let t = ticks.last();
    assert(ticks.take(ticks.len() as int) =~= ticks);
    assert(ticked_over(cc, ticks).state is Climbing);
    eviction_keeps_the_state(ticked_over(cc, front), t.now_ms);
    if front.len() > 0 {
        assert forall|n: int| 0 < n <= front.len() implies (#[trigger] ticked_over(
            cc,
            front.take(n),
        )).state is Climbing by {
            assert(front.take(n) =~= ticks.take(n));
            assert(ticked_over(cc, ticks.take(n)).state is Climbing);
        }
        fast_recovery_lasts_its_ticks(cc, front);
        assert(front.take(front.len() as int) =~= front);
        assert(ticked_over(cc, front.take(front.len() as int)).state is Climbing);
    }
}

/// What a tick does where the round-trip time is known, and `lost` of `sent` packets of
/// the last second were lost. A loss of 0.6 percent or more takes the target to 85
/// percent; else a doubled time takes it to 75 percent, and a swollen one leaves it; else
/// it grows. 100 kbit/s is the least and 200 Mbit/s the most.
pub proof fn loss_counts_before_delay(
    cc: CcModel,
    observed_bps: u64,
    now_ms: u64,
    inflation: RttInflation,
    stable: bool,
)
    requires
        100_000 < cc.target_bps <= 200_000_000,
    ensures
        ({
            let lost = cc.evicted(now_ms).window_lost;
            let sent = cc.evicted(now_ms).window_sent;
            let lossy = sent > 0 && lost * 1000 >= 6 * sent;
            let after = cc.ticked(observed_bps, now_ms, RttSignal::Known { inflation, stable });
            &&& lossy ==> after.state is BackingOff && after.target_bps == if cc.target_bps * 85
                / 100 > 100_000 {
                cc.target_bps * 85 / 100
            } else {
                100_000
            }
            &&& !lossy && inflation is Severe ==> after.state is Drain && after.target_bps == if
                cc.target_bps * 3 / 4 > 100_000 {
                cc.target_bps * 3 / 4
            } else {
                100_000
            }
            &&& !lossy && inflation is Elevated ==> after.state is Holding && after.target_bps
                == cc.target_bps
            &&& !lossy && inflation is Normal ==> after.state is Climbing && after.target_bps
                >= cc.target_bps
            &&& after.samples == cc.evicted(now_ms).samples
        }),
{
    let e = cc.evicted(now_ms);
    eviction_keeps_the_state(cc, now_ms);
    eviction_keeps_the_target(cc, now_ms);
    if e.window_sent > 0 {
        permille_above_five(e.window_lost as int, e.window_sent as int);
    }
    assert(cc.target_bps * 850 / 1000 == cc.target_bps * 85 / 100);
    assert(cc.target_bps * 750 / 1000 == cc.target_bps * 3 / 4);
    if inflation is Normal {
        let after = cc.ticked(observed_bps, now_ms, RttSignal::Known { inflation, stable });
        let step = after.climb_mode.step_permille();
        let from = e.target_bps as int;
        assert(0 <= step <= 60);
        assert(0 <= from * step / 1000) by (nonlinear_arith)
            requires
                0 <= from,
                0 <= step,
        ;
    }
}

proof fn permille_above_five(lost: int, sent: int)
    requires
        0 <= lost,
        0 < sent,
    ensures
        lost * 1000 / sent > 5 <==> lost * 1000 >= 6 * sent,
{
    let q = lost * 1000 / sent;
    assert(q * sent <= lost * 1000 < (q + 1) * sent) by (nonlinear_arith)
        requires
            0 < sent,
            q == lost * 1000 / sent,
    ;
    if q > 5 {
        assert(6 * sent <= q * sent) by (nonlinear_arith)
            requires
                q >= 6,
                0 < sent,
        ;
    } else {
        assert((q + 1) * sent <= 6 * sent) by (nonlinear_arith)
            requires
                q <= 5,
                0 < sent,
        ;
    }
}

proof fn eviction_keeps_the_target(cc: CcModel, now_ms: u64)
    ensures
        cc.evicted(now_ms).target_bps == cc.target_bps,
        cc.evicted(now_ms).samples.len() <= cc.samples.len(),
    decreases cc.samples.len(),
{
    if cc.samples.len() > 0 && cc.samples[0].ts_ms < since(now_ms, LOSS_WINDOW_MS) {
        let next = CcModel {
            samples: cc.samples.skip(1),
            window_sent: difference(cc.window_sent, cc.samples[0].sent),
            window_lost: difference(cc.window_lost, cc.samples[0].lost),
            ..cc
        };
        eviction_keeps_the_target(next, now_ms);
    }
}

/// A target that grows does so by 2 percent, by 6 where the round-trip time is stable, and
/// by 4 in the ticks after a backoff or a drain; to no more than twice of what is sent,
/// where anything is, and 200 Mbit/s.
pub proof fn target_grows_by_its_step(
    cc: CcModel,
    observed_bps: u64,
    now_ms: u64,
    stable: bool,
)
    requires
        100_000 < cc.target_bps <= 200_000_000,
        cc.evicted(now_ms).window_lost == 0,
    ensures
        ({
            let after = cc.ticked(
                observed_bps,
                now_ms,
                RttSignal::Known { inflation: RttInflation::Normal, stable },
            );
            let recovers = cc.state is BackingOff || cc.state is Drain || cc.fast_recovery_ticks
                > 1;
            let percent: int = if recovers {
                4
            } else if stable {
                6
            } else {
                2
            };
            let grown = cc.target_bps + cc.target_bps * percent / 100;
            let most = if observed_bps > 0 && observed_bps * 2 < 200_000_000 {
                observed_bps * 2
            } else {
                200_000_000
            };
            &&& after.state is Climbing
            &&& grown <= most ==> after.target_bps == grown
            &&& grown > most && cc.target_bps <= most ==> after.target_bps == most
            &&& cc.target_bps > most ==> after.target_bps == cc.target_bps
            &&& recovers ==> after.climb_mode is FastRecovery
            &&& !recovers && stable ==> after.climb_mode is Hai
            &&& !recovers && !stable ==> after.climb_mode is Normal
        }),
{
    eviction_keeps_the_state(cc, now_ms);
    eviction_keeps_the_target(cc, now_ms);
    assert(cc.evicted(now_ms).loss_permille() == 0);
    assert(cc.target_bps * 20 / 1000 == cc.target_bps * 2 / 100);
    assert(cc.target_bps * 40 / 1000 == cc.target_bps * 4 / 100);
    assert(cc.target_bps * 60 / 1000 == cc.target_bps * 6 / 100);
}

/// A first target comes from what is sent, and is 1 Mbit/s at least; without a round-trip
/// time there is none.
pub proof fn first_target_comes_from_the_traffic(
    cc: CcModel,
    observed_bps: u64,
    now_ms: u64,
    stable: bool,
)
    requires
        cc.target_bps == 100_000,
        cc.evicted(now_ms).window_lost == 0,
        observed_bps <= 200_000_000,
    ensures
        cc.ticked(
            observed_bps,
            now_ms,
            RttSignal::Known { inflation: RttInflation::Elevated, stable },
        ).target_bps == if observed_bps > 1_000_000 {
            observed_bps
        } else {
            1_000_000
        },
        cc.ticked(observed_bps, now_ms, RttSignal::Unknown).target_bps == 100_000,
        cc.ticked(observed_bps, now_ms, RttSignal::Unknown).state is Bootstrap,
{
    eviction_keeps_the_target(cc, now_ms);
}

/// Samples count for one second: where they are in the order of their times, those left
/// are the ones that are no older, in that order.
pub proof fn samples_count_for_a_second(cc: CcModel, now_ms: u64, i: int)
    requires
        forall|a: int, b: int|
            0 <= a <= b < cc.samples.len() ==> (#[trigger] cc.samples[a]).ts_ms <= (
            #[trigger] cc.samples[b]).ts_ms,
        0 <= i < cc.samples.len(),
    ensures
        ({
            let left = cc.evicted(now_ms).samples;
            let gone = cc.samples.len() - left.len();
            &&& 0 <= gone
            &&& left == cc.samples.skip(gone)
            &&& i < gone <==> cc.samples[i].ts_ms + 1000 < now_ms
        }),
    decreases cc.samples.len(),
{
    let left = cc.evicted(now_ms).samples;
    if cc.samples[0].ts_ms < since(now_ms, LOSS_WINDOW_MS) {
        let next = CcModel {
            samples: cc.samples.skip(1),
            window_sent: difference(cc.window_sent, cc.samples[0].sent),
            window_lost: difference(cc.window_lost, cc.samples[0].lost),
            ..cc
        };
        assert(left == next.evicted(now_ms).samples);
        if next.samples.len() > 0 {
            assert forall|a: int, b: int| 0 <= a <= b < next.samples.len() implies (
            #[trigger] next.samples[a]).ts_ms <= (#[trigger] next.samples[b]).ts_ms by {
                assert(cc.samples[a + 1].ts_ms <= cc.samples[b + 1].ts_ms);
            }
            samples_count_for_a_second(
                next,
                now_ms,
                if i > 0 {
                    i - 1
                } else {
                    0
                },
            );
            let gone = next.samples.len() - left.len();
            assert(next.samples.skip(gone) =~= cc.samples.skip(gone + 1));
        } else {
            assert(left =~= cc.samples.skip(1));
        }
    } else {
        assert(left =~= cc.samples.skip(0));
        assert(cc.samples[0].ts_ms <= cc.samples[i].ts_ms);
    }
}

/// Two totals are a sample of what came between: a packet sent for every 1316 bytes and a
/// packet lost for every NAK, one sent at least where any was lost. The first totals are
/// none, and neither are totals that did not move.
pub proof fn totals_become_samples(
    cc: CcModel,
    bytes_sent_total: u64,
    nak_total: i32,
    now_ms: u64,
)
    requires
        cc.prev_bytes_sent_total <= bytes_sent_total,
        0 <= cc.prev_nak_total <= nak_total,
        bytes_sent_total - cc.prev_bytes_sent_total <= u32::MAX,
    ensures
        ({
            let after = cc.with_traffic(bytes_sent_total, nak_total, now_ms);
            let bytes = bytes_sent_total - cc.prev_bytes_sent_total;
            let lost = nak_total - cc.prev_nak_total;
            let sent = if lost > 0 && bytes < 1316 {
                1
            } else {
                bytes / 1316
            };
            &&& after.prev_bytes_sent_total == bytes_sent_total
            &&& after.prev_nak_total == nak_total
            &&& after.traffic_baseline_set
            &&& !cc.traffic_baseline_set ==> after.samples == cc.samples
            &&& bytes == 0 && lost == 0 ==> after.samples == cc.samples
            &&& cc.traffic_baseline_set && (bytes > 0 || lost > 0) ==> after.samples.len() > 0
                && after.samples.last() == (LossSample {
                ts_ms: now_ms,
                lost: lost as u32,
                sent: sent as u32,
            })
            &&& cc.traffic_baseline_set && cc.samples.len() == 0 && cc.window_sent == 0
                && cc.window_lost == 0 && (bytes > 0 || lost > 0) ==> after.window_sent == sent
                && after.window_lost == lost
        }),
{
    let bytes = bytes_sent_total - cc.prev_bytes_sent_total;
    let lost = nak_total - cc.prev_nak_total;
    if cc.traffic_baseline_set && (bytes > 0 || lost > 0) {
        let noted = CcModel {
            prev_bytes_sent_total: bytes_sent_total,
            prev_nak_total: nak_total,
            traffic_baseline_set: true,
            ..cc
        };
        let sent = cc.sent_since(bytes_sent_total, nak_total) as u32;
        let s = LossSample { ts_ms: now_ms, lost: lost as u32, sent };
        let pushed = CcModel {
            samples: noted.samples.push(s),
            window_sent: sum_capped(noted.window_sent, sent),
            window_lost: sum_capped(noted.window_lost, lost as u32),
            ..noted
        };
        newest_sample_stays(pushed, now_ms);
        if cc.samples.len() == 0 {
            assert(pushed.evicted(now_ms) == pushed);
        }
    }
}

proof fn newest_sample_stays(cc: CcModel, now_ms: u64)
    requires
        cc.samples.len() > 0,
        cc.samples.last().ts_ms == now_ms,
    ensures
        cc.evicted(now_ms).samples.len() > 0,
        cc.evicted(now_ms).samples.last() == cc.samples.last(),
        cc.evicted(now_ms).prev_bytes_sent_total == cc.prev_bytes_sent_total,
        cc.evicted(now_ms).prev_nak_total == cc.prev_nak_total,
        cc.evicted(now_ms).traffic_baseline_set == cc.traffic_baseline_set,
    decreases cc.samples.len(),
{
    if cc.samples[0].ts_ms < since(now_ms, LOSS_WINDOW_MS) {
        let next = CcModel {
            samples: cc.samples.skip(1),
            window_sent: difference(cc.window_sent, cc.samples[0].sent),
            window_lost: difference(cc.window_lost, cc.samples[0].lost),
            ..cc
        };
        newest_sample_stays(next, now_ms);
    }
}

/// The loss that is shown is the share of packets lost, in thousandths.
pub proof fn loss_is_the_share_lost(cc: CcModel, permille: int)
    requires
        cc.window_sent > 0,
        0 <= permille <= 1_000_000,
    ensures
        cc.loss_permille() >= permille <==> cc.window_lost * 1000 >= permille * cc.window_sent,
{
    let lost = cc.window_lost as int;
    let sent = cc.window_sent as int;
    let q = lost * 1000 / sent;
    assert(q * sent <= lost * 1000 < (q + 1) * sent) by (nonlinear_arith)
        requires
            0 < sent,
            q == lost * 1000 / sent,
    ;
    if q >= permille {
        assert(permille * sent <= q * sent) by (nonlinear_arith)
            requires
                q >= permille,
                0 < sent,
        ;
    } else {
        assert((q + 1) * sent <= permille * sent) by (nonlinear_arith)
            requires
                q + 1 <= permille,
                0 < sent,
        ;
    }
}

/// Each link's rate control goes on from its own: where no id is listed twice, a listed
/// link has its own earlier one ticked with its own figures, afresh where there was none,
/// and a link that is not listed has none.
pub proof fn rate_control_goes_by_id(
    before: Map<u64, CcModel>,
    conns: Seq<SrtlaConnection>,
    signals: Seq<RttSignal>,
    now_ms: u64,
    n: nat,
    id: u64,
    i: int,
)
    requires
        n <= conns.len(),
        0 <= i < n,
        forall|a: int, b: int|
            0 <= a < b < conns.len() ==> (#[trigger] conns[a]).conn_id != (
            #[trigger] conns[b]).conn_id,
    ensures
        ({
            let after = all_ticked(before, conns, signals, now_ms, n);
            let own = conns[i].conn_id;
            &&& after.contains_key(own)
            &&& after[own] == link_ticked(
                if before.contains_key(own) {
                    before[own]
                } else {
                    CcModel::fresh()
                },
                conns[i],
                signals[i],
                now_ms,
            )
            &&& (forall|k: int| 0 <= k < n ==> (#[trigger] conns[k]).conn_id != id)
                ==> !after.contains_key(id)
        }),
    decreases n,
{
    let own = conns[i].conn_id;
    unlisted_link_has_none(before, conns, signals, now_ms, (n - 1) as nat, conns[n - 1].conn_id);
    if forall|k: int| 0 <= k < n ==> (#[trigger] conns[k]).conn_id != id {
        unlisted_link_has_none(before, conns, signals, now_ms, n, id);
    }
    if i < n - 1 {
        rate_control_goes_by_id(before, conns, signals, now_ms, (n - 1) as nat, id, i);
        assert(conns[n - 1].conn_id != own);
    } else {
        assert forall|k: int| 0 <= k < n - 1 implies (#[trigger] conns[k]).conn_id != own by {}
    }
}

proof fn unlisted_link_has_none(
    before: Map<u64, CcModel>,
    conns: Seq<SrtlaConnection>,
    signals: Seq<RttSignal>,
    now_ms: u64,
    n: nat,
    id: u64,
)
    requires
        n <= conns.len(),
    ensures
        (forall|k: int| 0 <= k < n ==> (#[trigger] conns[k]).conn_id != id) ==> !all_ticked(
            before,
            conns,
            signals,
            now_ms,
            n,
        ).contains_key(id),
    decreases n,
{
    if n > 0 {
        unlisted_link_has_none(before, conns, signals, now_ms, (n - 1) as nat, id);
        if forall|k: int| 0 <= k < n ==> (#[trigger] conns[k]).conn_id != id {
            assert(conns[n - 1].conn_id != id);
        }
    }
}

/// What is shown of a link is its state, its target and its loss.
pub proof fn shown_is_what_is(cc: CcModel)
    ensures
        snapshot_of(cc).state == cc.state,
        snapshot_of(cc).climb_mode == cc.climb_mode,
        snapshot_of(cc).target_bps == cc.target_bps,
        snapshot_of(cc).loss_permille == cc.loss_permille(),
{
    if cc.window_sent > 0 {
        let lost = cc.window_lost as int;
        let sent = cc.window_sent as int;
        assert(0 <= lost * 1000 / sent) by (nonlinear_arith)
            requires
                0 <= lost,
                0 < sent,
        ;
    }
}

} // verus!
