//! Settings that can be changed while the sender runs.

use crate::mode::SchedulingMode;
use vstd::prelude::*;

verus! {

/// Packets in flight at which a link can count as stalled.
pub const STALL_MIN_IN_FLIGHT_PACKETS: i32 = 32;

/// Time without proof of delivery after which such a link is stalled.
pub const STALL_ACK_STALE_MS: u64 = 3000;

/// Multiple of the smoothed round-trip time that the adaptive window takes.
pub const STALL_STALE_RTT_MULT: u64 = 4;

/// Shortest adaptive window: above the pauses that are routine on radio links.
pub const STALL_STALE_FLOOR_MS: u64 = 1000;

/// Multiple of the window for which a link would have to deliver before it rejoins.
/// Selection has no such delay: a link rejoins with its next proof of delivery.
pub const STALL_REJOIN_DWELL_MULT: u64 = 2;

/// One in so many packets would also be sent on a stalled link, to probe it. The
/// library sends no such copies: keepalives prove delivery.
pub const STALL_PROBE_ONE_IN_N: u32 = 100;

/// Default distance from the smallest round-trip time at which a link still
/// counts as fast.
pub const DEFAULT_RTT_DELTA_MS: u32 = 30;

/// The settings at one moment.
#[derive(Clone, Copy, Debug, PartialEq, Eq, Structural)]
pub struct ConfigSnapshot {
    pub mode: SchedulingMode,
    pub quality_enabled: bool,
    pub exploration_enabled: bool,
    pub rtt_delta_ms: u32,
    /// Whether stalled links are passed over where a healthier one can carry the
    /// traffic.
    pub stall_deselect: bool,
    pub stall_min_in_flight: i32,
    pub stall_ack_stale_ms: u64,
}

impl ConfigSnapshot {
    /// The settings before anyone changed them.
    pub open spec fn spec_default() -> Self {
        ConfigSnapshot {
            mode: SchedulingMode::Enhanced,
            quality_enabled: true,
            exploration_enabled: false,
            rtt_delta_ms: DEFAULT_RTT_DELTA_MS,
            stall_deselect: true,
            stall_min_in_flight: STALL_MIN_IN_FLIGHT_PACKETS,
            stall_ack_stale_ms: STALL_ACK_STALE_MS,
        }
    }

    /// Whether quality counts: it is switched on and the mode is not classic.
    pub fn effective_quality_enabled(&self) -> (r: bool)
        ensures
            r == (self.quality_enabled && self.mode !is Classic),
    {
        self.quality_enabled && !self.mode.is_classic()
    }
}

impl Default for ConfigSnapshot {
    fn default() -> (snap: Self)
        ensures
            snap == Self::spec_default(),
    {
        ConfigSnapshot {
            mode: SchedulingMode::Enhanced,
            quality_enabled: true,
            exploration_enabled: false,
            rtt_delta_ms: DEFAULT_RTT_DELTA_MS,
            stall_deselect: true,
            stall_min_in_flight: STALL_MIN_IN_FLIGHT_PACKETS,
            stall_ack_stale_ms: STALL_ACK_STALE_MS,
        }
    }
}

/// The settings, and the hints that the encoder gave about packets to come. There is
/// one of them, which cannot be copied: all who read or change it share it.
#[derive(Debug, PartialEq, Eq, Structural)]
pub struct DynamicConfig {
    pub current: ConfigSnapshot,
    /// Whether links are chosen by predicted arrival instead of by `mode`.
    pub edpf: bool,
    /// Packets that are still to be treated as critical.
    pub critical_hint_remaining: u32,
    /// Hints received so far.
    pub critical_hints_total: u64,
}

impl DynamicConfig {
    /// The defaults.
    pub fn new() -> (config: Self)
        ensures
            config.current == ConfigSnapshot::spec_default(),
            !config.edpf,
            config.critical_hint_remaining == 0,
            config.critical_hints_total == 0,
    {
        DynamicConfig {
            current: ConfigSnapshot::default(),
            edpf: false,
            critical_hint_remaining: 0,
            critical_hints_total: 0,
        }
    }

    /// The settings that the command line asks for.
    pub fn from_cli(
        mode: SchedulingMode,
        no_quality: bool,
        no_stall_deselect: bool,
        stall_min_in_flight: i32,
        stall_ack_stale_ms: u64,
    ) -> (config: Self)
        ensures
            config.current == (ConfigSnapshot {
                mode,
                quality_enabled: !no_quality,
                stall_deselect: !no_stall_deselect,
                stall_min_in_flight,
                stall_ack_stale_ms,
                ..ConfigSnapshot::spec_default()
            }),
            !config.edpf,
            config.critical_hint_remaining == 0,
            config.critical_hints_total == 0,
    {
        let mut config = Self::new();
        config.current.mode = mode;
        config.current.quality_enabled = !no_quality;
        config.current.stall_deselect = !no_stall_deselect;
        config.current.stall_min_in_flight = stall_min_in_flight;
        config.current.stall_ack_stale_ms = stall_ack_stale_ms;
        config
    }

    /// The settings as they are now.
    pub fn snapshot(&self) -> (snap: ConfigSnapshot)
        ensures
            snap == self.current,
    {
        self.current
    }

    /// The scheduling mode.
    pub fn mode(&self) -> (mode: SchedulingMode)
        ensures
            mode == self.current.mode,
    {
        self.current.mode
    }

    /// Changes the scheduling mode.
    pub fn set_mode(&mut self, mode: SchedulingMode)
        ensures
            *final(self) == (DynamicConfig {
                current: ConfigSnapshot { mode, ..old(self).current },
                edpf: false,
                ..*old(self)
            }),
    {
        self.current.mode = mode;
        self.edpf = false;
    }

    /// Has links chosen by predicted arrival, until a mode is set.
    pub fn set_edpf(&mut self)
        ensures
            *final(self) == (DynamicConfig { edpf: true, ..*old(self) }),
    {
        self.edpf = true;
    }

    /// Switches quality scoring.
    pub fn set_quality_enabled(&mut self, enabled: bool)
        ensures
            *final(self) == (DynamicConfig {
                current: ConfigSnapshot { quality_enabled: enabled, ..old(self).current },
                ..*old(self)
            }),
    {
        self.current.quality_enabled = enabled;
    }

    /// Switches exploration.
    pub fn set_exploration_enabled(&mut self, enabled: bool)
        ensures
            *final(self) == (DynamicConfig {
                current: ConfigSnapshot { exploration_enabled: enabled, ..old(self).current },
                ..*old(self)
            }),
    {
        self.current.exploration_enabled = enabled;
    }

    /// Changes the distance at which a link still counts as fast.
    pub fn set_rtt_delta_ms(&mut self, delta_ms: u32)
        ensures
            *final(self) == (DynamicConfig {
                current: ConfigSnapshot { rtt_delta_ms: delta_ms, ..old(self).current },
                ..*old(self)
            }),
    {
        self.current.rtt_delta_ms = delta_ms;
    }

    /// Switches the guard against stalled links.
    pub fn set_stall_deselect(&mut self, enabled: bool)
        ensures
            *final(self) == (DynamicConfig {
                current: ConfigSnapshot { stall_deselect: enabled, ..old(self).current },
                ..*old(self)
            }),
    {
        self.current.stall_deselect = enabled;
    }

    /// The settings after a hint that the next `count` packets are critical.
    pub open spec fn hinted(&self, count: u32) -> Self {
        DynamicConfig {
            critical_hint_remaining: if self.critical_hint_remaining + count <= u32::MAX {
                (self.critical_hint_remaining + count) as u32
            } else {
                u32::MAX
            },
            critical_hints_total: if self.critical_hints_total < u64::MAX {
                (self.critical_hints_total + 1) as u64
            } else {
                u64::MAX
            },
            ..*self
        }
    }

    /// Takes in a hint that the next `count` packets are critical. Hints add up.
    pub fn add_critical_hint(&mut self, count: u32)
        ensures
            *final(self) == old(self).hinted(count),
    {
        self.critical_hint_remaining = self.critical_hint_remaining.saturating_add(count);
        self.critical_hints_total = self.critical_hints_total.saturating_add(1);
    }

    /// Packets that are still to be treated as critical.
    pub fn critical_hint_remaining(&self) -> (n: u32)
        ensures
            n == self.critical_hint_remaining,
    {
        self.critical_hint_remaining
    }

    /// Hints received so far.
    pub fn critical_hints_total(&self) -> (n: u64)
        ensures
            n == self.critical_hints_total,
    {
        self.critical_hints_total
    }
}

impl Default for DynamicConfig {
    fn default() -> (config: Self)
        ensures
            config.current == ConfigSnapshot::spec_default(),
            !config.edpf,
            config.critical_hint_remaining == 0,
            config.critical_hints_total == 0,
    {
        Self::new()
    }
}

/// Hints add up, each counts as one, and they change no setting: two are as one for all
/// their packets.
pub proof fn hints_add_up(config: DynamicConfig, first: u32, second: u32)
    requires
        config.critical_hint_remaining + first + second <= u32::MAX,
        config.critical_hints_total <= u64::MAX - 2,
    ensures
        ({
            let after = config.hinted(first).hinted(second);
            &&& after.critical_hint_remaining == config.critical_hint_remaining + first + second
            &&& after.critical_hints_total == config.critical_hints_total + 2
            &&& after.current == config.current
            &&& after.edpf == config.edpf
        }),
{
}

/// The settings before anyone changed them: enhanced mode with quality, without
/// exploration, and with the guard against links that have 32 packets in flight and proved
/// no delivery for three seconds.
pub proof fn defaults_are_guarded_and_enhanced()
    ensures
        ({
            let c = ConfigSnapshot::spec_default();
            &&& c.mode is Enhanced
            &&& c.quality_enabled
            &&& !c.exploration_enabled
            &&& c.rtt_delta_ms == 30
            &&& c.stall_deselect
            &&& c.stall_min_in_flight == 32
            &&& c.stall_ack_stale_ms == 3000
        }),
{
}

} // verus!
