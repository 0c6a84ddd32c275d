//! Figures of all links for those who watch the sender from outside: values as
//! they are, and plain sums.

use crate::config::ConfigSnapshot;
use crate::connection::link::{OrderKey, SrtlaConnection, ONE_KEY};
use crate::mode::SchedulingMode;
use crate::sender::packet_handler::all_wf;
use vstd::prelude::*;

verus! {

/// Figures of one link.
pub struct LinkStats {
    /// Local address.
    pub ip: String,
    pub label: String,
    /// Whether the link is registered.
    pub connected: bool,
    pub timed_out: bool,
    pub window: i32,
    pub in_flight: i32,
    /// Smoothed round-trip time.
    pub rtt_ms: u32,
    pub nak_count: i32,
    /// Send rate in bytes per second.
    pub bitrate_bps: u32,
    /// Smallest round-trip time.
    pub rtt_min_ms: u64,
    /// Round-trip time that follows spikes quickly, as a key.
    pub fast_rtt_ms: OrderKey,
    /// Capacity score.
    pub base_score: i32,
    /// Quality multiplier that selection uses, as a key; one where quality does
    /// not count.
    pub quality_multiplier: OrderKey,
}

/// What the caller measured of one link.
pub struct LinkMeasures {
    pub ip: String,
    pub fast_rtt_ms: OrderKey,
    pub quality_multiplier: OrderKey,
}

/// Figures of all links.
pub struct StatsSnapshot {
    /// Name of the scheduling mode.
    pub mode: String,
    pub quality_enabled: bool,
    pub rtt_delta_ms: u32,
    /// Links that are connected and have not timed out.
    pub active_links: usize,
    pub total_links: usize,
    /// Sum of the windows of active links.
    pub total_window: i32,
    /// Sum of what is in flight on active links.
    pub total_in_flight: i32,
    pub links: Vec<LinkStats>,
}

impl StatsSnapshot {
    /// Whether these are the figures of a sender without links.
    pub open spec fn is_empty(&self) -> bool {
        &&& self.mode@ == SchedulingMode::Enhanced.name()
        &&& self.quality_enabled
        &&& self.rtt_delta_ms == 30
        &&& self.active_links == 0
        &&& self.total_links == 0
        &&& self.total_window == 0
        &&& self.total_in_flight == 0
        &&& self.links@ == Seq::<LinkStats>::empty()
    }
}

impl Default for StatsSnapshot {
    fn default() -> (snapshot: Self)
        ensures
            snapshot.is_empty(),
    {
        StatsSnapshot {
            mode: SchedulingMode::Enhanced.to_text(),
            quality_enabled: true,
            rtt_delta_ms: 30,
            active_links: 0,
            total_links: 0,
            total_window: 0,
            total_in_flight: 0,
            links: Vec::new(),
        }
    }
}

/// Whether a link is connected and has not timed out.
pub open spec fn is_active(conn: SrtlaConnection, now: u64) -> bool {
    conn.connected && !conn.timed_out(now)
}

/// Active links among the first `n`.
pub open spec fn active_count(conns: Seq<SrtlaConnection>, now: u64, n: nat) -> nat
    decreases n,
{
    if n == 0 {
        0
    } else {
        active_count(conns, now, (n - 1) as nat) + if is_active(conns[n - 1], now) {
            1nat
        } else {
            0nat
        }
    }
}

/// Sum of the windows of active links among the first `n`.
pub open spec fn window_sum(conns: Seq<SrtlaConnection>, now: u64, n: nat) -> int
    decreases n,
{
    if n == 0 {
        0
    } else {
        window_sum(conns, now, (n - 1) as nat) + if is_active(conns[n - 1], now) {
            conns[n - 1].window as int
        } else {
            0
        }
    }
}

/// Sum of what is in flight on active links among the first `n`.
pub open spec fn in_flight_sum(conns: Seq<SrtlaConnection>, now: u64, n: nat) -> int
    decreases n,
{
    if n == 0 {
        0
    } else {
        in_flight_sum(conns, now, (n - 1) as nat) + if is_active(conns[n - 1], now) {
            conns[n - 1].in_flight_packets as int
        } else {
            0
        }
    }
}

proof fn sums_grow(conns: Seq<SrtlaConnection>, now: u64, m: nat, n: nat)
    requires
        m <= n <= conns.len(),
        all_wf(conns),
    ensures
        0 <= window_sum(conns, now, m) <= window_sum(conns, now, n),
        0 <= in_flight_sum(conns, now, m) <= in_flight_sum(conns, now, n),
        active_count(conns, now, m) <= m,
    decreases n,
{
    if n > 0 {
        assert(conns[n - 1].wf());
        if m < n {
            sums_grow(conns, now, m, (n - 1) as nat);
        } else {
            sums_grow(conns, now, (m - 1) as nat, (n - 1) as nat);
        }
    }
}

/// Whether quality counts.
pub open spec fn quality_counts(config: ConfigSnapshot) -> bool {
    config.quality_enabled && config.mode !is Classic
}

/// The send rate of a link in bytes per second.
pub open spec fn bytes_per_second(conn: SrtlaConnection) -> u32 {
    if conn.bitrate.current_bitrate_bps / 8 <= u32::MAX {
        (conn.bitrate.current_bitrate_bps / 8) as u32
    } else {
        u32::MAX
    }
}

/// Whether `stats` are the figures of a link.
pub open spec fn describes(
    stats: LinkStats,
    conn: SrtlaConnection,
    measures: LinkMeasures,
    quality: bool,
    now: u64,
) -> bool {
    &&& stats.ip@ == measures.ip@
    &&& stats.label@ == conn.label@
    &&& stats.connected == conn.connected
    &&& stats.timed_out == conn.timed_out(now)
    &&& stats.window == conn.window
    &&& stats.in_flight == conn.in_flight_packets
    &&& stats.rtt_ms == conn.smooth_rtt_ms
    &&& stats.nak_count == conn.congestion.nak_count
    &&& stats.bitrate_bps == bytes_per_second(conn)
    &&& stats.rtt_min_ms == conn.rtt.rtt_min_ms
    &&& stats.fast_rtt_ms == measures.fast_rtt_ms
    &&& stats.base_score == conn.score()
    &&& stats.quality_multiplier == if quality {
        measures.quality_multiplier
    } else {
        ONE_KEY
    }
}

fn link_stats(
    conn: &SrtlaConnection,
    measures: &LinkMeasures,
    quality: bool,
    now: u64,
) -> (stats: LinkStats)
    ensures
        describes(stats, *conn, *measures, quality, now),
{
    let bytes: u64 = conn.bitrate.current_bitrate_bps / 8;
    LinkStats {
        ip: measures.ip.as_str().to_owned(),
        label: conn.label.as_str().to_owned(),
        connected: conn.connected,
        timed_out: conn.is_timed_out(now),
        window: conn.window,
        in_flight: conn.in_flight_packets,
        rtt_ms: conn.smooth_rtt_ms,
        nak_count: conn.total_nak_count(),
        bitrate_bps: if bytes <= u32::MAX as u64 {
            bytes as u32
        } else {
            u32::MAX
        },
        rtt_min_ms: conn.rtt.rtt_min_ms,
        fast_rtt_ms: measures.fast_rtt_ms,
        base_score: conn.get_score(),
        quality_multiplier: if quality {
            measures.quality_multiplier
        } else {
            ONE_KEY
        },
    }
}

/// The latest figures.
pub struct SharedStats {
    pub snapshot: StatsSnapshot,
}

impl SharedStats {
    /// No figures yet.
    pub fn new() -> (stats: Self)
        ensures
            stats.snapshot.is_empty(),
    {
        SharedStats { snapshot: StatsSnapshot::default() }
    }

    /// Takes the figures anew. `measures` holds what was measured of each link.
    pub fn update(
        &mut self,
        connections: &[SrtlaConnection],
        measures: &[LinkMeasures],
        config: &ConfigSnapshot,
        now: u64,
    )
        requires
            all_wf(connections@),
            measures@.len() == connections@.len(),
            window_sum(connections@, now, connections@.len()) <= i32::MAX,
            in_flight_sum(connections@, now, connections@.len()) <= i32::MAX,
        ensures
            final(self).snapshot.mode@ == config.mode.name(),
            final(self).snapshot.quality_enabled == quality_counts(*config),
            final(self).snapshot.rtt_delta_ms == config.rtt_delta_ms,
            final(self).snapshot.active_links == active_count(
                connections@,
                now,
                connections@.len(),
            ),
            final(self).snapshot.total_links == connections@.len(),
            final(self).snapshot.total_window == window_sum(
                connections@,
                now,
                connections@.len(),
            ),
            final(self).snapshot.total_in_flight == in_flight_sum(
                connections@,
                now,
                connections@.len(),
            ),
            final(self).snapshot.links@.len() == connections@.len(),
            forall|i: int|
                0 <= i < connections@.len() ==> describes(
                    #[trigger] final(self).snapshot.links@[i],
                    connections@[i],
                    measures@[i],
                    quality_counts(*config),
                    now,
                ),
    {
        let quality: bool = config.effective_quality_enabled();
        let mut active: usize = 0;
        let mut window: i32 = 0;
        let mut in_flight: i32 = 0;
        let mut links: Vec<LinkStats> = Vec::new();
        let mut i: usize = 0;
        while i < connections.len()
            invariant
                i <= connections@.len(),
                all_wf(connections@),
                measures@.len() == connections@.len(),
                window_sum(connections@, now, connections@.len()) <= i32::MAX,
                in_flight_sum(connections@, now, connections@.len()) <= i32::MAX,
                quality == quality_counts(*config),
                active <= i,
                active == active_count(connections@, now, i as nat),
                window == window_sum(connections@, now, i as nat),
                in_flight == in_flight_sum(connections@, now, i as nat),
                links@.len() == i,
                forall|j: int|
                    0 <= j < i ==> describes(
                        #[trigger] links@[j],
                        connections@[j],
                        measures@[j],
                        quality,
                        now,
                    ),
            decreases connections@.len() - i,
        {
            let conn = &connections[i];
            proof {
                sums_grow(connections@, now, (i + 1) as nat, connections@.len());
                sums_grow(connections@, now, i as nat, connections@.len());
            }
            if conn.connected && !conn.is_timed_out(now) {
                active += 1;
                window += conn.window;
                in_flight += conn.in_flight_packets;
            }
            links.push(link_stats(conn, &measures[i], quality, now));
            i += 1;
        }
        self.snapshot = StatsSnapshot {
            mode: config.mode.to_text(),
            quality_enabled: quality,
            rtt_delta_ms: config.rtt_delta_ms,
            active_links: active,
            total_links: connections.len(),
            total_window: window,
            total_in_flight: in_flight,
            links,
        };
    }

    /// The latest figures.
    pub fn get(&self) -> (snapshot: &StatsSnapshot)
        ensures
            *snapshot == self.snapshot,
    {
        &self.snapshot
    }
}

impl Default for SharedStats {
    fn default() -> (stats: Self)
        ensures
            stats.snapshot.is_empty(),
    {
        Self::new()
    }
}

/// One link more: where it is connected and heard from the receiver within 15 seconds, the
/// number of active links is one larger and the sums grow by its window and by what it has
/// in flight; where it is not connected or heard nothing for as long, they stay.
pub proof fn active_links_add_up(conns: Seq<SrtlaConnection>, more: SrtlaConnection, now: u64)
    ensures
        ({
            let all = conns.push(more);
            let n = conns.len();
            let lives = more.connected && (more.last_received is None || now
                < more.last_received->0 + 15_000);
            let lost = !more.connected || (more.last_received matches Some(at) && now >= at
                + 15_000);
            &&& lives ==> {
                &&& active_count(all, now, n + 1) == active_count(conns, now, n) + 1
                &&& window_sum(all, now, n + 1) == window_sum(conns, now, n) + more.window
                &&& in_flight_sum(all, now, n + 1) == in_flight_sum(conns, now, n)
                    + more.in_flight_packets
            }
            &&& lost ==> {
                &&& active_count(all, now, n + 1) == active_count(conns, now, n)
                &&& window_sum(all, now, n + 1) == window_sum(conns, now, n)
                &&& in_flight_sum(all, now, n + 1) == in_flight_sum(conns, now, n)
            }
            &&& active_count(all, now, 0) == 0
            &&& window_sum(all, now, 0) == 0
            &&& in_flight_sum(all, now, 0) == 0
        }),
{
    same_links_same_sums(conns, conns.push(more), now, conns.len());
}

proof fn same_links_same_sums(
    a: Seq<SrtlaConnection>,
    b: Seq<SrtlaConnection>,
    now: u64,
    n: nat,
)
    requires
        n <= a.len(),
        n <= b.len(),
        forall|i: int| 0 <= i < n ==> #[trigger] a[i] == b[i],
    ensures
        active_count(a, now, n) == active_count(b, now, n),
        window_sum(a, now, n) == window_sum(b, now, n),
        in_flight_sum(a, now, n) == in_flight_sum(b, now, n),
    decreases n,
{
    if n > 0 {
        same_links_same_sums(a, b, now, (n - 1) as nat);
        assert(a[n - 1] == b[n - 1]);
    }
}

/// The figures of a link are its own: the rate in whole bytes, and the quality measured
/// where quality counts, which it never does in classic mode.
pub proof fn figures_are_the_links_own(
    stats: LinkStats,
    conn: SrtlaConnection,
    measures: LinkMeasures,
    config: ConfigSnapshot,
    now: u64,
)
    requires
        describes(stats, conn, measures, quality_counts(config), now),
    ensures
        stats.window == conn.window,
        stats.in_flight == conn.in_flight_packets,
        stats.nak_count == conn.congestion.nak_count,
        stats.rtt_ms == conn.smooth_rtt_ms,
        stats.rtt_min_ms == conn.rtt.rtt_min_ms,
        stats.fast_rtt_ms == measures.fast_rtt_ms,
        stats.ip@ == measures.ip@ && stats.label@ == conn.label@,
        stats.connected == conn.connected,
        conn.connected && conn.last_received is Some ==> (stats.timed_out <==> now
            >= conn.last_received->0 + 15_000),
        conn.bitrate.current_bitrate_bps < 8 * u32::MAX ==> stats.bitrate_bps * 8
            <= conn.bitrate.current_bitrate_bps < (stats.bitrate_bps + 1) * 8,
        conn.bitrate.current_bitrate_bps >= 8 * u32::MAX ==> stats.bitrate_bps == u32::MAX,
        config.quality_enabled && config.mode !is Classic ==> stats.quality_multiplier
            == measures.quality_multiplier,
        !config.quality_enabled || config.mode is Classic ==> stats.quality_multiplier
            == 0x3ff0_0000_0000_0000,
        stats.base_score == conn.score(),
{
}

/// Without links there is nothing to count, and the settings are the defaults.
pub proof fn empty_figures_count_nothing(snapshot: StatsSnapshot)
    requires
        snapshot.is_empty(),
    ensures
        snapshot.links@.len() == 0,
        snapshot.total_links == 0 && snapshot.active_links == 0,
        snapshot.total_window == 0 && snapshot.total_in_flight == 0,
        snapshot.quality_enabled,
        snapshot.rtt_delta_ms == 30,
        snapshot.mode@ == "enhanced"@,
{
}

} // verus!
