//! Weak links: those whose round-trip time exceeds the delay that most of the
//! throughput keeps, and those that carry far less than their share.

use crate::connection::link::SrtlaConnection;
use std::collections::HashMap;
use vstd::prelude::*;

verus! {

broadcast use vstd::std_specs::hash::group_hash_axioms;

/// Cap of the two tighter delay tiers.
pub const TARGET_BEST_SAFE_CAP_MS: u32 = 2500;

/// Cap of the widest delay tier.
pub const TARGET_MAX_CAP_MS: u32 = 5000;

/// Multiple of the longest round-trip time that makes the delay budget.
pub const RTT_TO_DELAY_BUDGET_MULT: u64 = 3;

/// Bounds of the delay budget.
pub const MIN_BUDGET_MS: u32 = 500;

pub const MAX_BUDGET_MS: u32 = 5000;

/// Shares of the throughput, in permille, that decide on the tier.
pub const SHARE_85_PERMILLE: u64 = 850;

pub const SHARE_50_PERMILLE: u64 = 500;

/// A link becomes weak below a quarter of its fair share, in permille.
pub const ENTER_FAIR_SHARE_NUMERATOR: u64 = 250;

/// A weak link recovers at three quarters of its fair share, in permille.
pub const LEAVE_FAIR_SHARE_NUMERATOR: u64 = 750;

/// Throughput of all links below which none is judged.
pub const MIN_TOTAL_BPS_FOR_CLASSIFICATION: u64 = 100_000;

/// Ticks in a row that a delay signal has to last.
pub const WEAK_SUSTAIN_TICKS: u32 = 2;

/// Ticks in a row of low share after which a link is tried again.
pub const PROBATION_INTERVAL_TICKS: u32 = 15;

/// Ticks for which it is then not weak.
pub const PROBATION_WINDOW_TICKS: u32 = 3;

/// Why a link is weak, or why it is not.
#[derive(Copy, Clone, Debug, Eq, PartialEq, Structural)]
pub enum WeakReason {
    /// Nothing speaks against the link.
    Healthy,
    /// Its round-trip time exceeds the chosen tier.
    HighRtt,
    /// A queue is building up on it.
    QueueBuilding,
    /// It carried nothing.
    NoTraffic,
    /// It carried too small a share.
    LowShare,
    /// Too little was sent in all to judge.
    Bypassed,
}

/// The verdict on one link.
#[derive(Clone, Copy, Debug, Eq, PartialEq, Structural)]
pub struct LinkClassification {
    pub conn_id: u64,
    pub weak: bool,
    pub reason: WeakReason,
    /// Its share of the throughput, in permille.
    pub share_permille: u32,
    /// The share that it was held against, in permille.
    pub threshold_permille: u32,
}

/// The verdicts on all links.
#[derive(Debug)]
pub struct ClassificationResult {
    /// The chosen delay tier; 0 where no link was judged.
    pub selected_delay_ms: u32,
    /// The delay budget that the tiers come from.
    pub estimated_max_delay_ms: u32,
    pub per_link: Vec<LinkClassification>,
}

/// What is known of a link at a tick: its smoothed round-trip time in whole
/// milliseconds and its send rate in whole bits per second.
#[derive(Clone, Copy, Debug, Eq, PartialEq, Structural)]
pub struct LinkSample {
    pub conn_id: u64,
    pub connected: bool,
    pub rtt_ms: u32,
    pub bitrate_bps: u64,
    pub queue_building: bool,
}

/// What is known of a connection at a tick.
pub open spec fn sample_of(conn: SrtlaConnection) -> LinkSample {
    LinkSample {
        conn_id: conn.conn_id,
        connected: conn.connected,
        rtt_ms: conn.smooth_rtt_ms,
        bitrate_bps: conn.bitrate.current_bitrate_bps,
        queue_building: conn.queue_building,
    }
}

/// What is known of all connections at a tick.
pub open spec fn samples_of(conns: Seq<SrtlaConnection>) -> Seq<LinkSample> {
    conns.map_values(|c: SrtlaConnection| sample_of(c))
}

/// What is remembered of a link from tick to tick.
#[derive(Clone, Copy, Debug, Eq, PartialEq, Structural)]
pub struct LinkHistory {
    pub was_weak: bool,
    /// Ticks in a row with a delay signal.
    pub delay_streak: u32,
    /// Ticks in a row with a low share.
    pub weak_streak: u32,
    /// Ticks for which the link is still not to be weak.
    pub probation_ticks: u32,
}

impl LinkHistory {
    /// Nothing remembered.
    pub open spec fn none() -> Self {
        LinkHistory { was_weak: false, delay_streak: 0, weak_streak: 0, probation_ticks: 0 }
    }
}

/// The larger of two numbers.
pub open spec fn larger(a: u32, b: u32) -> u32 {
    if a >= b {
        a
    } else {
        b
    }
}

/// The throughput of the connected links whose round-trip time is at most `limit`.
pub open spec fn throughput_within(links: Seq<LinkSample>, limit: u32) -> nat
    decreases links.len(),
{
    if links.len() == 0 {
        0
    } else {
        let l = links.last();
        throughput_within(links.drop_last(), limit) + if l.connected && l.rtt_ms <= limit {
            l.bitrate_bps as nat
        } else {
            0
        }
    }
}

/// The throughput of the connected links.
pub open spec fn total_throughput(links: Seq<LinkSample>) -> nat {
    throughput_within(links, u32::MAX)
}

/// The longest round-trip time of a connected link.
pub open spec fn longest_rtt(links: Seq<LinkSample>) -> u32
    decreases links.len(),
{
    if links.len() == 0 {
        0
    } else {
        let l = links.last();
        let before = longest_rtt(links.drop_last());
        if l.connected {
            larger(before, l.rtt_ms)
        } else {
            before
        }
    }
}

/// How many links are connected.
pub open spec fn connected_links(links: Seq<LinkSample>) -> nat
    decreases links.len(),
{
    if links.len() == 0 {
        0
    } else {
        connected_links(links.drop_last()) + if links.last().connected {
            1nat
        } else {
            0nat
        }
    }
}

/// The delay budget: three times the longest round-trip time, within bounds.
pub open spec fn delay_budget(longest_rtt_ms: u32) -> int {
    let raw = longest_rtt_ms * RTT_TO_DELAY_BUDGET_MULT;
    if raw < MIN_BUDGET_MS {
        MIN_BUDGET_MS as int
    } else if raw > MAX_BUDGET_MS {
        MAX_BUDGET_MS as int
    } else {
        raw
    }
}

/// `percent` of a budget, at most `cap`.
pub open spec fn tier(budget: u32, percent: int, cap: u32) -> int {
    let share = budget * percent / 100;
    if share < cap {
        share
    } else {
        cap as int
    }
}

/// The delay budget.
pub fn derive_max_delay_budget(longest_rtt_ms: u32) -> (budget: u32)
    ensures
        budget == delay_budget(longest_rtt_ms),
{
    let raw: u64 = longest_rtt_ms as u64 * RTT_TO_DELAY_BUDGET_MULT;
    if raw < MIN_BUDGET_MS as u64 {
        MIN_BUDGET_MS
    } else if raw > MAX_BUDGET_MS as u64 {
        MAX_BUDGET_MS
    } else {
        raw as u32
    }
}

fn tier_of(budget: u32, percent: u64, cap: u32) -> (ms: u32)
    requires
        percent <= 100,
    ensures
        ms == tier(budget, percent as int, cap),
{
    assert(0 <= budget * percent <= 0xffff_ffff * 100) by (nonlinear_arith)
        requires
            percent <= 100,
            budget <= 0xffff_ffff,
    ;
    let product: u64 = budget as u64 * percent;
    let share: u64 = product / 100;
    if share < cap as u64 {
        share as u32
    } else {
        cap
    }
}

/// The tightest tier: 40 % of the budget.
pub fn target_best_delay_ms(est_ms: u32) -> (ms: u32)
    ensures
        ms == tier(est_ms, 40, TARGET_BEST_SAFE_CAP_MS),
{
    tier_of(est_ms, 40, TARGET_BEST_SAFE_CAP_MS)
}

/// The middle tier: 50 % of the budget.
pub fn target_safe_delay_ms(est_ms: u32) -> (ms: u32)
    ensures
        ms == tier(est_ms, 50, TARGET_BEST_SAFE_CAP_MS),
{
    tier_of(est_ms, 50, TARGET_BEST_SAFE_CAP_MS)
}

/// The widest tier: 60 % of the budget.
pub fn target_max_delay_ms(est_ms: u32) -> (ms: u32)
    ensures
        ms == tier(est_ms, 60, TARGET_MAX_CAP_MS),
{
    tier_of(est_ms, 60, TARGET_MAX_CAP_MS)
}

/// `part` of `total`, in permille, rounded down.
pub open spec fn permille(part: nat, total: nat) -> nat {
    (part * 1000) / total
}

/// The tier that the shares of the throughput choose. The tightest that at least
/// 85 % fit in is taken; where only the widest holds that much, the tightest that
/// more than 50 % fit in; else the widest.
pub open spec fn chosen_tier(
    best_pm: nat,
    safe_pm: nat,
    max_pm: nat,
    best_delay: u32,
    safe_delay: u32,
    max_delay: u32,
) -> u32 {
    if best_pm >= SHARE_85_PERMILLE {
        best_delay
    } else if safe_pm >= SHARE_85_PERMILLE {
        safe_delay
    } else if max_pm >= SHARE_85_PERMILLE && best_pm > SHARE_50_PERMILLE {
        best_delay
    } else if max_pm >= SHARE_85_PERMILLE && safe_pm > SHARE_50_PERMILLE {
        safe_delay
    } else {
        max_delay
    }
}

fn permille_of(part: u64, total: u128) -> (pm: u128)
    requires
        total > 0,
    ensures
        pm == permille(part as nat, total as nat),
{
    part as u128 * 1000 / total
}

/// Whether `part` reaches `level` permille of `total`. The level is compared as a
/// part of `total`, rounded up, so that no product leaves its range.
fn reaches(part: u128, total: u128, level: u64) -> (r: bool)
    requires
        total > 0,
        level <= 1000,
    ensures
        r == (permille(part as nat, total as nat) >= level),
{
    let thousands: u128 = total / 1000;
    let rest: u128 = total % 1000;
    let wide: u128 = level as u128;
    assert(0 <= wide * thousands <= 1000 * thousands) by (nonlinear_arith)
        requires
            wide <= 1000,
    ;
    assert(0 <= wide * rest <= 1000 * rest) by (nonlinear_arith)
        requires
            wide <= 1000,
    ;
    let whole: u128 = wide * thousands;
    let odd: u128 = wide * rest;
    let least: u128 = whole + (odd + 999) / 1000;
    assert(level * total == 1000 * whole + odd) by (nonlinear_arith)
        requires
            total == 1000 * thousands + rest,
            whole == wide * thousands,
            odd == wide * rest,
            wide == level,
    ;
    assert((permille(part as nat, total as nat) >= level) == (part * 1000 >= level * total))
        by (nonlinear_arith)
        requires
            total > 0,
            permille(part as nat, total as nat) == (part * 1000) / (total as int),
    ;
    part >= least
}

/// The delay tier that the throughput chooses: that of all links, and that of the
/// links within each tier.
pub fn pick_tier(
    total_bps: u128,
    best_bps: u128,
    safe_bps: u128,
    max_bps: u128,
    best_delay: u32,
    safe_delay: u32,
    max_delay: u32,
) -> (delay: u32)
    requires
        total_bps > 0,
    ensures
        delay == chosen_tier(
            permille(best_bps as nat, total_bps as nat),
            permille(safe_bps as nat, total_bps as nat),
            permille(max_bps as nat, total_bps as nat),
            best_delay,
            safe_delay,
            max_delay,
        ),
{
    if reaches(best_bps, total_bps, SHARE_85_PERMILLE) {
        return best_delay;
    }
    if reaches(safe_bps, total_bps, SHARE_85_PERMILLE) {
        return safe_delay;
    }
    if reaches(max_bps, total_bps, SHARE_85_PERMILLE) {
        if reaches(best_bps, total_bps, SHARE_50_PERMILLE + 1) {
            return best_delay;
        }
        if reaches(safe_bps, total_bps, SHARE_50_PERMILLE + 1) {
            return safe_delay;
        }
    }
    max_delay
}

/// The tier chosen for the given links.
pub open spec fn tier_for(links: Seq<LinkSample>) -> u32 {
    let budget = delay_budget(longest_rtt(links)) as u32;
    let best = tier(budget, 40, TARGET_BEST_SAFE_CAP_MS) as u32;
    let safe = tier(budget, 50, TARGET_BEST_SAFE_CAP_MS) as u32;
    let most = tier(budget, 60, TARGET_MAX_CAP_MS) as u32;
    let total = total_throughput(links);
    chosen_tier(
        permille(throughput_within(links, best), total),
        permille(throughput_within(links, safe), total),
        permille(throughput_within(links, most), total),
        best,
        safe,
        most,
    )
}

/// Whether too little is sent to judge the links.
pub open spec fn bypassed(links: Seq<LinkSample>) -> bool {
    total_throughput(links) < MIN_TOTAL_BPS_FOR_CLASSIFICATION || connected_links(links) == 0
}

/// What a tick makes of one connected link: the verdict, and what is remembered.
/// `delay` is the chosen tier, `total` the throughput and `n` the number of the
/// connected links.
pub open spec fn judged(
    link: LinkSample,
    past: LinkHistory,
    delay: u32,
    total: nat,
    n: nat,
) -> (LinkClassification, LinkHistory) {
    let share = permille(link.bitrate_bps as nat, total);
    let enter = (ENTER_FAIR_SHARE_NUMERATOR as nat) / n;
    let leave = (LEAVE_FAIR_SHARE_NUMERATOR as nat) / n;
    let threshold = if past.was_weak {
        leave
    } else {
        enter
    };
    let signal = if link.rtt_ms > delay {
        Some(WeakReason::HighRtt)
    } else if link.queue_building {
        Some(WeakReason::QueueBuilding)
    } else {
        None
    };
    let delay_streak = if signal is None {
        0
    } else {
        bumped_ticks(past.delay_streak)
    };
    let verdict = if delay_streak >= WEAK_SUSTAIN_TICKS {
        (true, signal->0)
    } else if link.bitrate_bps == 0 {
        (true, WeakReason::NoTraffic)
    } else if share < threshold {
        (true, WeakReason::LowShare)
    } else {
        (false, WeakReason::Healthy)
    };
    let low = verdict.1 is LowShare || verdict.1 is NoTraffic;
    let armed = past.probation_ticks == 0 && low && bumped_ticks(past.weak_streak)
        >= PROBATION_INTERVAL_TICKS;
    let shown = if past.probation_ticks > 0 {
        (false, WeakReason::Healthy)
    } else {
        verdict
    };
    (
        LinkClassification {
            conn_id: link.conn_id,
            weak: shown.0,
            reason: shown.1,
            share_permille: share as u32,
            threshold_permille: threshold as u32,
        },
        LinkHistory {
            was_weak: shown.0,
            delay_streak,
            weak_streak: if past.probation_ticks > 0 || !low || armed {
                0
            } else {
                bumped_ticks(past.weak_streak)
            },
            probation_ticks: if past.probation_ticks > 0 {
                (past.probation_ticks - 1) as u32
            } else if armed {
                PROBATION_WINDOW_TICKS
            } else {
                0
            },
        },
    )
}

/// A count of ticks that stops at the top of its range.
pub open spec fn bumped_ticks(n: u32) -> u32 {
    if n < u32::MAX {
        (n + 1) as u32
    } else {
        u32::MAX
    }
}

/// What is remembered of a link.
pub open spec fn remembered(history: Map<u64, LinkHistory>, conn_id: u64) -> LinkHistory {
    if history.contains_key(conn_id) {
        history[conn_id]
    } else {
        LinkHistory::none()
    }
}

/// The verdict on link `i`.
pub open spec fn verdict_on(
    links: Seq<LinkSample>,
    history: Map<u64, LinkHistory>,
    i: int,
) -> LinkClassification {
    let link = links[i];
    if bypassed(links) {
        LinkClassification {
            conn_id: link.conn_id,
            weak: false,
            reason: WeakReason::Bypassed,
            share_permille: 0,
            threshold_permille: 0,
        }
    } else if !link.connected {
        LinkClassification {
            conn_id: link.conn_id,
            weak: false,
            reason: WeakReason::Healthy,
            share_permille: 0,
            threshold_permille: 0,
        }
    } else {
        judged(
            link,
            remembered(history, link.conn_id),
            tier_for(links),
            total_throughput(links),
            connected_links(links),
        ).0
    }
}

/// What is remembered after the first `n` links were judged: of the connected ones
/// alone.
pub open spec fn next_history(
    links: Seq<LinkSample>,
    history: Map<u64, LinkHistory>,
    n: nat,
) -> Map<u64, LinkHistory>
    decreases n,
{
    if n == 0 {
        Map::empty()
    } else {
        let before = next_history(links, history, (n - 1) as nat);
        let link = links[n - 1];
        if link.connected {
            before.insert(
                link.conn_id,
                judged(
                    link,
                    remembered(history, link.conn_id),
                    tier_for(links),
                    total_throughput(links),
                    connected_links(links),
                ).1,
            )
        } else {
            before
        }
    }
}

/// What is remembered after all links were judged: nothing where they were not.
pub open spec fn history_after(
    links: Seq<LinkSample>,
    history: Map<u64, LinkHistory>,
) -> Map<u64, LinkHistory> {
    if bypassed(links) {
        Map::empty()
    } else {
        next_history(links, history, links.len())
    }
}

/// What is remembered after each of several lists of links was judged in turn.
pub open spec fn history_over(
    lists: Seq<Seq<LinkSample>>,
    history: Map<u64, LinkHistory>,
) -> Map<u64, LinkHistory>
    decreases lists.len(),
{
    if lists.len() == 0 {
        history
    } else {
        history_after(lists.last(), history_over(lists.drop_last(), history))
    }
}

/// The delay tier that is reported; none where the links were not judged.
pub open spec fn selected_delay(links: Seq<LinkSample>) -> u32 {
    if bypassed(links) {
        0
    } else {
        tier_for(links)
    }
}

/// The delay budget that is reported; none where the links were not judged.
pub open spec fn estimated_delay(links: Seq<LinkSample>) -> u32 {
    if bypassed(links) {
        0
    } else {
        delay_budget(longest_rtt(links)) as u32
    }
}

proof fn throughput_grows(links: Seq<LinkSample>, n: int, limit: u32)
    requires
        0 <= n <= links.len(),
    ensures
        throughput_within(links.take(n), limit) <= throughput_within(links, limit),
        forall|k: int|
            0 <= k < links.len() && (#[trigger] links[k]).connected && links[k].rtt_ms <= limit
                ==> links[k].bitrate_bps <= throughput_within(links, limit),
    decreases links.len(),
{
    if links.len() > 0 {
        let front = links.drop_last();
        if n < links.len() {
            throughput_grows(front, n, limit);
            assert(front.take(n) =~= links.take(n));
        } else {
            throughput_grows(front, front.len() as int, limit);
            assert(links.take(n) =~= links);
        }
        assert forall|k: int|
            0 <= k < links.len() && (#[trigger] links[k]).connected && links[k].rtt_ms
                <= limit implies links[k].bitrate_bps <= throughput_within(links, limit) by {
            if k < front.len() {
                assert(front[k] == links[k]);
            }
        }
    }
}

fn throughput_of(links: &[LinkSample], limit: u32) -> (sum: u128)
    ensures
        sum == throughput_within(links@, limit),
{
    let mut sum: u128 = 0;
    let mut i: usize = 0;
    while i < links.len()
        invariant
            i <= links@.len(),
            sum == throughput_within(links@.take(i as int), limit),
            sum <= i * 0xffff_ffff_ffff_ffff,
        decreases links@.len() - i,
    {
        let ghost next = links@.take(i + 1);
        assert(next.drop_last() =~= links@.take(i as int));
        if links[i].connected && links[i].rtt_ms <= limit {
            sum = sum + links[i].bitrate_bps as u128;
        }
        i += 1;
    }
    assert(links@.take(links@.len() as int) =~= links@);
    sum
}

/// Keeps what is to be remembered of the links, by their id.
pub struct WeakLinkFilter {
    pub history: HashMap<u64, LinkHistory>,
}

impl WeakLinkFilter {
    /// Nothing remembered.
    pub fn new() -> (filter: Self)
        ensures
            filter.history@ == Map::<u64, LinkHistory>::empty(),
    {
        WeakLinkFilter { history: HashMap::new() }
    }

    fn past_of(&self, conn_id: u64) -> (past: LinkHistory)
        ensures
            past == remembered(self.history@, conn_id),
    {
        match self.history.get(&conn_id) {
            Some(past) => *past,
            None => LinkHistory {
                was_weak: false,
                delay_streak: 0,
                weak_streak: 0,
                probation_ticks: 0,
            },
        }
    }

    /// Judges every connection by what is known of it.
    pub fn classify(&mut self, conns: &[SrtlaConnection]) -> (result: ClassificationResult)
        ensures
            result.per_link@.len() == conns@.len(),
            forall|i: int|
                0 <= i < conns@.len() ==> #[trigger] result.per_link@[i] == verdict_on(
                    samples_of(conns@),
                    old(self).history@,
                    i,
                ),
            result.selected_delay_ms == selected_delay(samples_of(conns@)),
            result.estimated_max_delay_ms == estimated_delay(samples_of(conns@)),
            final(self).history@ == history_after(samples_of(conns@), old(self).history@),
    {
        let mut links: Vec<LinkSample> = Vec::new();
        let mut i: usize = 0;
        while i < conns.len()
            invariant
                i <= conns@.len(),
                links@ == samples_of(conns@).take(i as int),
            decreases conns@.len() - i,
        {
            let c = &conns[i];
            links.push(
                LinkSample {
                    conn_id: c.conn_id,
                    connected: c.connected,
                    rtt_ms: c.smooth_rtt_ms,
                    bitrate_bps: c.bitrate.current_bitrate_bps,
                    queue_building: c.queue_building,
                },
            );
            i += 1;
            assert(links@ =~= samples_of(conns@).take(i as int));
        }
        assert(links@ =~= samples_of(conns@));
        self.classify_samples(links.as_slice())
    }

    /// Judges every link. Where too little is sent in all, no link is weak and
    /// everything that was remembered is dropped. Delay speaks against a link only
    /// once it lasts; a low share does at once, but after a while the link is tried
    /// again for a few ticks, because a link that gets no traffic cannot raise its
    /// share.
    pub fn classify_samples(&mut self, links: &[LinkSample]) -> (result: ClassificationResult)
        ensures
            result.per_link@.len() == links@.len(),
            forall|i: int|
                0 <= i < links@.len() ==> #[trigger] result.per_link@[i] == verdict_on(
                    links@,
                    old(self).history@,
                    i,
                ),
            result.selected_delay_ms == selected_delay(links@),
            result.estimated_max_delay_ms == estimated_delay(links@),
            final(self).history@ == history_after(links@, old(self).history@),
    {
        let ghost past_all = self.history@;
        let mut per_link: Vec<LinkClassification> = Vec::new();
        let mut longest: u32 = 0;
        let mut n: u64 = 0;
        let mut i: usize = 0;
        while i < links.len()
            invariant
                i <= links@.len(),
                longest == longest_rtt(links@.take(i as int)),
                n == connected_links(links@.take(i as int)),
                n <= i,
            decreases links@.len() - i,
        {
            assert(links@.take(i + 1).drop_last() =~= links@.take(i as int));
            if links[i].connected {
                n += 1;
                if links[i].rtt_ms > longest {
                    longest = links[i].rtt_ms;
                }
            }
            i += 1;
        }
        assert(links@.take(links@.len() as int) =~= links@);
        let total: u128 = throughput_of(links, u32::MAX);
        if total < MIN_TOTAL_BPS_FOR_CLASSIFICATION as u128 || n == 0 {
            let mut j: usize = 0;
            while j < links.len()
                invariant
                    j <= links@.len(),
                    bypassed(links@),
                    per_link@.len() == j,
                    forall|k: int|
                        0 <= k < j ==> #[trigger] per_link@[k] == verdict_on(links@, past_all, k),
                decreases links@.len() - j,
            {
                per_link.push(
                    LinkClassification {
                        conn_id: links[j].conn_id,
                        weak: false,
                        reason: WeakReason::Bypassed,
                        share_permille: 0,
                        threshold_permille: 0,
                    },
                );
                j += 1;
            }
            self.history.clear();
            return ClassificationResult {
                selected_delay_ms: 0,
                estimated_max_delay_ms: 0,
                per_link,
            };
        }
        let budget: u32 = derive_max_delay_budget(longest);
        let best: u32 = target_best_delay_ms(budget);
        let safe: u32 = target_safe_delay_ms(budget);
        let most: u32 = target_max_delay_ms(budget);
        let best_bps: u128 = throughput_of(links, best);
        let safe_bps: u128 = throughput_of(links, safe);
        let most_bps: u128 = throughput_of(links, most);
        let delay: u32 = pick_tier(total, best_bps, safe_bps, most_bps, best, safe, most);
        assert(delay == tier_for(links@));
        let enter: u32 = (ENTER_FAIR_SHARE_NUMERATOR / n) as u32;
        let leave: u32 = (LEAVE_FAIR_SHARE_NUMERATOR / n) as u32;
        assert(enter == 250nat / (n as nat) && leave == 750nat / (n as nat)) by {
            assert(250u64 / n <= 250 && 750u64 / n <= 750) by (nonlinear_arith)
                requires
                    n >= 1,
            ;
        }
        let mut next: HashMap<u64, LinkHistory> = HashMap::new();
        let mut j: usize = 0;
        while j < links.len()
            invariant
                j <= links@.len(),
                !bypassed(links@),
                self.history@ == past_all,
                past_all == old(self).history@,
                total == total_throughput(links@),
                total > 0,
                n == connected_links(links@),
                n > 0,
                delay == tier_for(links@),
                enter == 250nat / (n as nat),
                leave == 750nat / (n as nat),
                next@ == next_history(links@, past_all, j as nat),
                per_link@.len() == j,
                forall|k: int|
                    0 <= k < j ==> #[trigger] per_link@[k] == verdict_on(links@, past_all, k),
            decreases links@.len() - j,
        {
            let link: LinkSample = links[j];
            if !link.connected {
                per_link.push(
                    LinkClassification {
                        conn_id: link.conn_id,
                        weak: false,
                        reason: WeakReason::Healthy,
                        share_permille: 0,
                        threshold_permille: 0,
                    },
                );
                j += 1;
                continue;
            }
            proof {
                throughput_grows(links@, 0, u32::MAX);
                assert(links@[j as int].bitrate_bps <= total);
            }
            let past: LinkHistory = self.past_of(link.conn_id);
            let (verdict, history) = judge(link, past, delay, total, enter, leave, n);
            next.insert(link.conn_id, history);
            per_link.push(verdict);
            j += 1;
        }
        self.history = next;
        ClassificationResult { selected_delay_ms: delay, estimated_max_delay_ms: budget, per_link }
    }
}

fn judge(
    link: LinkSample,
    past: LinkHistory,
    delay: u32,
    total: u128,
    enter: u32,
    leave: u32,
    n: u64,
) -> (r: (LinkClassification, LinkHistory))
    requires
        n > 0,
        total > 0,
        link.bitrate_bps <= total,
        enter == 250nat / (n as nat),
        leave == 750nat / (n as nat),
    ensures
        r == judged(link, past, delay, total as nat, n as nat),
{
    let share_wide: u128 = permille_of(link.bitrate_bps, total);
    assert(share_wide <= 1000) by (nonlinear_arith)
        requires
            share_wide == (link.bitrate_bps * 1000) / (total as int),
            link.bitrate_bps <= total,
            total > 0,
    ;
    let share: u32 = share_wide as u32;
    let threshold: u32 = if past.was_weak {
        leave
    } else {
        enter
    };
    let high_rtt: bool = link.rtt_ms > delay;
    let delay_streak: u32 = if high_rtt || link.queue_building {
        past.delay_streak.saturating_add(1)
    } else {
        0
    };
    let (weak, reason) = if delay_streak >= WEAK_SUSTAIN_TICKS {
        (true, if high_rtt { WeakReason::HighRtt } else { WeakReason::QueueBuilding })
    } else if link.bitrate_bps == 0 {
        (true, WeakReason::NoTraffic)
    } else if share < threshold {
        (true, WeakReason::LowShare)
    } else {
        (false, WeakReason::Healthy)
    };
    let low: bool = reason == WeakReason::LowShare || reason == WeakReason::NoTraffic;
    let mut probation: u32 = past.probation_ticks;
    let mut streak: u32 = past.weak_streak;
    let mut shown_weak: bool = weak;
    let mut shown_reason: WeakReason = reason;
    if probation > 0 {
        probation -= 1;
        streak = 0;
        shown_weak = false;
        shown_reason = WeakReason::Healthy;
    } else if low {
        streak = streak.saturating_add(1);
        if streak >= PROBATION_INTERVAL_TICKS {
            streak = 0;
            probation = PROBATION_WINDOW_TICKS;
        }
    } else {
        streak = 0;
    }
    (
        LinkClassification {
            conn_id: link.conn_id,
            weak: shown_weak,
            reason: shown_reason,
            share_permille: share,
            threshold_permille: threshold,
        },
        LinkHistory {
            was_weak: shown_weak,
            delay_streak,
            weak_streak: streak,
            probation_ticks: probation,
        },
    )
}

/// The tiers widen from best to safe to widest, and none exceeds its cap.
pub proof fn tiers_are_ordered(budget: u32)
    ensures
        0 <= tier(budget, 40, TARGET_BEST_SAFE_CAP_MS) <= tier(budget, 50, TARGET_BEST_SAFE_CAP_MS)
            <= tier(budget, 60, TARGET_MAX_CAP_MS) <= TARGET_MAX_CAP_MS,
{
}

/// Delay that shows for a single tick does not make a link weak.
pub proof fn single_delay_tick_is_forgiven(
    link: LinkSample,
    past: LinkHistory,
    delay: u32,
    total: nat,
    n: nat,
)
    requires
        past.delay_streak == 0,
    ensures
        judged(link, past, delay, total, n).0.reason !is HighRtt,
        judged(link, past, delay, total, n).0.reason !is QueueBuilding,
{
}

/// Delay that lasts makes a link weak on the second tick in a row that shows it, and
/// not before, unless the link is on probation then.
pub proof fn delay_counts_from_the_second_tick(
    first: LinkSample,
    second: LinkSample,
    past: LinkHistory,
    delays: (u32, u32),
    totals: (nat, nat),
    counts: (nat, nat),
)
    requires
        past.delay_streak == 0,
        first.rtt_ms > delays.0 || first.queue_building,
        second.rtt_ms > delays.1 || second.queue_building,
        judged(first, past, delays.0, totals.0, counts.0).1.probation_ticks == 0,
    ensures
        ({
            let (early, mid) = judged(first, past, delays.0, totals.0, counts.0);
            let late = judged(second, mid, delays.1, totals.1, counts.1).0;
            &&& early.reason !is HighRtt && early.reason !is QueueBuilding
            &&& late.weak
            &&& late.reason == if second.rtt_ms > delays.1 {
                WeakReason::HighRtt
            } else {
                WeakReason::QueueBuilding
            }
        }),
{
}

/// Where less than `MIN_TOTAL_BPS_FOR_CLASSIFICATION` is sent in all, or no link is
/// connected, no link is weak, no delay is reported, and the filter is left as a new
/// one: whatever lists come later, they are judged as if nothing had come before.
pub proof fn bypass_starts_over(
    links: Seq<LinkSample>,
    history: Map<u64, LinkHistory>,
    later: Seq<Seq<LinkSample>>,
    next: Seq<LinkSample>,
)
    requires
        total_throughput(links) < MIN_TOTAL_BPS_FOR_CLASSIFICATION || connected_links(links) == 0,
    ensures
        forall|i: int|
            0 <= i < links.len() ==> #[trigger] verdict_on(links, history, i) == (
            LinkClassification {
                conn_id: links[i].conn_id,
                weak: false,
                reason: WeakReason::Bypassed,
                share_permille: 0,
                threshold_permille: 0,
            }),
        selected_delay(links) == 0,
        estimated_delay(links) == 0,
        history_after(links, history) == Map::<u64, LinkHistory>::empty(),
        forall|i: int|
            0 <= i < next.len() ==> #[trigger] verdict_on(
                next,
                history_over(later, history_after(links, history)),
                i,
            ) == verdict_on(next, history_over(later, Map::empty()), i),
{
}

/// Weakness has hysteresis: a share that lies between the two thresholds leaves a
/// healthy link healthy and a weak one weak.
pub proof fn weakness_has_hysteresis(
    link: LinkSample,
    past: LinkHistory,
    delay: u32,
    total: nat,
    n: nat,
)
    requires
        n > 0,
        link.rtt_ms <= delay,
        !link.queue_building,
        link.bitrate_bps > 0,
        past.probation_ticks == 0,
        (ENTER_FAIR_SHARE_NUMERATOR as nat) / n <= permille(link.bitrate_bps as nat, total)
            < (LEAVE_FAIR_SHARE_NUMERATOR as nat) / n,
    ensures
        judged(link, past, delay, total, n).0.weak == past.was_weak,
{
}

/// A link on probation is not weak, whatever its share and its delay, until its
/// ticks are used up.
pub proof fn probation_keeps_a_link_in_use(
    link: LinkSample,
    past: LinkHistory,
    delay: u32,
    total: nat,
    n: nat,
)
    requires
        past.probation_ticks > 0,
    ensures
        !judged(link, past, delay, total, n).0.weak,
        judged(link, past, delay, total, n).1.probation_ticks == past.probation_ticks - 1,
{
}

/// The history of a link that is fed the same sample for `ticks` ticks.
pub open spec fn after_ticks(
    link: LinkSample,
    past: LinkHistory,
    delay: u32,
    total: nat,
    n: nat,
    ticks: nat,
) -> LinkHistory
    decreases ticks,
{
    if ticks == 0 {
        past
    } else {
        judged(link, after_ticks(link, past, delay, total, n, (ticks - 1) as nat), delay, total, n).1
    }
}

/// A link without delay that carries nothing is not left weak for ever: after
/// `PROBATION_INTERVAL_TICKS` ticks it is put on probation.
pub proof fn starved_link_gets_probation(
    link: LinkSample,
    delay: u32,
    total: nat,
    n: nat,
    ticks: nat,
)
    requires
        link.bitrate_bps == 0,
        link.rtt_ms <= delay,
        !link.queue_building,
        ticks <= PROBATION_INTERVAL_TICKS,
    ensures
        ticks < PROBATION_INTERVAL_TICKS ==> after_ticks(
            link,
            LinkHistory::none(),
            delay,
            total,
            n,
            ticks,
        ) == (LinkHistory {
            was_weak: ticks > 0,
            delay_streak: 0,
            weak_streak: ticks as u32,
            probation_ticks: 0,
        }),
        ticks == PROBATION_INTERVAL_TICKS ==> after_ticks(
            link,
            LinkHistory::none(),
            delay,
            total,
            n,
            ticks,
        ).probation_ticks == PROBATION_WINDOW_TICKS,
    decreases ticks,
{
    if ticks > 0 {
        starved_link_gets_probation(link, delay, total, n, (ticks - 1) as nat);
    }
}

/// A link that carries traffic, shows no delay and has at least three quarters of its
/// fair share is healthy, whatever is remembered of it.
pub proof fn fair_share_clears_a_link(
    link: LinkSample,
    past: LinkHistory,
    delay: u32,
    total: nat,
    n: nat,
)
    requires
        n > 0,
        total > 0,
        link.rtt_ms <= delay,
        !link.queue_building,
        link.bitrate_bps > 0,
        (link.bitrate_bps * 1000) / (total as int) >= 750int / (n as int),
    ensures
        !judged(link, past, delay, total, n).0.weak,
        judged(link, past, delay, total, n).0.reason is Healthy,
        !judged(link, past, delay, total, n).1.was_weak,
        judged(link, past, delay, total, n).1.delay_streak == 0,
        judged(link, past, delay, total, n).1.weak_streak == 0,
{
    assert(250int / (n as int) <= 750int / (n as int)) by (nonlinear_arith)
        requires
            n > 0,
    ;
}

/// A link that carries nothing, or less than a quarter of its fair share, is weak at
/// once, unless it is on probation; a link that is weak already stays so below three
/// quarters.
pub proof fn low_share_makes_a_link_weak(
    link: LinkSample,
    past: LinkHistory,
    delay: u32,
    total: nat,
    n: nat,
)
    requires
        n > 0,
        total > 0,
        past.probation_ticks == 0,
        link.bitrate_bps == 0 || (link.bitrate_bps * 1000) / (total as int) < if past.was_weak {
            750int / (n as int)
        } else {
            250int / (n as int)
        },
    ensures
        judged(link, past, delay, total, n).0.weak,
        judged(link, past, delay, total, n).0.reason !is Healthy,
        link.rtt_ms <= delay && !link.queue_building ==> judged(
            link,
            past,
            delay,
            total,
            n,
        ).0.reason == if link.bitrate_bps == 0 {
            WeakReason::NoTraffic
        } else {
            WeakReason::LowShare
        },
{
}

/// A healthy link without delay stays healthy from a quarter of its fair share on; and
/// whatever the verdict, it names the link, its share and the threshold that the
/// share was held against.
pub proof fn quarter_share_keeps_a_link_healthy(
    link: LinkSample,
    past: LinkHistory,
    delay: u32,
    total: nat,
    n: nat,
)
    requires
        n > 0,
        link.bitrate_bps <= total,
        total > 0,
    ensures
        ({
            let verdict = judged(link, past, delay, total, n).0;
            &&& verdict.conn_id == link.conn_id
            &&& verdict.share_permille == (link.bitrate_bps * 1000) / (total as int)
            &&& verdict.threshold_permille == if past.was_weak {
                750int / (n as int)
            } else {
                250int / (n as int)
            }
            &&& !past.was_weak && link.rtt_ms <= delay && !link.queue_building
                && link.bitrate_bps > 0 && (link.bitrate_bps * 1000) / (total as int) >= 250int / (
            n as int) ==> !verdict.weak && verdict.reason is Healthy
        }),
{
    assert(0 <= (link.bitrate_bps * 1000) / (total as int) <= 1000) by (nonlinear_arith)
        requires
            0 <= link.bitrate_bps <= total,
            total > 0,
    ;
    assert(0 <= 250int / (n as int) <= 250 && 0 <= 750int / (n as int) <= 750)
        by (nonlinear_arith)
        requires
            n > 0,
    ;
}

/// Delay that shows for the first time is only counted; delay that is over is
/// forgotten, and the link is judged by its share alone.
pub proof fn delay_that_is_over_is_forgotten(
    link: LinkSample,
    past: LinkHistory,
    delay: u32,
    total: nat,
    n: nat,
)
    ensures
        link.rtt_ms <= delay && !link.queue_building ==> {
            &&& judged(link, past, delay, total, n).1.delay_streak == 0
            &&& judged(link, past, delay, total, n).0.reason !is HighRtt
            &&& judged(link, past, delay, total, n).0.reason !is QueueBuilding
        },
        (link.rtt_ms > delay || link.queue_building) && past.delay_streak < u32::MAX ==> judged(
            link,
            past,
            delay,
            total,
            n,
        ).1.delay_streak == past.delay_streak + 1,
{
}

/// The tightest tier that holds 85 % of the throughput is chosen. Where only the widest
/// does, the tightest that holds more than half, in whole permille; where none does,
/// the widest.
pub proof fn tightest_tier_that_holds_the_traffic(
    total: nat,
    best_bps: nat,
    safe_bps: nat,
    max_bps: nat,
    delays: (u32, u32, u32),
)
    requires
        total > 0,
    ensures
        ({
            let chosen = chosen_tier(
                permille(best_bps, total),
                permille(safe_bps, total),
                permille(max_bps, total),
                delays.0,
                delays.1,
                delays.2,
            );
            &&& best_bps * 100 >= total * 85 ==> chosen == delays.0
            &&& best_bps * 100 < total * 85 && safe_bps * 100 >= total * 85 ==> chosen == delays.1
            &&& best_bps * 100 < total * 85 && safe_bps * 100 < total * 85 && max_bps * 100
                >= total * 85 ==> chosen == if best_bps * 1000 >= total * 501 {
                delays.0
            } else if safe_bps * 1000 >= total * 501 {
                delays.1
            } else {
                delays.2
            }
            &&& best_bps * 100 < total * 85 && safe_bps * 100 < total * 85 && max_bps * 100
                < total * 85 ==> chosen == delays.2
        }),
{
    permille_reaches(best_bps, total, 850);
    permille_reaches(best_bps, total, 501);
    permille_reaches(safe_bps, total, 850);
    permille_reaches(safe_bps, total, 501);
    permille_reaches(max_bps, total, 850);
}

proof fn permille_reaches(part: nat, total: nat, level: int)
    requires
        total > 0,
    ensures
        permille(part, total) >= level <==> part * 1000 >= total * level,
{
    assert((part * 1000) / total >= level <==> part * 1000 >= total * level) by (nonlinear_arith)
        requires
            total > 0,
    ;
}

/// The delay budget is three times the longest round-trip time, from half a second to
/// five seconds; the tiers are 40, 50 and 60 % of it, and the two tighter ones are at
/// most two and a half seconds.
pub proof fn tiers_follow_the_longest_time(longest_rtt_ms: u32)
    ensures
        ({
            let budget = delay_budget(longest_rtt_ms);
            let known = budget as u32;
            &&& longest_rtt_ms * 3 <= 500 ==> budget == 500
            &&& 500 <= longest_rtt_ms * 3 <= 5000 ==> budget == longest_rtt_ms * 3
            &&& longest_rtt_ms * 3 >= 5000 ==> budget == 5000
            &&& tier(known, 40, TARGET_BEST_SAFE_CAP_MS) == budget * 2 / 5
            &&& tier(known, 50, TARGET_BEST_SAFE_CAP_MS) == budget / 2
            &&& tier(known, 60, TARGET_MAX_CAP_MS) == budget * 3 / 5
        }),
{
}

/// The longest round-trip time is that of a connected link, and no connected link has
/// a longer one.
pub proof fn longest_time_is_the_longest(links: Seq<LinkSample>, i: int)
    requires
        0 <= i < links.len(),
        links[i].connected,
    ensures
        links[i].rtt_ms <= longest_rtt(links),
        exists|j: int|
            0 <= j < links.len() && (#[trigger] links[j]).connected && links[j].rtt_ms
                == longest_rtt(links),
        connected_links(links) > 0,
    decreases links.len(),
{
    let front = links.drop_last();
    let last = links.len() - 1;
    longest_of_none(front);
    if i < last {
        assert(front[i] == links[i]);
        longest_time_is_the_longest(front, i);
        let j = choose|j: int|
            0 <= j < front.len() && (#[trigger] front[j]).connected && front[j].rtt_ms
                == longest_rtt(front);
        assert(links[j].connected);
        if links[last].connected {
            assert(links[last].rtt_ms == longest_rtt(links) || links[j].rtt_ms == longest_rtt(
                links,
            ));
        }
    } else if exists|j: int| 0 <= j < front.len() && (#[trigger] front[j]).connected {
        let k = choose|k: int| 0 <= k < front.len() && (#[trigger] front[k]).connected;
        longest_time_is_the_longest(front, k);
        let j = choose|j: int|
            0 <= j < front.len() && (#[trigger] front[j]).connected && front[j].rtt_ms
                == longest_rtt(front);
        assert(links[j].connected);
    } else {
        assert(links[last].connected);
    }
}

proof fn longest_of_none(links: Seq<LinkSample>)
    ensures
        (forall|j: int| 0 <= j < links.len() ==> !(#[trigger] links[j]).connected) ==> longest_rtt(
            links,
        ) == 0 && connected_links(links) == 0,
    decreases links.len(),
{
    if links.len() > 0 {
        let front = links.drop_last();
        longest_of_none(front);
        if forall|j: int| 0 <= j < links.len() ==> !(#[trigger] links[j]).connected {
            assert forall|j: int| 0 <= j < front.len() implies !(#[trigger] front[j]).connected by {
                assert(!links[j].connected);
            }
            assert(!links[links.len() - 1].connected);
        }
    }
}

/// One link more adds its throughput to the sum where it is connected and fast enough,
/// and counts where it is connected; which link comes last does not matter.
pub proof fn throughput_adds_up(links: Seq<LinkSample>, more: LinkSample, limit: u32)
    ensures
        throughput_within(links.push(more), limit) == throughput_within(links, limit) + if
        more.connected && more.rtt_ms <= limit {
            more.bitrate_bps as nat
        } else {
            0
        },
        connected_links(links.push(more)) == connected_links(links) + if more.connected {
            1nat
        } else {
            0nat
        },
        throughput_within(Seq::empty(), limit) == 0,
        connected_links(Seq::empty()) == 0,
{
    assert(links.push(more).drop_last() =~= links);
}

/// What is remembered of a connected link is what its own verdict left, where no other
/// link has its id; what was remembered of others is gone.
pub proof fn history_is_kept_by_id(
    links: Seq<LinkSample>,
    history: Map<u64, LinkHistory>,
    i: int,
    k: nat,
)
    requires
        0 <= i < k <= links.len(),
        forall|j: int|
            0 <= j < links.len() && j != i ==> (#[trigger] links[j]).conn_id != links[i].conn_id,
    ensures
        next_history(links, history, k).contains_key(links[i].conn_id) <==> links[i].connected,
        links[i].connected ==> next_history(links, history, k)[links[i].conn_id] == judged(
            links[i],
            remembered(history, links[i].conn_id),
            tier_for(links),
            total_throughput(links),
            connected_links(links),
        ).1,
    decreases k,
{
    if i < k - 1 {
        history_is_kept_by_id(links, history, i, (k - 1) as nat);
        assert(links[k - 1].conn_id != links[i].conn_id);
    } else {
        others_leave_no_trace(links, history, i, (k - 1) as nat);
    }
}

proof fn others_leave_no_trace(
    links: Seq<LinkSample>,
    history: Map<u64, LinkHistory>,
    i: int,
    k: nat,
)
    requires
        0 <= i < links.len(),
        k <= i,
        forall|j: int|
            0 <= j < links.len() && j != i ==> (#[trigger] links[j]).conn_id != links[i].conn_id,
    ensures
        !next_history(links, history, k).contains_key(links[i].conn_id),
    decreases k,
{
    if k > 0 {
        others_leave_no_trace(links, history, i, (k - 1) as nat);
        assert(links[k - 1].conn_id != links[i].conn_id);
    }
}

/// The tier for given links, by their figures alone: of three times the longest round-trip
/// time, from half a second to five, it is 40 % where the links that fast carry 85 % of the
/// traffic, else 50 % where those do, else whichever of the two first carries more than
/// half, as long as 60 % hold 85 %; else 60 %.
pub proof fn tier_holds_the_traffic(links: Seq<LinkSample>, budget: u32)
    requires
        total_throughput(links) > 0,
        500 <= budget <= 5000,
        budget == longest_rtt(links) * 3 || (budget == 500 && longest_rtt(links) * 3 <= 500) || (
        budget == 5000 && longest_rtt(links) * 3 >= 5000),
    ensures
        ({
            let total = total_throughput(links);
            let best = (budget * 2 / 5) as u32;
            let safe = (budget / 2) as u32;
            let most = (budget * 3 / 5) as u32;
            let in_best = throughput_within(links, best);
            let in_safe = throughput_within(links, safe);
            let in_most = throughput_within(links, most);
            let chosen = tier_for(links);
            &&& in_best * 100 >= total * 85 ==> chosen == best
            &&& in_best * 100 < total * 85 && in_safe * 100 >= total * 85 ==> chosen == safe
            &&& in_best * 100 < total * 85 && in_safe * 100 < total * 85 && in_most * 100 >= total
                * 85 ==> chosen == if in_best * 1000 >= total * 501 {
                best
            } else if in_safe * 1000 >= total * 501 {
                safe
            } else {
                most
            }
            &&& in_best * 100 < total * 85 && in_safe * 100 < total * 85 && in_most * 100 < total
                * 85 ==> chosen == most
        }),
{
    tiers_follow_the_longest_time(longest_rtt(links));
    let best = (budget * 2 / 5) as u32;
    let safe = (budget / 2) as u32;
    let most = (budget * 3 / 5) as u32;
    tightest_tier_that_holds_the_traffic(
        total_throughput(links),
        throughput_within(links, best),
        throughput_within(links, safe),
        throughput_within(links, most),
        (best, safe, most),
    );
}

/// A tick without delay but with too small a share, or with no traffic, brings the link
/// nearer to probation: the fifteenth in a row gives it three ticks of grace. A tick with
/// enough share, or with delay that lasts, starts the count over, and in grace none is
/// counted.
pub proof fn low_ticks_lead_to_probation(
    link: LinkSample,
    past: LinkHistory,
    delay: u32,
    total: nat,
    n: nat,
)
    requires
        n > 0,
        total > 0,
        past.weak_streak < 15,
    ensures
        ({
            let (verdict, next) = judged(link, past, delay, total, n);
            let low = link.bitrate_bps == 0 || (link.bitrate_bps * 1000) / (total as int) < if
                past.was_weak {
                750int / (n as int)
            } else {
                250int / (n as int)
            };
            let delayed = link.rtt_ms > delay || link.queue_building;
            &&& past.probation_ticks == 0 && low && !delayed && past.weak_streak < 14
                ==> next.weak_streak == past.weak_streak + 1 && next.probation_ticks == 0
                && verdict.weak
            &&& past.probation_ticks == 0 && low && !delayed && past.weak_streak == 14
                ==> next.weak_streak == 0 && next.probation_ticks == 3 && verdict.weak
            &&& past.probation_ticks == 0 && !low ==> next.weak_streak == 0 && next.probation_ticks
                == 0
            &&& past.probation_ticks == 0 && delayed && 1 <= past.delay_streak ==> verdict.weak
                && next.weak_streak == 0 && next.probation_ticks == 0
            &&& past.probation_ticks > 0 ==> next.weak_streak == 0 && next.probation_ticks
                == past.probation_ticks - 1 && !verdict.weak && !next.was_weak
            &&& next.was_weak == verdict.weak
        }),
{
}

/// Each link is judged by its own figures and what is remembered under its own id, against
/// all connected links: below 100 kbit/s in all, or where it is not connected, it is not
/// weak; else its share is its part of the whole and its threshold a quarter of the fair
/// share, three quarters where it was weak.
pub proof fn links_are_judged_by_their_own(
    links: Seq<LinkSample>,
    history: Map<u64, LinkHistory>,
    i: int,
)
    requires
        0 <= i < links.len(),
    ensures
        ({
            let verdict = verdict_on(links, history, i);
            let total = total_throughput(links);
            let n = connected_links(links);
            let known = history.contains_key(links[i].conn_id);
            let was_weak = known && history[links[i].conn_id].was_weak;
            let graced = known && history[links[i].conn_id].probation_ticks > 0;
            &&& verdict.conn_id == links[i].conn_id
            &&& total < 100_000 ==> !verdict.weak && verdict.reason is Bypassed
            &&& !links[i].connected ==> !verdict.weak
            &&& total >= 100_000 && links[i].connected ==> {
                &&& verdict.share_permille == (links[i].bitrate_bps * 1000) / (total as int)
                &&& verdict.threshold_permille == if was_weak {
                    750int / (n as int)
                } else {
                    250int / (n as int)
                }
                &&& verdict.reason !is Bypassed
                &&& links[i].bitrate_bps == 0 && !graced ==> verdict.weak
                &&& graced ==> !verdict.weak
                &&& links[i].rtt_ms <= tier_for(links) && !links[i].queue_building
                    && links[i].bitrate_bps > 0 && (links[i].bitrate_bps * 1000) / (total as int)
                    >= 750int / (n as int) ==> !verdict.weak
            }
            &&& total >= 100_000 && n > 0 ==> selected_delay(links) == tier_for(links)
                && estimated_delay(links) == delay_budget(longest_rtt(links))
        }),
{
    let total = total_throughput(links);
    let n = connected_links(links);
    if links[i].connected {
        longest_time_is_the_longest(links, i);
        throughput_grows(links, 0, u32::MAX);
        assert(links[i].bitrate_bps <= total);
        if total >= 100_000 {
            quarter_share_keeps_a_link_healthy(
                links[i],
                remembered(history, links[i].conn_id),
                tier_for(links),
                total,
                n,
            );
            if links[i].bitrate_bps > 0 && (links[i].bitrate_bps * 1000) / (total as int) >= 750int
                / (n as int) && links[i].rtt_ms <= tier_for(links) && !links[i].queue_building {
                fair_share_clears_a_link(
                    links[i],
                    remembered(history, links[i].conn_id),
                    tier_for(links),
                    total,
                    n,
                );
            }
        }
    }
}

/// The filter takes a connection for what it is.
pub proof fn samples_are_the_connections_own(conns: Seq<SrtlaConnection>, i: int)
    requires
        0 <= i < conns.len(),
    ensures
        samples_of(conns).len() == conns.len(),
        samples_of(conns)[i].conn_id == conns[i].conn_id,
        samples_of(conns)[i].connected == conns[i].connected,
        samples_of(conns)[i].rtt_ms == conns[i].smooth_rtt_ms,
        samples_of(conns)[i].bitrate_bps == conns[i].bitrate.current_bitrate_bps,
        samples_of(conns)[i].queue_building == conns[i].queue_building,
{
}

} // verus!
