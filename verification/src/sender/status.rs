//! The periodic report on all links.

use crate::connection::link::SrtlaConnection;
use crate::protocol::constants::PKT_LOG_SIZE;
use crate::sender::housekeeping::{HOUSEKEEPING_INTERVAL_MS, STATUS_LOG_INTERVAL_MS};
use crate::sender::packet_handler::all_wf;
use crate::text::{
    decimal_digits, decimal_roundtrip, number_of, signed_decimal, signed_digits,
};
use vstd::prelude::*;

verus! {

/// The link that carried the last packet.
#[derive(Debug, Clone, Copy, PartialEq, Eq, Structural)]
pub enum LastSelected {
    Nothing,
    Link(usize),
    /// There is no link at this place any more.
    OutOfBounds(usize),
}

/// What there is to worry about.
#[derive(Debug, Clone, Copy, PartialEq, Eq, Structural)]
pub enum StatusWarning {
    Nothing,
    /// No link is alive.
    NoActiveLinks,
    /// Less than half of the links are alive.
    FewActiveLinks,
}

/// The report.
#[derive(Debug, Clone, Copy, PartialEq, Eq, Structural)]
pub struct StatusReport {
    pub total: usize,
    /// Links that have not timed out.
    pub active: usize,
    pub timed_out: usize,
    /// Packets in flight on all links.
    pub log_entries: u128,
    /// Packets for which the logs were made.
    pub log_capacity: u128,
    pub last_selected: LastSelected,
    pub warning: StatusWarning,
}

/// Links among the first `n` that have not timed out.
pub open spec fn alive_count(conns: Seq<SrtlaConnection>, now: u64, n: nat) -> nat
    decreases n,
{
    if n == 0 {
        0
    } else {
        alive_count(conns, now, (n - 1) as nat) + if conns[n - 1].timed_out(now) {
            0nat
        } else {
            1nat
        }
    }
}

/// Packets in flight on the first `n` links.
pub open spec fn log_entries(conns: Seq<SrtlaConnection>, n: nat) -> int
    decreases n,
{
    if n == 0 {
        0
    } else {
        log_entries(conns, (n - 1) as nat) + conns[n - 1].in_flight_packets
    }
}

/// Whether `report` takes stock of all links.
pub open spec fn takes_stock(
    report: StatusReport,
    conns: Seq<SrtlaConnection>,
    last_selected_idx: Option<usize>,
    now: u64,
) -> bool {
    &&& report.total == conns.len()
    &&& report.active == alive_count(conns, now, conns.len())
    &&& report.active + report.timed_out == report.total
    &&& report.log_entries == log_entries(conns, conns.len())
    &&& report.log_capacity == conns.len() * PKT_LOG_SIZE
    &&& report.last_selected == match last_selected_idx {
        None => LastSelected::Nothing,
        Some(i) => if i < conns.len() {
            LastSelected::Link(i)
        } else {
            LastSelected::OutOfBounds(i)
        },
    }
    &&& report.warning == if report.active == 0 {
        StatusWarning::NoActiveLinks
    } else if report.active < report.total / 2 {
        StatusWarning::FewActiveLinks
    } else {
        StatusWarning::Nothing
    }
}

/// Takes stock of all links.
pub fn connection_status(
    connections: &[SrtlaConnection],
    last_selected_idx: Option<usize>,
    now: u64,
) -> (report: StatusReport)
    requires
        all_wf(connections@),
    ensures
        takes_stock(report, connections@, last_selected_idx, now),
{
    let mut active: usize = 0;
    let mut entries: u128 = 0;
    let mut i: usize = 0;
    while i < connections.len()
        invariant
            i <= connections@.len(),
            all_wf(connections@),
            active <= i,
            active == alive_count(connections@, now, i as nat),
            entries == log_entries(connections@, i as nat),
            entries <= i * 2_147_483,
        decreases connections@.len() - i,
    {
        assert(connections@[i as int].wf());
        if !connections[i].is_timed_out(now) {
            active += 1;
        }
        entries = entries + connections[i].in_flight_packets as u128;
        i += 1;
    }
    let total: usize = connections.len();
    StatusReport {
        total,
        active,
        timed_out: total - active,
        log_entries: entries,
        log_capacity: total as u128 * PKT_LOG_SIZE as u128,
        last_selected: match last_selected_idx {
            None => LastSelected::Nothing,
            Some(i) => if i < total {
                LastSelected::Link(i)
            } else {
                LastSelected::OutOfBounds(i)
            },
        },
        warning: if active == 0 {
            StatusWarning::NoActiveLinks
        } else if active < total / 2 {
            StatusWarning::FewActiveLinks
        } else {
            StatusWarning::Nothing
        },
    }
}

/// A capacity score in words.
pub open spec fn score_text(score: int) -> Seq<char> {
    if score == -1 {
        "DISCONNECTED"@
    } else if score == 0 {
        "AT_CAPACITY"@
    } else {
        signed_digits(score)
    }
}

/// A capacity score in words.
pub fn describe_score(score: i32) -> (s: String)
    ensures
        s@ == score_text(score as int),
{
    if score == -1 {
        "DISCONNECTED".to_owned()
    } else if score == 0 {
        "AT_CAPACITY".to_owned()
    } else {
        signed_decimal(score)
    }
}

/// Whether one round of housekeeping takes the time since the last report from `before`
/// to `after`, where the report is due or not.
pub open spec fn round_counted(before: u64, after: u64, due: bool) -> bool {
    let counted = if before + HOUSEKEEPING_INTERVAL_MS <= u64::MAX {
        before + HOUSEKEEPING_INTERVAL_MS
    } else {
        u64::MAX as int
    };
    &&& due == (counted >= STATUS_LOG_INTERVAL_MS)
    &&& after == if due {
        counted - STATUS_LOG_INTERVAL_MS
    } else {
        counted
    }
}

/// Counts one round of housekeeping; whether the report is due.
pub fn status_due(elapsed_ms: &mut u64) -> (due: bool)
    ensures
        round_counted(*old(elapsed_ms), *final(elapsed_ms), due),
{
    *elapsed_ms = elapsed_ms.saturating_add(HOUSEKEEPING_INTERVAL_MS);
    if *elapsed_ms >= STATUS_LOG_INTERVAL_MS {
        *elapsed_ms = *elapsed_ms - STATUS_LOG_INTERVAL_MS;
        true
    } else {
        false
    }
}

/// Rounds are a second apart and the report is due every thirtieth: with the round that
/// takes the time to 30 seconds, which then starts over.
pub proof fn report_is_due_every_thirty_seconds(before: u64, after: u64, due: bool)
    requires
        round_counted(before, after, due),
        before <= 29_000,
        before % 1000 == 0,
    ensures
        due <==> before == 29_000,
        due ==> after == 0,
        !due ==> after == before + 1000,
{
}

/// A link counts as active unless it timed out, and the packets in flight add up: one more
/// link that lives is one more active link, one that timed out is none.
pub proof fn live_links_and_packets_add_up(
    conns: Seq<SrtlaConnection>,
    more: SrtlaConnection,
    now: u64,
)
    ensures
        ({
            let all = conns.push(more);
            let n = conns.len();
            &&& more.connected && (more.last_received is None || now < more.last_received->0
                + 15_000) ==> alive_count(all, now, n + 1) == alive_count(conns, now, n) + 1
            &&& more.connected && (more.last_received matches Some(at) && now >= at + 15_000)
                ==> alive_count(all, now, n + 1) == alive_count(conns, now, n)
            &&& log_entries(all, n + 1) == log_entries(conns, n) + more.in_flight_packets
            &&& alive_count(all, now, 0) == 0
            &&& log_entries(all, 0) == 0
        }),
{
    same_links_same_counts(conns, conns.push(more), now, conns.len());
}

proof fn same_links_same_counts(
    a: Seq<SrtlaConnection>,
    b: Seq<SrtlaConnection>,
    now: u64,
    n: nat,
)
    requires
        n <= a.len(),
        n <= b.len(),
        forall|i: int| 0 <= i < n ==> #[trigger] a[i] == b[i],
    ensures
        alive_count(a, now, n) == alive_count(b, now, n),
        log_entries(a, n) == log_entries(b, n),
    decreases n,
{
    if n > 0 {
        same_links_same_counts(a, b, now, (n - 1) as nat);
        assert(a[n - 1] == b[n - 1]);
    }
}

/// The report warns exactly where no link is active, or fewer than half of them are, half
/// of an odd number being rounded down; every link is either active or timed out.
pub proof fn report_warns_of_lost_links(
    report: StatusReport,
    conns: Seq<SrtlaConnection>,
    last: usize,
    now: u64,
)
    requires
        takes_stock(report, conns, Some(last), now),
    ensures
        report.total == conns.len(),
        report.timed_out == report.total - report.active,
        report.warning is NoActiveLinks <==> report.active == 0,
        report.warning is FewActiveLinks <==> 0 < report.active && 2 * (report.active + 1)
            <= report.total,
        last < conns.len() ==> report.last_selected == LastSelected::Link(last),
        last >= conns.len() ==> report.last_selected == LastSelected::OutOfBounds(last),
{
}

/// The score of a link that is not connected is named, and so is that of one without room;
/// any other is its number.
pub proof fn scores_are_named_or_numbers(score: int)
    ensures
        score_text(-1) == "DISCONNECTED"@,
        score_text(0) == "AT_CAPACITY"@,
        score > 0 ==> score_text(score) == decimal_digits(score as nat),
        score > 0 ==> number_of(score_text(score), 10) == score,
{
    if score > 0 {
        decimal_roundtrip(score as nat);
    }
}

/// The report counts the packets in flight on all links, and 256 places for each link.
pub proof fn report_counts_what_is_in_flight(
    report: StatusReport,
    conns: Seq<SrtlaConnection>,
    now: u64,
)
    requires
        takes_stock(report, conns, None, now),
    ensures
        report.log_capacity == conns.len() * 256,
        report.log_entries == log_entries(conns, conns.len()),
        report.active == alive_count(conns, now, conns.len()),
        report.last_selected is Nothing,
{
}

} // verus!
