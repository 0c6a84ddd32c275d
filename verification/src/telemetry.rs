//! The document that tells a reader of the stats file about the uplinks: one line
//! of JSON, `{"schema_version":1,"last_updated_ms":..,"connections":[..]}`.

use crate::stats::{LinkStats, StatsSnapshot};
use crate::text::{decimal, decimal_digits, joined, signed_decimal, signed_digits};
use vstd::prelude::*;
use vstd::string::StringExecFns;

verus! {

/// Version of the document's schema.
pub const TELEMETRY_SCHEMA_VERSION: u32 = 1;

/// Figures of one uplink. The send rate is in bytes per second; the document
/// gives it in bits.
#[derive(Clone, Copy, Debug, PartialEq, Eq, Structural)]
pub struct TelemetryConn {
    pub conn_id: u32,
    pub rtt_ms: u32,
    pub nak_count: u32,
    pub weight_percent: u8,
    pub window: i32,
    pub in_flight: i32,
    pub bitrate_bytes_per_sec: u32,
}

/// The record of one uplink as the document shows it: the id is text, and the
/// send rate is in bits per second.
pub struct ConnRecord {
    pub conn_id: String,
    pub rtt_ms: u32,
    pub nak_count: u32,
    pub weight_percent: u8,
    pub window: i32,
    pub in_flight: i32,
    pub bitrate_bps: u64,
}

impl ConnRecord {
    /// The record of an uplink.
    pub fn from(c: &TelemetryConn) -> (record: Self)
        ensures
            record.conn_id@ == decimal_digits(c.conn_id as nat),
            record.rtt_ms == c.rtt_ms,
            record.nak_count == c.nak_count,
            record.weight_percent == c.weight_percent,
            record.window == c.window,
            record.in_flight == c.in_flight,
            record.bitrate_bps == c.bitrate_bytes_per_sec * 8,
    {
        ConnRecord {
            conn_id: decimal(c.conn_id as u64),
            rtt_ms: c.rtt_ms,
            nak_count: c.nak_count,
            weight_percent: c.weight_percent,
            window: c.window,
            in_flight: c.in_flight,
            bitrate_bps: c.bitrate_bytes_per_sec as u64 * 8,
        }
    }
}

/// The text of an uplink's record.
pub open spec fn record_text(c: TelemetryConn) -> Seq<char> {
    "{\"conn_id\":\""@ + decimal_digits(c.conn_id as nat) + "\",\"rtt_ms\":"@ + decimal_digits(
        c.rtt_ms as nat,
    ) + ",\"nak_count\":"@ + decimal_digits(c.nak_count as nat) + ",\"weight_percent\":"@
        + decimal_digits(c.weight_percent as nat) + ",\"window\":"@ + signed_digits(c.window as int)
        + ",\"in_flight\":"@ + signed_digits(c.in_flight as int) + ",\"bitrate_bps\":"@
        + decimal_digits((c.bitrate_bytes_per_sec * 8) as nat) + "}"@
}

/// The records, separated by commas.
pub open spec fn records_text(conns: Seq<TelemetryConn>) -> Seq<char>
    decreases conns.len(),
{
    if conns.len() == 0 {
        Seq::empty()
    } else if conns.len() == 1 {
        record_text(conns[0])
    } else {
        records_text(conns.drop_last()) + ","@ + record_text(conns.last())
    }
}

/// The document.
pub open spec fn document_text(last_updated_ms: u64, conns: Seq<TelemetryConn>) -> Seq<char> {
    "{\"schema_version\":"@ + decimal_digits(TELEMETRY_SCHEMA_VERSION as nat)
        + ",\"last_updated_ms\":"@ + decimal_digits(last_updated_ms as nat) + ",\"connections\":["@
        + records_text(conns) + "]}"@
}

fn append_record(out: &mut String, c: &TelemetryConn)
    ensures
        final(out)@ == old(out)@ + record_text(*c),
{
    let record = ConnRecord::from(c);
    let mut s: String = joined("{\"conn_id\":\"", record.conn_id.as_str());
    s.append("\",\"rtt_ms\":");
    s.append(decimal(record.rtt_ms as u64).as_str());
    s.append(",\"nak_count\":");
    s.append(decimal(record.nak_count as u64).as_str());
    s.append(",\"weight_percent\":");
    s.append(decimal(record.weight_percent as u64).as_str());
    s.append(",\"window\":");
    s.append(signed_decimal(record.window).as_str());
    s.append(",\"in_flight\":");
    s.append(signed_decimal(record.in_flight).as_str());
    s.append(",\"bitrate_bps\":");
    s.append(decimal(record.bitrate_bps).as_str());
    s.append("}");
    out.append(s.as_str());
}

/// Builds the document.
pub fn build_telemetry_json(last_updated_ms: u64, conns: &[TelemetryConn]) -> (json: String)
    ensures
        json@ == document_text(last_updated_ms, conns@),
{
    let mut records: String = String::new();
    let mut i: usize = 0;
    assert(conns@.take(0) =~= Seq::empty());
    while i < conns.len()
        invariant
            i <= conns@.len(),
            records@ == records_text(conns@.take(i as int)),
        decreases conns@.len() - i,
    {
        let ghost next = conns@.take(i + 1);
        assert(next.drop_last() =~= conns@.take(i as int));
        assert(next.last() == conns@[i as int]);
        if i > 0 {
            records.append(",");
        }
        let ghost front = records@;
        append_record(&mut records, &conns[i]);
        proof {
            if i == 0 {
                assert(front =~= Seq::empty());
                assert(records@ =~= record_text(next[0]));
            }
        }
        i += 1;
    }
    assert(conns@.take(conns@.len() as int) =~= conns@);
    let mut json: String = joined(
        "{\"schema_version\":",
        decimal(TELEMETRY_SCHEMA_VERSION as u64).as_str(),
    );
    json.append(",\"last_updated_ms\":");
    json.append(decimal(last_updated_ms).as_str());
    json.append(",\"connections\":[");
    json.append(records.as_str());
    json.append("]}");
    json
}

/// An equal share for each of `active` links, in percent.
pub open spec fn equal_share(active: int) -> int {
    if active == 0 {
        0int
    } else {
        100int / active
    }
}

/// An equal share for each of `active` links, in percent.
pub fn equal_share_percent(active: usize) -> (share: u8)
    ensures
        share == equal_share(active as int),
{
    if active == 0 {
        return 0;
    }
    let share: usize = 100 / active;
    assert(share <= 100) by (nonlinear_arith)
        requires
            share == 100usize / active,
            active >= 1,
    ;
    share as u8
}

/// Whether a link of the figures is active.
pub open spec fn link_active(l: LinkStats) -> bool {
    l.connected && !l.timed_out
}

/// Active links among the first `n` of the figures.
pub open spec fn active_links(links: Seq<LinkStats>, n: nat) -> nat
    decreases n,
{
    if n == 0 {
        0
    } else {
        active_links(links, (n - 1) as nat) + if link_active(links[n - 1]) {
            1nat
        } else {
            0nat
        }
    }
}

/// Whether an active link among the first `n` has any capacity.
pub open spec fn any_capacity(links: Seq<LinkStats>, n: int) -> bool {
    exists|i: int| 0 <= i < n && link_active(#[trigger] links[i]) && links[i].base_score > 0
}

/// The share of a link, in percent: nothing where it is not active; its part of the
/// selection weight, at most all of it, where there is any; an equal part of the
/// active links else, and always where none of them has any capacity.
pub open spec fn share_of(links: Seq<LinkStats>, shares: Option<Seq<u8>>, i: int) -> int {
    if !link_active(links[i]) {
        0
    } else if shares is Some && any_capacity(links, links.len() as int) {
        if shares->0[i] <= 100 {
            shares->0[i] as int
        } else {
            100
        }
    } else {
        100int / active_links(links, links.len()) as int
    }
}

/// The figures of link `i` for the document.
pub open spec fn conn_of(links: Seq<LinkStats>, shares: Option<Seq<u8>>, i: int) -> TelemetryConn {
    TelemetryConn {
        conn_id: i as u32,
        rtt_ms: links[i].rtt_ms,
        nak_count: if links[i].nak_count > 0 {
            links[i].nak_count as u32
        } else {
            0
        },
        weight_percent: share_of(links, shares, i) as u8,
        window: links[i].window,
        in_flight: links[i].in_flight,
        bitrate_bytes_per_sec: links[i].bitrate_bps,
    }
}

/// Figures of all uplinks for the document, by their place in the address list.
/// `shares` holds each link's part of the selection weight in percent, where some
/// link has any weight.
pub fn conns_from_stats(stats: &StatsSnapshot, shares: Option<&[u8]>) -> (conns: Vec<TelemetryConn>)
    requires
        shares is Some ==> shares->0@.len() == stats.links@.len(),
    ensures
        conns@.len() == stats.links@.len(),
        forall|i: int|
            0 <= i < conns@.len() ==> #[trigger] conns@[i] == conn_of(
                stats.links@,
                match shares {
                    Some(list) => Some(list@),
                    None => None,
                },
                i,
            ),
{
    let ghost links = stats.links@;
    let mut active: usize = 0;
    let mut scored: bool = false;
    let mut i: usize = 0;
    while i < stats.links.len()
        invariant
            i <= links.len(),
            links == stats.links@,
            active <= i,
            active == active_links(links, i as nat),
            scored == any_capacity(links, i as int),
        decreases links.len() - i,
    {
        if stats.links[i].connected && !stats.links[i].timed_out {
            active += 1;
            if stats.links[i].base_score > 0 {
                assert(link_active(links[i as int]));
                scored = true;
            }
        }
        i += 1;
    }
    let equal: u8 = equal_share_percent(active);
    let mut conns: Vec<TelemetryConn> = Vec::new();
    let mut i: usize = 0;
    while i < stats.links.len()
        invariant
            i <= links.len(),
            links == stats.links@,
            shares is Some ==> shares->0@.len() == links.len(),
            active == active_links(links, links.len()),
            scored == any_capacity(links, links.len() as int),
            equal == if active == 0 {
                0int
            } else {
                100int / active as int
            },
            conns@.len() == i,
            forall|j: int|
                0 <= j < i ==> #[trigger] conns@[j] == conn_of(
                    links,
                    match shares {
                        Some(list) => Some(list@),
                        None => None,
                    },
                    j,
                ),
        decreases links.len() - i,
    {
        let l = &stats.links[i];
        proof {
            if link_active(links[i as int]) {
                some_active(links, i as int, links.len());
            }
        }
        let weight_percent: u8 = if l.connected && !l.timed_out {
            match shares {
                Some(list) => if !scored {
                    equal
                } else if list[i] <= 100 {
                    list[i]
                } else {
                    100
                },
                None => equal,
            }
        } else {
            0
        };
        conns.push(
            TelemetryConn {
                conn_id: i as u32,
                rtt_ms: l.rtt_ms,
                nak_count: if l.nak_count > 0 {
                    l.nak_count as u32
                } else {
                    0
                },
                weight_percent,
                window: l.window,
                in_flight: l.in_flight,
                bitrate_bytes_per_sec: l.bitrate_bps,
            },
        );
        i += 1;
    }
    conns
}

/// Every weight is a percentage; a link that is not active has none; and where no
/// active link has any capacity, each of the active ones has an equal share.
pub proof fn weights_are_percentages(links: Seq<LinkStats>, shares: Option<Seq<u8>>, i: int)
    requires
        0 <= i < links.len(),
    ensures
        conn_of(links, shares, i).weight_percent <= 100,
        !link_active(links[i]) ==> conn_of(links, shares, i).weight_percent == 0,
        link_active(links[i]) && (forall|j: int|
            0 <= j < links.len() && link_active(#[trigger] links[j]) ==> links[j].base_score <= 0)
            ==> conn_of(links, shares, i).weight_percent == 100int / active_links(
            links,
            links.len(),
        ) as int,
{
    if link_active(links[i]) {
        some_active(links, i, links.len());
        let n = active_links(links, links.len());
        assert(0 <= 100int / n as int <= 100) by (nonlinear_arith)
            requires
                n >= 1,
        ;
    }
}

proof fn some_active(links: Seq<LinkStats>, i: int, n: nat)
    requires
        0 <= i < n <= links.len(),
        link_active(links[i]),
    ensures
        active_links(links, n) >= 1,
    decreases n,
{
    if i < n - 1 {
        some_active(links, i, (n - 1) as nat);
    }
}

/// The path under which a document is written before it replaces the last one.
pub fn tmp_path(path: &str) -> (tmp: String)
    ensures
        tmp@ == path@ + ".tmp"@,
{
    joined(path, ".tmp")
}

/// Where and how often documents are published.
pub struct TelemetryWriter {
    pub path: String,
    pub period_ms: u64,
}

impl TelemetryWriter {
    /// Publishes under `path`, once in `interval_ms` but not more often than once
    /// in a millisecond.
    pub fn new(path: String, interval_ms: u64) -> (writer: Self)
        ensures
            writer.path@ == path@,
            writer.period_ms == if interval_ms >= 1 {
                interval_ms
            } else {
                1
            },
    {
        TelemetryWriter {
            path,
            period_ms: if interval_ms >= 1 {
                interval_ms
            } else {
                1
            },
        }
    }

    /// Milliseconds between two documents.
    pub fn period(&self) -> (ms: u64)
        ensures
            ms == self.period_ms,
    {
        self.period_ms
    }

    /// The document for the given figures.
    pub fn document(
        &self,
        stats: &StatsSnapshot,
        shares: Option<&[u8]>,
        now_ms: u64,
    ) -> (json: String)
        requires
            shares is Some ==> shares->0@.len() == stats.links@.len(),
        ensures
            exists|conns: Seq<TelemetryConn>|
                {
                    &&& conns.len() == stats.links@.len()
                    &&& forall|i: int|
                        0 <= i < conns.len() ==> #[trigger] conns[i] == conn_of(
                            stats.links@,
                            match shares {
                                Some(list) => Some(list@),
                                None => None,
                            },
                            i,
                        )
                    &&& json@ == #[trigger] document_text(now_ms, conns)
                },
    {
        let conns: Vec<TelemetryConn> = conns_from_stats(stats, shares);
        build_telemetry_json(now_ms, conns.as_slice())
    }
}

/// Whether a text has no line break.
pub open spec fn one_line(s: Seq<char>) -> bool {
    forall|i: int| 0 <= i < s.len() ==> #[trigger] s[i] != '\n'
}

proof fn digits_have_no_break(n: nat)
    ensures
        one_line(decimal_digits(n)),
    decreases n,
{
    if n >= 10 {
        digits_have_no_break(n / 10);
    }
}

proof fn record_has_no_break(c: TelemetryConn)
    ensures
        one_line(record_text(c)),
{
    reveal_strlit("{\"conn_id\":\"");
    reveal_strlit("\",\"rtt_ms\":");
    reveal_strlit(",\"nak_count\":");
    reveal_strlit(",\"weight_percent\":");
    reveal_strlit(",\"window\":");
    reveal_strlit(",\"in_flight\":");
    reveal_strlit(",\"bitrate_bps\":");
    reveal_strlit("}");
    reveal_strlit("-");
    digits_have_no_break(c.conn_id as nat);
    digits_have_no_break(c.rtt_ms as nat);
    digits_have_no_break(c.nak_count as nat);
    digits_have_no_break(c.weight_percent as nat);
    digits_have_no_break(c.window as nat);
    digits_have_no_break((-c.window) as nat);
    digits_have_no_break(c.in_flight as nat);
    digits_have_no_break((-c.in_flight) as nat);
    digits_have_no_break((c.bitrate_bytes_per_sec * 8) as nat);
    assert(one_line(signed_digits(c.window as int)));
    assert(one_line(signed_digits(c.in_flight as int)));
    let a = "{\"conn_id\":\""@ + decimal_digits(c.conn_id as nat);
    assert(one_line(a));
    let a = a + "\",\"rtt_ms\":"@ + decimal_digits(c.rtt_ms as nat);
    assert(one_line(a));
    let a = a + ",\"nak_count\":"@ + decimal_digits(c.nak_count as nat);
    assert(one_line(a));
    let a = a + ",\"weight_percent\":"@ + decimal_digits(c.weight_percent as nat);
    assert(one_line(a));
    let a = a + ",\"window\":"@ + signed_digits(c.window as int);
    assert(one_line(a));
    let a = a + ",\"in_flight\":"@ + signed_digits(c.in_flight as int);
    assert(one_line(a));
    let a = a + ",\"bitrate_bps\":"@ + decimal_digits((c.bitrate_bytes_per_sec * 8) as nat) + "}"@;
    assert(one_line(a));
}

proof fn records_have_no_break(conns: Seq<TelemetryConn>)
    ensures
        one_line(records_text(conns)),
    decreases conns.len(),
{
    if conns.len() == 1 {
        record_has_no_break(conns[0]);
    } else if conns.len() > 1 {
        reveal_strlit(",");
        records_have_no_break(conns.drop_last());
        record_has_no_break(conns.last());
    }
}

/// The document is a single line, whatever the figures.
pub proof fn document_is_one_line(last_updated_ms: u64, conns: Seq<TelemetryConn>)
    ensures
        one_line(document_text(last_updated_ms, conns)),
{
    reveal_strlit("{\"schema_version\":");
    reveal_strlit(",\"last_updated_ms\":");
    reveal_strlit(",\"connections\":[");
    reveal_strlit("]}");
    digits_have_no_break(TELEMETRY_SCHEMA_VERSION as nat);
    digits_have_no_break(last_updated_ms as nat);
    records_have_no_break(conns);
    let a = "{\"schema_version\":"@ + decimal_digits(TELEMETRY_SCHEMA_VERSION as nat);
    assert(one_line(a));
    let a = a + ",\"last_updated_ms\":"@ + decimal_digits(last_updated_ms as nat);
    assert(one_line(a));
    let a = a + ",\"connections\":["@ + records_text(conns) + "]}"@;
    assert(one_line(a));
}

/// Equal shares come to no more than the whole, and not one percent more each would fit;
/// no link has nothing to share.
pub proof fn equal_shares_fill_the_whole(active: int)
    requires
        active > 0,
    ensures
        equal_share(active) * active <= 100 < (equal_share(active) + 1) * active,
        equal_share(0) == 0,
{
    let q = 100int / active;
    assert(q * active <= 100 < (q + 1) * active) by (nonlinear_arith)
        requires
            active > 0,
            q == 100int / active,
    ;
}

/// The weight of a link that is connected and has not timed out: its own part where weights
/// are given and some such link has capacity left, at most 100; else an equal share of all
/// such links. Its other figures are its own, and its id is its place.
pub proof fn weights_follow_the_shares(
    links: Seq<LinkStats>,
    shares: Seq<u8>,
    i: int,
    j: int,
)
    requires
        shares.len() == links.len() <= u32::MAX,
        0 <= i < links.len(),
        0 <= j < links.len(),
        links[i].connected && !links[i].timed_out,
    ensures
        links[j].connected && !links[j].timed_out && links[j].base_score > 0 && shares[i] <= 100
            ==> conn_of(links, Some(shares), i).weight_percent == shares[i],
        links[j].connected && !links[j].timed_out && links[j].base_score > 0 && shares[i] > 100
            ==> conn_of(links, Some(shares), i).weight_percent == 100,
        ({
            let w = conn_of(links, None, i).weight_percent;
            let n = active_links(links, links.len());
            w * n <= 100 < (w + 1) * n
        }),
        ({
            let c = conn_of(links, Some(shares), i);
            &&& c.conn_id == i
            &&& c.rtt_ms == links[i].rtt_ms
            &&& c.window == links[i].window
            &&& c.in_flight == links[i].in_flight
            &&& c.bitrate_bytes_per_sec == links[i].bitrate_bps
            &&& links[i].nak_count >= 0 ==> c.nak_count == links[i].nak_count
            &&& links[i].nak_count < 0 ==> c.nak_count == 0
        }),
{
    if links[j].connected && !links[j].timed_out && links[j].base_score > 0 {
        assert(link_active(links[j]));
        assert(any_capacity(links, links.len() as int));
    }
    some_active(links, i, links.len());
    let n = active_links(links, links.len()) as int;
    let q = 100int / n;
    assert(q * n <= 100 < (q + 1) * n) by (nonlinear_arith)
        requires
            n >= 1,
            q == 100int / n,
    ;
    assert(0 <= q <= 100) by (nonlinear_arith)
        requires
            n >= 1,
            q == 100int / n,
    ;
}

/// The active links are counted one by one: those that are connected and have not timed
/// out.
pub proof fn active_links_are_counted(links: Seq<LinkStats>, n: nat)
    requires
        n < links.len(),
    ensures
        active_links(links, 0) == 0,
        links[n as int].connected && !links[n as int].timed_out ==> active_links(links, n + 1)
            == active_links(links, n) + 1,
        !links[n as int].connected || links[n as int].timed_out ==> active_links(links, n + 1)
            == active_links(links, n),
{
}

} // verus!
