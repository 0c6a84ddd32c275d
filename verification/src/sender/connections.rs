//! Adding and removing links as the list of local addresses changes.

use crate::connection::link::SrtlaConnection;
use crate::sender::sequence::{
    entries_of, order_keeps_what_is_tracked, removed_links_are_forgotten, tracked_order,
    SequenceTracker,
};
use crate::text::{decimal, decimal_digits, same_text};
use vstd::prelude::*;
use vstd::string::StringExecFns;

verus! {

/// A new list of local addresses that waits to be applied.
pub struct PendingConnectionChanges {
    pub new_ips: Option<Vec<String>>,
    pub receiver_host: String,
    pub receiver_port: u16,
}

/// The label of the link from a local address to the receiver.
pub open spec fn label_of(host: Seq<char>, port: u16, ip: Seq<char>) -> Seq<char> {
    host + ":"@ + decimal_digits(port as nat) + " via "@ + ip
}

/// The label of the link from a local address to the receiver.
pub fn uplink_label(receiver_host: &str, receiver_port: u16, ip: &str) -> (label: String)
    ensures
        label@ == label_of(receiver_host@, receiver_port, ip@),
{
    let mut label: String = receiver_host.to_owned();
    label.append(":");
    label.append(decimal(receiver_port as u64).as_str());
    label.append(" via ");
    label.append(ip);
    label
}

/// The labels of the links that the list asks for.
pub open spec fn desired_labels(host: Seq<char>, port: u16, ips: Seq<String>) -> Seq<Seq<char>> {
    ips.map_values(|ip: String| label_of(host, port, ip@))
}

/// The labels of links.
pub open spec fn labels(conns: Seq<SrtlaConnection>) -> Seq<Seq<char>> {
    conns.map_values(|c: SrtlaConnection| c.label@)
}

/// The ids of links.
pub open spec fn ids(conns: Seq<SrtlaConnection>) -> Seq<u64> {
    conns.map_values(|c: SrtlaConnection| c.conn_id)
}

/// The links whose labels are asked for, in order.
pub open spec fn kept(conns: Seq<SrtlaConnection>, wanted: Seq<Seq<char>>) -> Seq<SrtlaConnection>
    decreases conns.len(),
{
    if conns.len() == 0 {
        Seq::empty()
    } else {
        let before = kept(conns.drop_last(), wanted);
        if wanted.contains(conns.last().label@) {
            before.push(conns.last())
        } else {
            before
        }
    }
}

/// The ids of the links whose labels are not asked for, in order.
pub open spec fn removed_ids(conns: Seq<SrtlaConnection>, wanted: Seq<Seq<char>>) -> Seq<u64>
    decreases conns.len(),
{
    if conns.len() == 0 {
        Seq::empty()
    } else {
        let before = removed_ids(conns.drop_last(), wanted);
        if wanted.contains(conns.last().label@) {
            before
        } else {
            before.push(conns.last().conn_id)
        }
    }
}

/// The places of the first `n` wanted labels for which a link is to be added: no
/// link had the label, and it does not occur earlier in the list.
pub open spec fn missing(wanted: Seq<Seq<char>>, present: Seq<Seq<char>>, n: nat) -> Seq<usize>
    decreases n,
{
    if n == 0 {
        Seq::empty()
    } else {
        let before = missing(wanted, present, (n - 1) as nat);
        if present.contains(wanted[n - 1]) || wanted.take(n - 1).contains(wanted[n - 1]) {
            before
        } else {
            before.push((n - 1) as usize)
        }
    }
}

/// What a change of the list asks for.
pub struct ConnectionChanges {
    /// Ids of the links that were removed.
    pub removed: Vec<u64>,
    /// Places in the list of the addresses for which a link is to be added.
    pub needed: Vec<usize>,
}

fn contains_label(wanted: &Vec<String>, n: usize, label: &str) -> (r: bool)
    requires
        n <= wanted@.len(),
    ensures
        r == texts(wanted@).take(n as int).contains(label@),
{
    let ghost all = texts(wanted@).take(n as int);
    let mut i: usize = 0;
    while i < n
        invariant
            i <= n <= wanted@.len(),
            all == texts(wanted@).take(n as int),
            forall|k: int| 0 <= k < i ==> #[trigger] all[k] != label@,
        decreases n - i,
    {
        if same_text(wanted[i].as_str(), label) {
            assert(all[i as int] == label@);
            return true;
        }
        assert(all[i as int] == wanted@[i as int]@);
        i += 1;
    }
    false
}

/// The contents of a list of texts.
pub open spec fn texts(list: Seq<String>) -> Seq<Seq<char>> {
    list.map_values(|s: String| s@)
}

fn all_labels(receiver_host: &str, receiver_port: u16, ips: &[String]) -> (list: Vec<String>)
    ensures
        texts(list@) == desired_labels(receiver_host@, receiver_port, ips@),
{
    let mut list: Vec<String> = Vec::new();
    let mut i: usize = 0;
    while i < ips.len()
        invariant
            i <= ips@.len(),
            list@.len() == i,
            forall|k: int|
                0 <= k < i ==> (#[trigger] list@[k])@ == label_of(
                    receiver_host@,
                    receiver_port,
                    ips@[k]@,
                ),
        decreases ips@.len() - i,
    {
        list.push(uplink_label(receiver_host, receiver_port, ips[i].as_str()));
        i += 1;
    }
    assert(texts(list@) =~= desired_labels(receiver_host@, receiver_port, ips@));
    list
}

fn present_labels(connections: &Vec<SrtlaConnection>) -> (list: Vec<String>)
    ensures
        texts(list@) == labels(connections@),
{
    let mut list: Vec<String> = Vec::new();
    let mut i: usize = 0;
    while i < connections.len()
        invariant
            i <= connections@.len(),
            list@.len() == i,
            forall|k: int| 0 <= k < i ==> (#[trigger] list@[k])@ == connections@[k].label@,
        decreases connections@.len() - i,
    {
        list.push(connections[i].label.as_str().to_owned());
        i += 1;
    }
    assert(texts(list@) =~= labels(connections@));
    list
}

fn present_ids(connections: &Vec<SrtlaConnection>) -> (list: Vec<u64>)
    ensures
        list@ == ids(connections@),
{
    let mut list: Vec<u64> = Vec::new();
    let mut i: usize = 0;
    while i < connections.len()
        invariant
            i <= connections@.len(),
            list@.len() == i,
            forall|k: int| 0 <= k < i ==> #[trigger] list@[k] == connections@[k].conn_id,
        decreases connections@.len() - i,
    {
        list.push(connections[i].conn_id);
        i += 1;
    }
    assert(list@ =~= ids(connections@));
    list
}

/// Whether a new list of local addresses takes the links from `before` to `after`
/// and what is tracked from `tracker` to `next`, with the given changes.
pub open spec fn changes_applied(
    before: Seq<SrtlaConnection>,
    after: Seq<SrtlaConnection>,
    tracker: SequenceTracker,
    next: SequenceTracker,
    wanted: Seq<Seq<char>>,
    changes: ConnectionChanges,
) -> bool {
    &&& after == kept(before, wanted)
    &&& changes.removed@ == removed_ids(before, wanted)
    &&& changes.needed@ == missing(wanted, labels(before), wanted.len())
    &&& changes.removed@.len() == 0 ==> next == tracker
    &&& changes.removed@.len() > 0 ==> {
        &&& next.seq_to_conn@ == entries_of(tracker.seq_to_conn@, ids(after))
        &&& next.seq_order@ == tracked_order(tracker.seq_order@, next.seq_to_conn@)
        &&& next.last_cleanup_ms == tracker.last_cleanup_ms
    }
}

/// Applies a new list of local addresses: links that it does not ask for are
/// removed, and with them the choice of the last link and what is tracked of the
/// numbers that went out on them. The addresses for which a link has to be added
/// are returned.
pub fn apply_connection_changes(
    connections: &mut Vec<SrtlaConnection>,
    new_ips: &[String],
    receiver_host: &str,
    receiver_port: u16,
    last_selected_idx: &mut Option<usize>,
    seq_tracker: &mut SequenceTracker,
) -> (changes: ConnectionChanges)
    ensures
        changes_applied(
            old(connections)@,
            final(connections)@,
            *old(seq_tracker),
            *final(seq_tracker),
            desired_labels(receiver_host@, receiver_port, new_ips@),
            changes,
        ),
        *final(last_selected_idx) == if changes.removed@.len() > 0 {
            None
        } else {
            *old(last_selected_idx)
        },
        old(seq_tracker).wf() ==> final(seq_tracker).wf(),
{
    let wanted: Vec<String> = all_labels(receiver_host, receiver_port, new_ips);
    let present: Vec<String> = present_labels(connections);
    let ghost w = texts(wanted@);
    let ghost before = connections@;
    assert(w.take(w.len() as int) =~= w);
    let mut removed: Vec<u64> = Vec::new();
    let mut left: Vec<SrtlaConnection> = Vec::new();
    left.append(connections);
    assert(left@ =~= before);
    let mut rest: Vec<SrtlaConnection> = Vec::new();
    let mut done: Ghost<int> = Ghost(0);
    assert(before.take(0) =~= Seq::empty());
    assert(before.skip(0) =~= before);
    while left.len() > 0
        invariant
            0 <= done@ <= before.len(),
            left@ == before.skip(done@),
            w == texts(wanted@),
            w.take(w.len() as int) == w,
            rest@ == kept(before.take(done@), w),
            removed@ == removed_ids(before.take(done@), w),
        decreases left@.len(),
    {
        let conn: SrtlaConnection = left.remove(0);
        proof {
            assert(conn == before[done@]);
            assert(before.take(done@ + 1).drop_last() =~= before.take(done@));
            assert(before.take(done@ + 1).last() == conn);
            assert(left@ =~= before.skip(done@ + 1));
            done@ = done@ + 1;
        }
        if contains_label(&wanted, wanted.len(), conn.label.as_str()) {
            rest.push(conn);
        } else {
            removed.push(conn.conn_id);
        }
    }
    assert(before.take(before.len() as int) =~= before);
    *connections = rest;
    if removed.len() > 0 {
        *last_selected_idx = None;
        let valid: Vec<u64> = present_ids(connections);
        seq_tracker.retain_connections(valid.as_slice());
    }
    let mut needed: Vec<usize> = Vec::new();
    let mut i: usize = 0;
    let ghost p = texts(present@);
    assert(p.take(p.len() as int) =~= p);
    while i < wanted.len()
        invariant
            i <= wanted@.len(),
            w == texts(wanted@),
            p == texts(present@),
            p.take(p.len() as int) == p,
            needed@ == missing(w, p, i as nat),
        decreases wanted@.len() - i,
    {
        assert(w[i as int] == wanted@[i as int]@);
        if !contains_label(&present, present.len(), wanted[i].as_str()) && !contains_label(
            &wanted,
            i,
            wanted[i].as_str(),
        ) {
            needed.push(i);
        }
        i += 1;
    }
    ConnectionChanges { removed, needed }
}

/// Applying the list that the links were made from changes nothing.
pub proof fn same_list_changes_nothing(conns: Seq<SrtlaConnection>, wanted: Seq<Seq<char>>)
    requires
        labels(conns) == wanted,
    ensures
        kept(conns, wanted) == conns,
        removed_ids(conns, wanted) == Seq::<u64>::empty(),
        missing(wanted, labels(conns), wanted.len()) == Seq::<usize>::empty(),
{
    assert forall|i: int| 0 <= i < conns.len() implies wanted.contains(
        (#[trigger] conns[i]).label@,
    ) by {
        assert(wanted[i] == conns[i].label@);
    }
    all_kept(conns, wanted);
    none_missing(wanted, labels(conns), wanted.len());
}

proof fn all_kept(conns: Seq<SrtlaConnection>, wanted: Seq<Seq<char>>)
    requires
        forall|i: int| 0 <= i < conns.len() ==> wanted.contains((#[trigger] conns[i]).label@),
    ensures
        kept(conns, wanted) == conns,
        removed_ids(conns, wanted) == Seq::<u64>::empty(),
    decreases conns.len(),
{
    if conns.len() > 0 {
        assert forall|i: int| 0 <= i < conns.len() - 1 implies wanted.contains(
            (#[trigger] conns.drop_last()[i]).label@,
        ) by {
            assert(conns[i] == conns.drop_last()[i]);
        }
        all_kept(conns.drop_last(), wanted);
        assert(wanted.contains(conns[conns.len() - 1].label@));
        assert(conns.drop_last().push(conns.last()) =~= conns);
    } else {
        assert(conns =~= Seq::empty());
    }
}

proof fn none_missing(wanted: Seq<Seq<char>>, present: Seq<Seq<char>>, n: nat)
    requires
        n <= wanted.len(),
        forall|i: int| 0 <= i < wanted.len() ==> present.contains(#[trigger] wanted[i]),
    ensures
        missing(wanted, present, n) == Seq::<usize>::empty(),
    decreases n,
{
    if n > 0 {
        none_missing(wanted, present, (n - 1) as nat);
        assert(present.contains(wanted[n - 1]));
    }
}

/// A link stays exactly where its label is asked for, and is named as removed exactly where
/// it is not; the others keep their order.
pub proof fn links_stay_where_they_are_wanted(
    conns: Seq<SrtlaConnection>,
    wanted: Seq<Seq<char>>,
    c: SrtlaConnection,
    id: u64,
)
    ensures
        kept(conns, wanted).contains(c) <==> conns.contains(c) && wanted.contains(c.label@),
        removed_ids(conns, wanted).contains(id) <==> exists|i: int|
            0 <= i < conns.len() && (#[trigger] conns[i]).conn_id == id && !wanted.contains(
                conns[i].label@,
            ),
        kept(conns, wanted).len() + removed_ids(conns, wanted).len() == conns.len(),
    decreases conns.len(),
{
    if conns.len() > 0 {
        let front = conns.drop_last();
        let last = conns.last();
        links_stay_where_they_are_wanted(front, wanted, c, id);
        assert(conns =~= front.push(last));
        push_contains(front, last, c);
        push_contains(kept(front, wanted), last, c);
        push_contains(removed_ids(front, wanted), last.conn_id, id);
        if exists|i: int|
            0 <= i < front.len() && (#[trigger] front[i]).conn_id == id && !wanted.contains(
                front[i].label@,
            ) {
            let i = choose|i: int|
                0 <= i < front.len() && (#[trigger] front[i]).conn_id == id && !wanted.contains(
                    front[i].label@,
                );
            assert(conns[i].conn_id == id);
        }
        if exists|i: int|
            0 <= i < conns.len() && (#[trigger] conns[i]).conn_id == id && !wanted.contains(
                conns[i].label@,
            ) {
            let i = choose|i: int|
                0 <= i < conns.len() && (#[trigger] conns[i]).conn_id == id && !wanted.contains(
                    conns[i].label@,
                );
            if i < front.len() {
                assert(front[i].conn_id == id);
            }
        }
        if last.conn_id == id {
            assert(conns[conns.len() - 1].conn_id == id);
        }
    }
}

proof fn push_contains<T>(s: Seq<T>, last: T, x: T)
    ensures
        s.push(last).contains(x) <==> s.contains(x) || x == last,
{
    if s.contains(x) {
        let k = choose|k: int| 0 <= k < s.len() && s[k] == x;
        assert(s.push(last)[k] == x);
    }
    assert(s.push(last)[s.len() as int] == last);
    if s.push(last).contains(x) && x != last {
        let k = choose|k: int| 0 <= k < s.push(last).len() && s.push(last)[k] == x;
        assert(s[k] == x);
    }
}

/// A link is to be added for an address exactly where no link has its label and no earlier
/// address of the list has the same.
pub proof fn missing_links_are_added_once(
    wanted: Seq<Seq<char>>,
    present: Seq<Seq<char>>,
    n: nat,
    i: usize,
)
    requires
        n <= wanted.len() <= usize::MAX,
    ensures
        missing(wanted, present, n).contains(i) <==> i < n && !present.contains(wanted[i as int])
            && forall|j: int| 0 <= j < i ==> #[trigger] wanted[j] != wanted[i as int],
    decreases n,
{
    if n > 0 {
        let front = missing(wanted, present, (n - 1) as nat);
        missing_links_are_added_once(wanted, present, (n - 1) as nat, i);
        push_contains(front, (n - 1) as usize, i);
        let earlier = wanted.take(n - 1);
        if earlier.contains(wanted[n - 1]) {
            let k = choose|k: int| 0 <= k < earlier.len() && earlier[k] == wanted[n - 1];
            assert(wanted[k] == wanted[n - 1]);
        } else {
            assert forall|j: int| 0 <= j < n - 1 implies #[trigger] wanted[j] != wanted[n - 1] by {
                assert(earlier[j] == wanted[j]);
            }
        }
    }
}

/// A change of the list leaves exactly the links that it asks for, and asks for a new one
/// for every label that no link had, once. Where no link is removed, what is tracked stays.
pub proof fn list_decides_which_links_stay(
    before: Seq<SrtlaConnection>,
    after: Seq<SrtlaConnection>,
    tracker: SequenceTracker,
    next: SequenceTracker,
    wanted: Seq<Seq<char>>,
    changes: ConnectionChanges,
    c: SrtlaConnection,
    i: usize,
)
    requires
        changes_applied(before, after, tracker, next, wanted, changes),
        wanted.len() <= usize::MAX,
    ensures
        after.contains(c) <==> before.contains(c) && wanted.contains(c.label@),
        changes.needed@.contains(i) <==> i < wanted.len() && !labels(before).contains(
            wanted[i as int],
        ) && forall|j: int| 0 <= j < i ==> #[trigger] wanted[j] != wanted[i as int],
        changes.removed@.len() == 0 ==> next == tracker && after.len() == before.len(),
        changes.removed@.len() > 0 ==> after.len() < before.len(),
{
    links_stay_where_they_are_wanted(before, wanted, c, 0);
    missing_links_are_added_once(wanted, labels(before), wanted.len(), i);
}

/// Once links are removed, a number is tracked exactly where it was and its link stays; the
/// order holds the numbers that are.
pub proof fn numbers_of_removed_links_are_untracked(
    before: Seq<SrtlaConnection>,
    after: Seq<SrtlaConnection>,
    tracker: SequenceTracker,
    next: SequenceTracker,
    wanted: Seq<Seq<char>>,
    changes: ConnectionChanges,
    seq: u32,
)
    requires
        changes_applied(before, after, tracker, next, wanted, changes),
        changes.removed@.len() > 0,
    ensures
        next.seq_to_conn@.contains_key(seq) <==> tracker.seq_to_conn@.contains_key(seq) && exists|
            i: int,
        |
            0 <= i < after.len() && (#[trigger] after[i]).conn_id == tracker.seq_to_conn@[seq].conn_id,
        next.seq_to_conn@.contains_key(seq) ==> next.seq_to_conn@[seq] == tracker.seq_to_conn@[seq],
        next.seq_order@.contains(seq) <==> tracker.seq_order@.contains(seq)
            && next.seq_to_conn@.contains_key(seq),
        next.last_cleanup_ms == tracker.last_cleanup_ms,
{
    removed_links_are_forgotten(tracker.seq_to_conn@, ids(after), seq);
    order_keeps_what_is_tracked(tracker.seq_order@, next.seq_to_conn@, seq);
    if tracker.seq_to_conn@.contains_key(seq) {
        let id = tracker.seq_to_conn@[seq].conn_id;
        if ids(after).contains(id) {
            let i = choose|i: int| 0 <= i < ids(after).len() && ids(after)[i] == id;
            assert(after[i].conn_id == id);
        }
        if exists|i: int| 0 <= i < after.len() && (#[trigger] after[i]).conn_id == id {
            let i = choose|i: int| 0 <= i < after.len() && (#[trigger] after[i]).conn_id == id;
            assert(ids(after)[i] == id);
        }
    }
}

} // verus!
