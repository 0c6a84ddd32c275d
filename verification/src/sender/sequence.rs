//! Which link a sequence number went out on, for as long as a NAK may name it.

use crate::clock::{elapsed, since};
use std::collections::{HashMap, VecDeque};
use vstd::prelude::*;
use vstd::std_specs::iter::IteratorSpec;

verus! {

broadcast use vstd::std_specs::hash::group_hash_axioms;

/// Numbers that are tracked at a time.
pub const MAX_SEQUENCE_TRACKING: usize = 10_000;

/// Age beyond which an entry is not used any more.
pub const SEQUENCE_TRACKING_MAX_AGE_MS: u64 = 5000;

/// Pause between two sweeps.
pub const SEQUENCE_MAP_CLEANUP_INTERVAL_MS: u64 = 5000;

/// The link that a number went out on, and when.
#[derive(Debug, Clone, Copy, PartialEq, Eq, Structural)]
pub struct SequenceTrackingEntry {
    pub conn_id: u64,
    pub timestamp_ms: u64,
}

impl SequenceTrackingEntry {
    /// Whether the entry is too old to be used.
    pub open spec fn expired(&self, now_ms: u64) -> bool {
        since(now_ms, self.timestamp_ms) > SEQUENCE_TRACKING_MAX_AGE_MS
    }

    /// Whether the entry is too old to be used.
    pub fn is_expired(&self, current_time_ms: u64) -> (r: bool)
        ensures
            r == self.expired(current_time_ms),
    {
        elapsed(current_time_ms, self.timestamp_ms) > SEQUENCE_TRACKING_MAX_AGE_MS
    }
}

/// The entries that are not too old.
pub open spec fn fresh_entries(map: Map<u32, SequenceTrackingEntry>, now_ms: u64) -> Map<
    u32,
    SequenceTrackingEntry,
> {
    map.remove_keys(Set::new(|seq: u32| map.contains_key(seq) && map[seq].expired(now_ms)))
}

/// The entries of links that are among `ids`.
pub open spec fn entries_of(map: Map<u32, SequenceTrackingEntry>, ids: Seq<u64>) -> Map<
    u32,
    SequenceTrackingEntry,
> {
    map.remove_keys(Set::new(|seq: u32| map.contains_key(seq) && !ids.contains(map[seq].conn_id)))
}

/// The numbers of `order` that are still tracked, in order.
pub open spec fn tracked_order(order: Seq<u32>, map: Map<u32, SequenceTrackingEntry>) -> Seq<u32>
    decreases order.len(),
{
    if order.len() == 0 {
        Seq::empty()
    } else {
        let before = tracked_order(order.drop_last(), map);
        if map.contains_key(order.last()) {
            before.push(order.last())
        } else {
            before
        }
    }
}

/// Whether every tracked number has a place in the order.
pub open spec fn all_in_order(map: Map<u32, SequenceTrackingEntry>, order: Seq<u32>) -> bool {
    forall|seq: u32| #[trigger] map.contains_key(seq) ==> order.contains(seq)
}

proof fn tracked_order_contains(order: Seq<u32>, map: Map<u32, SequenceTrackingEntry>, seq: u32)
    requires
        order.contains(seq),
        map.contains_key(seq),
    ensures
        tracked_order(order, map).contains(seq),
    decreases order.len(),
{
    let before = tracked_order(order.drop_last(), map);
    if order.last() == seq {
        assert(before.push(seq)[before.len() as int] == seq);
    } else {
        let i = choose|i: int| 0 <= i < order.len() && order[i] == seq;
        assert(order.drop_last()[i] == seq);
        tracked_order_contains(order.drop_last(), map, seq);
        let j = choose|j: int| 0 <= j < before.len() && before[j] == seq;
        assert(before.push(order.last())[j] == seq);
    }
}

fn all_numbers(map: &HashMap<u32, SequenceTrackingEntry>) -> (numbers: Vec<u32>)
    ensures
        numbers@.to_set() == map@.dom(),
{
    let mut numbers: Vec<u32> = Vec::new();
    let ghost all = vstd::std_specs::hash::spec_keys_iter(map).remaining().unref();
    for seq in it: map.keys()
        invariant
            it.seq().unref() == all,
            it.seq().len() == all.len(),
            numbers@ == all.take(it.index() as int),
    {
        numbers.push(*seq);
        assert(numbers@ =~= all.take(it.index() as int + 1));
    }
    assert(all.take(all.len() as int) =~= all);
    numbers
}

fn keep_tracked(seq_order: &mut VecDeque<u32>, seq_to_conn: &HashMap<u32, SequenceTrackingEntry>)
    ensures
        final(seq_order)@ == tracked_order(old(seq_order)@, seq_to_conn@),
{
    let ghost order = seq_order@;
    let mut kept: VecDeque<u32> = VecDeque::new();
    let mut i: usize = 0;
    assert(order.take(0) =~= Seq::empty());
    while i < seq_order.len()
        invariant
            i <= order.len(),
            seq_order@ == order,
            kept@ == tracked_order(order.take(i as int), seq_to_conn@),
        decreases order.len() - i,
    {
        let seq: u32 = seq_order[i];
        assert(order.take(i + 1).drop_last() =~= order.take(i as int));
        if seq_to_conn.contains_key(&seq) {
            kept.push_back(seq);
        }
        i += 1;
    }
    assert(order.take(order.len() as int) =~= order);
    *seq_order = kept;
}

/// Sweeps out the entries that are too old, once in
/// `SEQUENCE_MAP_CLEANUP_INTERVAL_MS`; the order loses the numbers that are not
/// tracked any more.
pub fn cleanup_expired_sequence_tracking(
    seq_to_conn: &mut HashMap<u32, SequenceTrackingEntry>,
    seq_order: &mut VecDeque<u32>,
    last_cleanup_ms: &mut u64,
    now_ms: u64,
)
    ensures
        since(now_ms, *old(last_cleanup_ms)) < SEQUENCE_MAP_CLEANUP_INTERVAL_MS ==> {
            &&& final(seq_to_conn)@ == old(seq_to_conn)@
            &&& final(seq_order)@ == old(seq_order)@
            &&& *final(last_cleanup_ms) == *old(last_cleanup_ms)
        },
        since(now_ms, *old(last_cleanup_ms)) >= SEQUENCE_MAP_CLEANUP_INTERVAL_MS ==> {
            &&& final(seq_to_conn)@ == fresh_entries(old(seq_to_conn)@, now_ms)
            &&& final(seq_order)@ == tracked_order(old(seq_order)@, final(seq_to_conn)@)
            &&& *final(last_cleanup_ms) == now_ms
        },
{
    if elapsed(now_ms, *last_cleanup_ms) < SEQUENCE_MAP_CLEANUP_INTERVAL_MS {
        return;
    }
    *last_cleanup_ms = now_ms;
    let ghost before = seq_to_conn@;
    let numbers: Vec<u32> = all_numbers(seq_to_conn);
    let mut i: usize = 0;
    while i < numbers.len()
        invariant
            i <= numbers@.len(),
            numbers@.to_set() == before.dom(),
            forall|seq: u32| #[trigger]
                seq_to_conn@.contains_key(seq) <==> before.contains_key(seq) && !(before[seq].expired(
                    now_ms,
                ) && numbers@.take(i as int).contains(seq)),
            forall|seq: u32| #[trigger]
                seq_to_conn@.contains_key(seq) ==> seq_to_conn@[seq] == before[seq],
        decreases numbers@.len() - i,
    {
        let seq: u32 = numbers[i];
        let expired: bool = match seq_to_conn.get(&seq) {
            Some(entry) => entry.is_expired(now_ms),
            None => false,
        };
        let ghost mid = seq_to_conn@;
        if expired {
            seq_to_conn.remove(&seq);
        }
        proof {
            let now = numbers@.take(i as int);
            let next = numbers@.take(i + 1);
            assert forall|s: u32| next.contains(s) <==> now.contains(s) || s == seq by {
                assert(next =~= now.push(seq));
                if now.contains(s) {
                    let k = choose|k: int| 0 <= k < now.len() && now[k] == s;
                    assert(next[k] == s);
                }
                assert(next[i as int] == seq);
            }
        }
        i += 1;
    }
    proof {
        assert(numbers@.take(numbers@.len() as int) =~= numbers@);
        assert forall|seq: u32| before.contains_key(seq) implies numbers@.contains(seq) by {
            assert(numbers@.to_set().contains(seq));
        }
        assert(seq_to_conn@ =~= fresh_entries(before, now_ms));
    }
    keep_tracked(seq_order, seq_to_conn);
}

/// The numbers that went out lately and their links.
pub struct SequenceTracker {
    pub seq_to_conn: HashMap<u32, SequenceTrackingEntry>,
    /// Tracked numbers, oldest first.
    pub seq_order: VecDeque<u32>,
    pub last_cleanup_ms: u64,
}

impl SequenceTracker {
    /// What holds at all times: a tracked number has a place in the order, so that
    /// it can be evicted.
    pub open spec fn wf(&self) -> bool {
        all_in_order(self.seq_to_conn@, self.seq_order@)
    }

    /// Nothing tracked.
    pub fn new() -> (tracker: Self)
        ensures
            tracker.wf(),
            tracker.seq_to_conn@ == Map::<u32, SequenceTrackingEntry>::empty(),
            tracker.seq_order@ == Seq::<u32>::empty(),
            tracker.last_cleanup_ms == 0,
    {
        SequenceTracker {
            seq_to_conn: HashMap::new(),
            seq_order: VecDeque::new(),
            last_cleanup_ms: 0,
        }
    }

    /// Whether tracking one more number evicts the oldest.
    pub open spec fn evicts(&self) -> bool {
        self.seq_to_conn@.len() >= MAX_SEQUENCE_TRACKING && self.seq_order@.len() > 0
    }

    /// Whether `self` is `before` with one more number tracked.
    pub open spec fn has_inserted(
        &self,
        before: &Self,
        seq: u32,
        conn_id: u64,
        timestamp_ms: u64,
    ) -> bool {
        &&& self.seq_to_conn@ == (if before.evicts() {
            before.seq_to_conn@.remove(before.seq_order@[0])
        } else {
            before.seq_to_conn@
        }).insert(seq, SequenceTrackingEntry { conn_id, timestamp_ms })
        &&& self.seq_order@ == (if before.evicts() {
            before.seq_order@.skip(1)
        } else {
            before.seq_order@
        }).push(seq)
        &&& self.last_cleanup_ms == before.last_cleanup_ms
    }

    /// Tracks a number that goes out on a link. Where the tracker is full, the
    /// oldest number is evicted first.
    pub fn insert(&mut self, seq: u32, conn_id: u64, timestamp_ms: u64)
        ensures
            final(self).has_inserted(old(self), seq, conn_id, timestamp_ms),
            old(self).wf() ==> final(self).wf(),
    {
        let ghost before = self.seq_order@;
        if self.seq_to_conn.len() >= MAX_SEQUENCE_TRACKING {
            if let Some(oldest) = self.seq_order.pop_front() {
                assert(self.seq_order@ =~= before.skip(1));
                self.seq_to_conn.remove(&oldest);
            }
        }
        let ghost rest = self.seq_order@;
        self.seq_to_conn.insert(seq, SequenceTrackingEntry { conn_id, timestamp_ms });
        self.seq_order.push_back(seq);
        proof {
            if old(self).wf() {
                assert forall|s: u32| #[trigger] self.seq_to_conn@.contains_key(s) implies
                    self.seq_order@.contains(s) by {
                    if s == seq {
                        assert(self.seq_order@[rest.len() as int] == seq);
                    } else {
                        assert(old(self).seq_to_conn@.contains_key(s));
                        let k = choose|k: int| 0 <= k < before.len() && before[k] == s;
                        if old(self).evicts() {
                            assert(before[0] != s);
                            assert(self.seq_order@[k - 1] == s);
                        } else {
                            assert(self.seq_order@[k] == s);
                        }
                    }
                }
            }
        }
    }

    /// The link that a number went out on, where that is known and not too long
    /// ago.
    pub open spec fn link_of(&self, seq: u32, now_ms: u64) -> Option<u64> {
        if self.seq_to_conn@.contains_key(seq) && !self.seq_to_conn@[seq].expired(now_ms) {
            Some(self.seq_to_conn@[seq].conn_id)
        } else {
            None
        }
    }

    /// The link that a number went out on, where that is known and not too long
    /// ago.
    pub fn get(&self, seq: u32, now_ms: u64) -> (conn_id: Option<u64>)
        ensures
            conn_id == self.link_of(seq, now_ms),
    {
        match self.seq_to_conn.get(&seq) {
            Some(entry) => if entry.is_expired(now_ms) {
                None
            } else {
                Some(entry.conn_id)
            },
            None => None,
        }
    }

    /// Whether what is tracked is `before` after a sweep at `now_ms`, where one was
    /// due.
    pub open spec fn is_swept(&self, before: &Self, now_ms: u64) -> bool {
        if since(now_ms, before.last_cleanup_ms) < SEQUENCE_MAP_CLEANUP_INTERVAL_MS {
            &&& self.seq_to_conn@ == before.seq_to_conn@
            &&& self.seq_order@ == before.seq_order@
            &&& self.last_cleanup_ms == before.last_cleanup_ms
        } else {
            &&& self.seq_to_conn@ == fresh_entries(before.seq_to_conn@, now_ms)
            &&& self.seq_order@ == tracked_order(before.seq_order@, self.seq_to_conn@)
            &&& self.last_cleanup_ms == now_ms
        }
    }

    /// Sweeps out the entries that are too old, where a sweep is due.
    pub fn cleanup(&mut self, now_ms: u64)
        ensures
            final(self).is_swept(old(self), now_ms),
            old(self).wf() ==> final(self).wf(),
    {
        cleanup_expired_sequence_tracking(
            &mut self.seq_to_conn,
            &mut self.seq_order,
            &mut self.last_cleanup_ms,
            now_ms,
        );
        proof {
            if old(self).wf() && since(now_ms, old(self).last_cleanup_ms)
                >= SEQUENCE_MAP_CLEANUP_INTERVAL_MS {
                assert forall|s: u32| #[trigger] self.seq_to_conn@.contains_key(s) implies
                    self.seq_order@.contains(s) by {
                    assert(old(self).seq_to_conn@.contains_key(s));
                    tracked_order_contains(old(self).seq_order@, self.seq_to_conn@, s);
                }
            }
        }
    }

    /// Forgets what went out on links that are not among `conn_ids`.
    pub fn retain_connections(&mut self, conn_ids: &[u64])
        ensures
            final(self).seq_to_conn@ == entries_of(old(self).seq_to_conn@, conn_ids@),
            final(self).seq_order@ == tracked_order(
                old(self).seq_order@,
                final(self).seq_to_conn@,
            ),
            final(self).last_cleanup_ms == old(self).last_cleanup_ms,
            old(self).wf() ==> final(self).wf(),
    {
        let ghost before = self.seq_to_conn@;
        let ghost order = self.seq_order@;
        let numbers: Vec<u32> = all_numbers(&self.seq_to_conn);
        let mut i: usize = 0;
        while i < numbers.len()
            invariant
                i <= numbers@.len(),
                numbers@.to_set() == before.dom(),
                self.seq_order@ == order,
                self.last_cleanup_ms == old(self).last_cleanup_ms,
                forall|seq: u32| #[trigger]
                    self.seq_to_conn@.contains_key(seq) <==> before.contains_key(seq) && !(
                    !conn_ids@.contains(before[seq].conn_id) && numbers@.take(i as int).contains(
                        seq,
                    )),
                forall|seq: u32| #[trigger]
                    self.seq_to_conn@.contains_key(seq) ==> self.seq_to_conn@[seq] == before[seq],
            decreases numbers@.len() - i,
        {
            let seq: u32 = numbers[i];
            let gone: bool = match self.seq_to_conn.get(&seq) {
                Some(entry) => !lists(conn_ids, entry.conn_id),
                None => false,
            };
            if gone {
                self.seq_to_conn.remove(&seq);
            }
            proof {
                let now = numbers@.take(i as int);
                let next = numbers@.take(i + 1);
                assert forall|s: u32| next.contains(s) <==> now.contains(s) || s == seq by {
                    assert(next =~= now.push(seq));
                    if now.contains(s) {
                        let k = choose|k: int| 0 <= k < now.len() && now[k] == s;
                        assert(next[k] == s);
                    }
                    assert(next[i as int] == seq);
                }
            }
            i += 1;
        }
        proof {
            assert(numbers@.take(numbers@.len() as int) =~= numbers@);
            assert forall|seq: u32| before.contains_key(seq) implies numbers@.contains(seq) by {
                assert(numbers@.to_set().contains(seq));
            }
            assert(self.seq_to_conn@ =~= entries_of(before, conn_ids@));
        }
        keep_tracked(&mut self.seq_order, &self.seq_to_conn);
        proof {
            if old(self).wf() {
                assert forall|s: u32| #[trigger] self.seq_to_conn@.contains_key(s) implies
                    self.seq_order@.contains(s) by {
                    assert(old(self).seq_to_conn@.contains_key(s));
                    tracked_order_contains(order, self.seq_to_conn@, s);
                }
            }
        }
    }
}

fn lists(ids: &[u64], id: u64) -> (r: bool)
    ensures
        r == ids@.contains(id),
{
    let mut i: usize = 0;
    while i < ids.len()
        invariant
            i <= ids@.len(),
            forall|k: int| 0 <= k < i ==> #[trigger] ids@[k] != id,
        decreases ids@.len() - i,
    {
        if ids[i] == id {
            assert(ids@[i as int] == id);
            return true;
        }
        i += 1;
    }
    false
}

impl Default for SequenceTracker {
    fn default() -> (tracker: Self)
        ensures
            tracker.wf(),
            tracker.seq_to_conn@ == Map::<u32, SequenceTrackingEntry>::empty(),
            tracker.seq_order@ == Seq::<u32>::empty(),
            tracker.last_cleanup_ms == 0,
    {
        Self::new()
    }
}

/// A number that went out is traced to its link for five seconds, and no longer. Others
/// are traced as before, but for the oldest where 10000 are tracked already.
pub proof fn number_is_traced_to_its_link(
    before: SequenceTracker,
    after: SequenceTracker,
    seq: u32,
    conn_id: u64,
    sent_ms: u64,
    other: u32,
    now_ms: u64,
)
    requires
        after.has_inserted(&before, seq, conn_id, sent_ms),
        other != seq,
    ensures
        after.link_of(seq, now_ms) == if now_ms <= sent_ms + 5000 {
            Some(conn_id)
        } else {
            None
        },
        before.seq_to_conn@.len() < 10_000 ==> after.link_of(other, now_ms) == before.link_of(
            other,
            now_ms,
        ),
        before.seq_order@.len() > 0 && other != before.seq_order@[0] ==> after.link_of(
            other,
            now_ms,
        ) == before.link_of(other, now_ms),
        before.seq_to_conn@.len() >= 10_000 && before.seq_order@.len() > 0
            && before.seq_order@[0] != seq ==> after.link_of(before.seq_order@[0], now_ms) is None,
        after.seq_order@.len() > 0 && after.seq_order@.last() == seq,
{
}

/// A sweep, five seconds after the last, drops exactly what is older than five seconds:
/// what can be traced stays, and the order loses no number that is still tracked.
pub proof fn sweep_drops_what_is_old(
    before: SequenceTracker,
    after: SequenceTracker,
    seq: u32,
    now_ms: u64,
)
    requires
        after.is_swept(&before, now_ms),
    ensures
        after.link_of(seq, now_ms) == before.link_of(seq, now_ms),
        now_ms >= before.last_cleanup_ms + 5000 ==> {
            &&& after.seq_to_conn@.contains_key(seq) <==> before.seq_to_conn@.contains_key(seq)
                && now_ms <= before.seq_to_conn@[seq].timestamp_ms + 5000
            &&& after.last_cleanup_ms == now_ms
        },
        before.last_cleanup_ms <= now_ms < before.last_cleanup_ms + 5000 ==> {
            &&& after.seq_to_conn@ == before.seq_to_conn@
            &&& after.seq_order@ == before.seq_order@
        },
{
}

/// The order keeps exactly the numbers that are tracked.
pub proof fn order_keeps_what_is_tracked(
    order: Seq<u32>,
    map: Map<u32, SequenceTrackingEntry>,
    seq: u32,
)
    ensures
        tracked_order(order, map).contains(seq) <==> order.contains(seq) && map.contains_key(seq),
        tracked_order(order, map).len() <= order.len(),
    decreases order.len(),
{
    if order.len() > 0 {
        let front = order.drop_last();
        order_keeps_what_is_tracked(front, map, seq);
        let before = tracked_order(front, map);
        let all = tracked_order(order, map);
        if order.contains(seq) && map.contains_key(seq) {
            tracked_order_contains(order, map, seq);
        }
        if all.contains(seq) {
            let k = choose|k: int| 0 <= k < all.len() && all[k] == seq;
            if k < before.len() {
                assert(before[k] == seq);
                let j = choose|j: int| 0 <= j < front.len() && front[j] == seq;
                assert(order[j] == seq);
            } else {
                assert(order[order.len() - 1] == seq);
            }
        }
    }
}

/// What went out on a link that is still listed can be traced as before; what went out
/// on any other cannot.
pub proof fn removed_links_are_forgotten(
    map: Map<u32, SequenceTrackingEntry>,
    ids: Seq<u64>,
    seq: u32,
)
    ensures
        entries_of(map, ids).contains_key(seq) <==> map.contains_key(seq) && ids.contains(
            map[seq].conn_id,
        ),
        entries_of(map, ids).contains_key(seq) ==> entries_of(map, ids)[seq] == map[seq],
{
}

/// Tracking a number leaves the time of the last sweep, and the order as it was but for its
/// end, and its front where the oldest of 10000 is dropped. A sweep leaves in the order
/// exactly what is still tracked.
pub proof fn order_follows_the_tracking(
    before: SequenceTracker,
    inserted: SequenceTracker,
    swept: SequenceTracker,
    seq: u32,
    conn_id: u64,
    sent_ms: u64,
    now_ms: u64,
    other: u32,
)
    requires
        inserted.has_inserted(&before, seq, conn_id, sent_ms),
        swept.is_swept(&before, now_ms),
    ensures
        inserted.last_cleanup_ms == before.last_cleanup_ms,
        before.seq_to_conn@.len() < 10_000 || before.seq_order@.len() == 0
            ==> inserted.seq_order@ == before.seq_order@.push(seq),
        before.seq_to_conn@.len() >= 10_000 && before.seq_order@.len() > 0
            ==> inserted.seq_order@ == before.seq_order@.skip(1).push(seq),
        now_ms >= before.last_cleanup_ms + 5000 ==> (swept.seq_order@.contains(other)
            <==> before.seq_order@.contains(other) && swept.seq_to_conn@.contains_key(other)),
        before.last_cleanup_ms <= now_ms < before.last_cleanup_ms + 5000 ==> swept.last_cleanup_ms
            == before.last_cleanup_ms,
{
    order_keeps_what_is_tracked(before.seq_order@, swept.seq_to_conn@, other);
}

} // verus!
