//! Classic selection: the link with the largest capacity score.

use crate::connection::link::SrtlaConnection;
use crate::sender::selection::rank::{best_of, first_max, first_max_facts};
use vstd::prelude::*;

verus! {

/// The score that a link has to exceed to be chosen.
pub const SCORE_FLOOR: i64 = -1;

/// Capacity scores of the links that take part: those that are neither timed out
/// nor gated.
pub open spec fn capacity_keys(conns: Seq<SrtlaConnection>, now_ms: u64) -> Seq<Option<i64>> {
    Seq::new(
        conns.len(),
        |i: int|
            if conns[i].timed_out(now_ms) || conns[i].stall_gated {
                None
            } else {
                Some(conns[i].score() as i64)
            },
    )
}

/// The first among the links with the largest capacity score. A link that is not
/// connected is never chosen.
pub fn select_connection(conns: &[SrtlaConnection], now_ms: u64) -> (idx: Option<usize>)
    ensures
        idx == first_max(capacity_keys(conns@, now_ms), SCORE_FLOOR),
        idx is Some ==> idx->0 < conns@.len(),
{
    let mut keys: Vec<Option<i64>> = Vec::new();
    let mut i: usize = 0;
    while i < conns.len()
        invariant
            i <= conns@.len(),
            keys@ == capacity_keys(conns@, now_ms).take(i as int),
        decreases conns@.len() - i,
    {
        if conns[i].is_timed_out(now_ms) || conns[i].stall_gated {
            keys.push(None);
        } else {
            keys.push(Some(conns[i].get_score() as i64));
        }
        i += 1;
        assert(keys@ =~= capacity_keys(conns@, now_ms).take(i as int));
    }
    assert(keys@ =~= capacity_keys(conns@, now_ms));
    best_of(keys.as_slice(), SCORE_FLOOR)
}

/// What is chosen is connected, neither timed out nor gated, and no link that
/// takes part has a larger capacity score.
pub proof fn chosen_link_has_most_capacity(conns: Seq<SrtlaConnection>, now_ms: u64, j: int)
    requires
        conns.len() <= usize::MAX,
        0 <= j < conns.len(),
        forall|k: int| 0 <= k < conns.len() ==> i32::MIN <= (#[trigger] conns[k]).score() <= i32::MAX,
    ensures
        match first_max(capacity_keys(conns, now_ms), SCORE_FLOOR) {
            Some(i) => {
                &&& i < conns.len()
                &&& conns[i as int].connected
                &&& !conns[i as int].timed_out(now_ms)
                &&& !conns[i as int].stall_gated
                &&& !conns[j].timed_out(now_ms) && !conns[j].stall_gated ==> conns[j].score()
                    <= conns[i as int].score()
            },
            None => conns[j].timed_out(now_ms) || conns[j].stall_gated || conns[j].score() < 0,
        },
{
    let keys = capacity_keys(conns, now_ms);
    first_max_facts(keys, SCORE_FLOOR);
    assert(keys[j] is Some ==> keys[j]->0 == conns[j].score());
}

} // verus!
