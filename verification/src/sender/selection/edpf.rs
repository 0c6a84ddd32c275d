//! Earliest delivery path first: the link on which the next packet is predicted
//! to arrive first. The caller predicts; a link without a prediction takes no
//! part.

use crate::connection::link::OrderKey;
use vstd::prelude::*;

verus! {

/// The key of the largest double: a prediction at or above it is none.
pub const ARRIVAL_LIMIT_KEY: OrderKey = 0x7fef_ffff_ffff_ffff;

/// Whether link `i` has a usable prediction.
pub open spec fn arrives(arrivals: Seq<Option<OrderKey>>, i: int) -> bool {
    0 <= i < arrivals.len() && arrivals[i] is Some && arrivals[i]->0 < ARRIVAL_LIMIT_KEY
}

/// Whether the candidate at position `p` is the first among those with the
/// earliest arrival.
pub open spec fn is_earliest(
    arrivals: Seq<Option<OrderKey>>,
    indices: Seq<usize>,
    p: int,
) -> bool {
    &&& 0 <= p < indices.len()
    &&& arrives(arrivals, indices[p] as int)
    &&& forall|q: int|
        0 <= q < indices.len() && arrives(arrivals, #[trigger] indices[q] as int)
            ==> arrivals[indices[p] as int]->0 <= arrivals[indices[q] as int]->0
    &&& forall|q: int|
        0 <= q < p && arrives(arrivals, #[trigger] indices[q] as int)
            ==> arrivals[indices[p] as int]->0 < arrivals[indices[q] as int]->0
}

/// The link of the first candidate with the earliest arrival. Candidates beyond
/// the links are passed over.
pub fn select_from_indices(arrivals: &[Option<OrderKey>], indices: &[usize]) -> (idx: Option<usize>)
    ensures
        match idx {
            Some(i) => exists|p: int| #[trigger]
                is_earliest(arrivals@, indices@, p) && indices@[p] == i,
            None => forall|q: int|
                0 <= q < indices@.len() ==> !arrives(arrivals@, #[trigger] indices@[q] as int),
        },
{
    let mut best: Option<usize> = None;
    let mut best_arrival: i64 = ARRIVAL_LIMIT_KEY;
    let ghost mut pos: int = 0;
    let mut p: usize = 0;
    while p < indices.len()
        invariant
            p <= indices@.len(),
            best_arrival <= ARRIVAL_LIMIT_KEY,
            forall|q: int|
                0 <= q < p && arrives(arrivals@, #[trigger] indices@[q] as int)
                    ==> best_arrival <= arrivals@[indices@[q] as int]->0,
            match best {
                Some(b) => {
                    &&& 0 <= pos < p
                    &&& indices@[pos] == b
                    &&& arrives(arrivals@, b as int)
                    &&& arrivals@[b as int] == Some(best_arrival)
                    &&& forall|q: int|
                        0 <= q < pos && arrives(arrivals@, #[trigger] indices@[q] as int)
                            ==> best_arrival < arrivals@[indices@[q] as int]->0
                },
                None => {
                    &&& best_arrival == ARRIVAL_LIMIT_KEY
                    &&& forall|q: int|
                        0 <= q < p ==> !arrives(arrivals@, #[trigger] indices@[q] as int)
                },
            },
        decreases indices@.len() - p,
    {
        let i: usize = indices[p];
        if i < arrivals.len() {
            if let Some(arrival) = arrivals[i] {
                if arrival < best_arrival {
                    best_arrival = arrival;
                    best = Some(i);
                    proof {
                        pos = p as int;
                    }
                }
            }
        }
        p += 1;
    }
    proof {
        if best is Some {
            assert(arrivals@[indices@[pos] as int]->0 == best_arrival);
            assert(is_earliest(arrivals@, indices@, pos));
        }
    }
    best
}

/// Whether link `i` is the first among those with the earliest arrival.
pub open spec fn is_earliest_link(arrivals: Seq<Option<OrderKey>>, i: int) -> bool {
    &&& arrives(arrivals, i)
    &&& forall|j: int| #[trigger]
        arrives(arrivals, j) ==> {
            &&& arrivals[i]->0 <= arrivals[j]->0
            &&& j < i ==> arrivals[i]->0 < arrivals[j]->0
        }
}

/// The first among the links with the earliest arrival.
pub fn select_from(arrivals: &[Option<OrderKey>]) -> (idx: Option<usize>)
    ensures
        match idx {
            Some(i) => is_earliest_link(arrivals@, i as int),
            None => forall|j: int| !#[trigger] arrives(arrivals@, j),
        },
{
    let mut all: Vec<usize> = Vec::new();
    let mut i: usize = 0;
    while i < arrivals.len()
        invariant
            i <= arrivals@.len(),
            all@.len() == i,
            forall|k: int| 0 <= k < i ==> #[trigger] all@[k] == k,
        decreases arrivals@.len() - i,
    {
        all.push(i);
        i += 1;
    }
    let idx: Option<usize> = select_from_indices(arrivals, all.as_slice());
    proof {
        match idx {
            Some(i) => {
                let p = choose|p: int| #[trigger]
                    is_earliest(arrivals@, all@, p) && all@[p] == i;
                assert(all@[p] == p);
                assert forall|j: int| #[trigger] arrives(arrivals@, j) implies {
                    &&& arrivals@[i as int]->0 <= arrivals@[j]->0
                    &&& j < i ==> arrivals@[i as int]->0 < arrivals@[j]->0
                } by {
                    assert(all@[j] == j);
                }
            },
            None => {
                assert forall|j: int| !#[trigger] arrives(arrivals@, j) by {
                    if 0 <= j < arrivals@.len() {
                        assert(all@[j] == j);
                    }
                }
            },
        }
    }
    idx
}

/// The link that is chosen has a predicted arrival, no link a smaller one, and no link
/// before it the same; only one link is that.
pub proof fn earliest_link_is_the_earliest(
    arrivals: Seq<Option<OrderKey>>,
    i: int,
    j: int,
)
    requires
        is_earliest_link(arrivals, i),
        0 <= j < arrivals.len(),
        arrivals[j] is Some,
    ensures
        0 <= i < arrivals.len(),
        arrivals[i] is Some,
        arrivals[i]->0 < 0x7fef_ffff_ffff_ffff,
        arrivals[i]->0 <= arrivals[j]->0,
        j < i ==> arrivals[i]->0 < arrivals[j]->0,
        is_earliest_link(arrivals, j) ==> j == i,
{
    if arrivals[j]->0 < ARRIVAL_LIMIT_KEY {
        assert(arrives(arrivals, j));
    }
    assert(arrives(arrivals, i));
}

/// Among candidates, the one that is chosen has a predicted arrival and no candidate a
/// smaller one; a link that is not a candidate has no say.
pub proof fn earliest_candidate_is_the_earliest(
    arrivals: Seq<Option<OrderKey>>,
    indices: Seq<usize>,
    p: int,
    q: int,
)
    requires
        is_earliest(arrivals, indices, p),
        0 <= q < indices.len(),
        indices[q] < arrivals.len(),
        arrivals[indices[q] as int] is Some,
    ensures
        0 <= p < indices.len(),
        indices[p] < arrivals.len(),
        arrivals[indices[p] as int] is Some,
        arrivals[indices[p] as int]->0 <= arrivals[indices[q] as int]->0,
        q < p ==> arrivals[indices[p] as int]->0 < arrivals[indices[q] as int]->0,
{
    if arrivals[indices[q] as int]->0 < ARRIVAL_LIMIT_KEY {
        assert(arrives(arrivals, indices[q] as int));
    }
    assert(arrives(arrivals, indices[p] as int));
}

/// A link can be chosen exactly where an arrival below the largest double is predicted
/// for it.
pub proof fn predicted_links_arrive(arrivals: Seq<Option<OrderKey>>, i: int)
    requires
        0 <= i < arrivals.len(),
    ensures
        arrives(arrivals, i) <==> (arrivals[i] matches Some(at) && at < 0x7fef_ffff_ffff_ffff),
{
}

} // verus!
