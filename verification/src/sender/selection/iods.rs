//! In-order delivery: a packet is not scheduled to arrive before one that was
//! scheduled earlier.

use crate::connection::link::OrderKey;
use vstd::prelude::*;

verus! {

/// The latest arrival scheduled so far, as a key; the key of zero before the
/// first.
#[derive(Debug, Clone, Copy, PartialEq, Eq, Structural)]
pub struct IodsFilter {
    pub last_arrival: OrderKey,
}

impl IodsFilter {
    /// Nothing scheduled.
    pub fn new() -> (filter: Self)
        ensures
            filter.last_arrival == 0,
    {
        IodsFilter { last_arrival: 0 }
    }

    /// Whether `self` is `before` once a packet was scheduled: the later of the two
    /// arrivals counts.
    pub open spec fn has_scheduled(&self, before: &Self, predicted_arrival: OrderKey) -> bool {
        self.last_arrival == if predicted_arrival > before.last_arrival {
            predicted_arrival
        } else {
            before.last_arrival
        }
    }

    /// Notes the predicted arrival of a packet that was scheduled.
    pub fn record_scheduled(&mut self, predicted_arrival: OrderKey)
        ensures
            final(self).has_scheduled(old(self), predicted_arrival),
    {
        if predicted_arrival > self.last_arrival {
            self.last_arrival = predicted_arrival;
        }
    }

    /// Whether a packet on link `i` would not arrive before the latest one
    /// scheduled.
    pub open spec fn keeps_order(&self, arrivals: Seq<Option<OrderKey>>, i: usize) -> bool {
        i < arrivals.len() && arrivals[i as int] is Some && arrivals[i as int]->0
            >= self.last_arrival
    }

    /// The candidates that keep the order, in the order given. A candidate without
    /// a predicted arrival does not.
    pub fn filter_valid(&self, indices: &[usize], arrivals: &[Option<OrderKey>]) -> (valid: Vec<
        usize,
    >)
        ensures
            valid@ == indices@.filter(|i: usize| self.keeps_order(arrivals@, i)),
    {
        let ghost pred = |i: usize| self.keeps_order(arrivals@, i);
        let mut valid: Vec<usize> = Vec::new();
        let mut p: usize = 0;
        assert(indices@.take(0).filter(pred) =~= Seq::empty()) by {
            reveal(Seq::filter);
        }
        while p < indices.len()
            invariant
                p <= indices@.len(),
                pred == (|i: usize| self.keeps_order(arrivals@, i)),
                valid@ == indices@.take(p as int).filter(pred),
            decreases indices@.len() - p,
        {
            let i: usize = indices[p];
            proof {
                reveal(Seq::filter);
                assert(indices@.take(p + 1).drop_last() =~= indices@.take(p as int));
            }
            if i < arrivals.len() {
                if let Some(arrival) = arrivals[i] {
                    if arrival >= self.last_arrival {
                        valid.push(i);
                    }
                }
            }
            p += 1;
        }
        assert(indices@.take(indices@.len() as int) =~= indices@);
        valid
    }

    /// Forgets what was scheduled.
    pub fn reset(&mut self)
        ensures
            final(self).last_arrival == 0,
    {
        self.last_arrival = 0;
    }
}

impl Default for IodsFilter {
    fn default() -> (filter: Self)
        ensures
            filter.last_arrival == 0,
    {
        Self::new()
    }
}

/// Once a packet is scheduled, a link keeps the order only where it arrives no earlier
/// than that packet and no earlier than those before; every such link does.
pub proof fn scheduled_packets_are_not_overtaken(
    before: IodsFilter,
    after: IodsFilter,
    scheduled: OrderKey,
    arrivals: Seq<Option<OrderKey>>,
    i: usize,
)
    requires
        after.has_scheduled(&before, scheduled),
        i < arrivals.len(),
    ensures
        after.keeps_order(arrivals, i) <==> before.keeps_order(arrivals, i) && scheduled
            <= arrivals[i as int]->0,
        before.keeps_order(arrivals, i) <==> (arrivals[i as int] matches Some(at) && at
            >= before.last_arrival),
{
}

} // verus!
