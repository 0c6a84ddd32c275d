//! Round-trip times of a link: when to measure, what counts as a sample, and the
//! smallest time seen recently.

use crate::clock::{elapsed, since};
use crate::protocol::parsers::{extract_keepalive_timestamp, keepalive_timestamp};
use std::collections::VecDeque;
use vstd::prelude::*;

verus! {

/// Samples in the fast window, which follows a handover within seconds.
pub const FAST_WINDOW_SAMPLES: usize = 10;

/// Samples in the slow window, which keeps the floor of a stable path.
pub const SLOW_WINDOW_SAMPLES: usize = 100;

/// Baseline before the first sample.
pub const DEFAULT_RTT_MIN_MS: u64 = 200;

/// Round-trip times above this are not samples.
pub const MAX_RTT_MS: u64 = 10_000;

/// Time after which a new sample is wanted.
pub const RTT_MEASUREMENT_INTERVAL_MS: u64 = 3000;

/// Measurement state of a link. A time of 0 means never.
pub struct RttTracker {
    pub last_keepalive_sent_ms: u64,
    pub waiting_for_keepalive_response: bool,
    pub last_rtt_measurement_ms: u64,
    /// The smallest sample of the two windows.
    pub rtt_min_ms: u64,
    pub fast_window: VecDeque<u64>,
    pub slow_window: VecDeque<u64>,
}

/// The last `n` items of `s`, or all where there are fewer.
pub open spec fn last_items(s: Seq<u64>, n: nat) -> Seq<u64> {
    if s.len() <= n {
        s
    } else {
        s.skip(s.len() - n)
    }
}

/// Whether `m` is the smallest item of `s`.
pub open spec fn is_minimum(m: u64, s: Seq<u64>) -> bool {
    s.contains(m) && forall|i: int| 0 <= i < s.len() ==> m <= #[trigger] s[i]
}

fn push_bounded(window: &mut VecDeque<u64>, value: u64, max_len: usize)
    requires
        old(window)@.len() <= max_len,
    ensures
        final(window)@ == last_items(old(window)@.push(value), max_len as nat),
{
    let full: bool = window.len() >= max_len;
    window.push_back(value);
    if full {
        let _ = window.pop_front();
        assert(window@ =~= last_items(old(window)@.push(value), max_len as nat));
    }
}

fn window_minimum(window: &VecDeque<u64>) -> (m: u64)
    requires
        window@.len() > 0,
    ensures
        is_minimum(m, window@),
{
    let mut m: u64 = window[0];
    let mut i: usize = 1;
    assert(window@.take(1)[0] == m);
    while i < window.len()
        invariant
            1 <= i <= window@.len(),
            window@.contains(m),
            forall|k: int| 0 <= k < i ==> m <= #[trigger] window@[k],
        decreases window@.len() - i,
    {
        if window[i] < m {
            m = window[i];
        }
        i += 1;
    }
    m
}

impl RttTracker {
    /// The samples of the fast window, oldest first.
    pub open spec fn fast(&self) -> Seq<u64> {
        self.fast_window@
    }

    /// The samples of the slow window, oldest first.
    pub open spec fn slow(&self) -> Seq<u64> {
        self.slow_window@
    }

    /// The windows hold the most recent samples, and the baseline is the smallest
    /// of them, or the default before the first.
    pub open spec fn wf(&self) -> bool {
        &&& self.slow().len() <= SLOW_WINDOW_SAMPLES
        &&& self.fast() == last_items(self.slow(), FAST_WINDOW_SAMPLES as nat)
        &&& self.slow().len() == 0 ==> self.rtt_min_ms == DEFAULT_RTT_MIN_MS
        &&& self.slow().len() > 0 ==> is_minimum(self.rtt_min_ms, self.slow())
    }

    /// Whether nothing was measured and nothing is awaited.
    pub open spec fn is_fresh(&self) -> bool {
        &&& self.last_keepalive_sent_ms == 0
        &&& !self.waiting_for_keepalive_response
        &&& self.last_rtt_measurement_ms == 0
        &&& self.rtt_min_ms == DEFAULT_RTT_MIN_MS
        &&& self.slow() == Seq::<u64>::empty()
    }

    /// Nothing measured.
    pub fn new() -> (tracker: Self)
        ensures
            tracker.is_fresh(),
            tracker.wf(),
    {
        let tracker = RttTracker {
            last_keepalive_sent_ms: 0,
            waiting_for_keepalive_response: false,
            last_rtt_measurement_ms: 0,
            rtt_min_ms: DEFAULT_RTT_MIN_MS,
            fast_window: VecDeque::new(),
            slow_window: VecDeque::new(),
        };
        assert(tracker.slow() =~= Seq::<u64>::empty());
        assert(tracker.fast() =~= tracker.slow());
        tracker
    }

    /// Forgets everything.
    pub fn reset(&mut self)
        ensures
            final(self).is_fresh(),
            final(self).wf(),
    {
        *self = Self::new();
    }

    /// Whether `self` is `before` with one more sample, taken at `now_ms`.
    pub open spec fn has_sampled(&self, before: &Self, rtt_ms: u64, now_ms: u64) -> bool {
        &&& self.slow() == last_items(before.slow().push(rtt_ms), SLOW_WINDOW_SAMPLES as nat)
        &&& self.last_rtt_measurement_ms == now_ms
        &&& self.last_keepalive_sent_ms == before.last_keepalive_sent_ms
        &&& self.waiting_for_keepalive_response == before.waiting_for_keepalive_response
    }

    /// Takes in a sample: it joins both windows, the oldest leave where they are
    /// full, and the baseline follows.
    pub fn update_estimate(&mut self, rtt_ms: u64, now_ms: u64)
        requires
            old(self).wf(),
        ensures
            final(self).wf(),
            final(self).has_sampled(old(self), rtt_ms, now_ms),
    {
        push_bounded(&mut self.fast_window, rtt_ms, FAST_WINDOW_SAMPLES);
        push_bounded(&mut self.slow_window, rtt_ms, SLOW_WINDOW_SAMPLES);
        proof {
            assert(self.fast() =~= last_items(self.slow(), FAST_WINDOW_SAMPLES as nat));
        }
        let fast_min: u64 = window_minimum(&self.fast_window);
        let slow_min: u64 = window_minimum(&self.slow_window);
        proof {
            let k = choose|k: int| 0 <= k < self.fast().len() && self.fast()[k] == fast_min;
            assert(self.fast()[k] == self.slow()[self.slow().len() - self.fast().len() + k]);
            assert(slow_min <= fast_min);
        }
        self.rtt_min_ms = if fast_min < slow_min {
            fast_min
        } else {
            slow_min
        };
        self.last_rtt_measurement_ms = now_ms;
    }

    /// Notes that a keepalive was sent whose answer is to be measured.
    pub fn record_keepalive_sent(&mut self, now_ms: u64)
        ensures
            final(self).last_keepalive_sent_ms == now_ms,
            final(self).waiting_for_keepalive_response,
            final(self).last_rtt_measurement_ms == old(self).last_rtt_measurement_ms,
            final(self).rtt_min_ms == old(self).rtt_min_ms,
            final(self).slow() == old(self).slow(),
            old(self).wf() ==> final(self).wf(),
    {
        self.last_keepalive_sent_ms = now_ms;
        self.waiting_for_keepalive_response = true;
    }

    /// Stops waiting for the answer to a keepalive.
    pub fn forget_keepalive(&mut self)
        ensures
            final(self).last_keepalive_sent_ms == 0,
            !final(self).waiting_for_keepalive_response,
            final(self).last_rtt_measurement_ms == old(self).last_rtt_measurement_ms,
            final(self).rtt_min_ms == old(self).rtt_min_ms,
            final(self).slow() == old(self).slow(),
            old(self).wf() ==> final(self).wf(),
    {
        self.last_keepalive_sent_ms = 0;
        self.waiting_for_keepalive_response = false;
    }

    /// The sample that a packet received at `now_ms` gives: the age of the
    /// timestamp it echoes, where an answer is awaited and the age is credible.
    pub open spec fn keepalive_sample(&self, data: Seq<u8>, now_ms: u64) -> Option<u64> {
        match keepalive_timestamp(data) {
            Some(ts) => if self.waiting_for_keepalive_response && since(now_ms, ts) <= MAX_RTT_MS {
                Some(since(now_ms, ts))
            } else {
                None
            },
            None => None,
        }
    }

    /// Takes in the answer to a keepalive; the sample it gives, if any. An answer
    /// that gives none ends the wait too.
    pub fn handle_keepalive_response(
        &mut self,
        data: &[u8],
        _label: &str,
        now_ms: u64,
    ) -> (sample: Option<u64>)
        requires
            old(self).wf(),
        ensures
            final(self).wf(),
            sample == old(self).keepalive_sample(data@, now_ms),
            !final(self).waiting_for_keepalive_response,
            final(self).last_keepalive_sent_ms == old(self).last_keepalive_sent_ms,
            final(self).slow() == match sample {
                Some(rtt) => last_items(old(self).slow().push(rtt), SLOW_WINDOW_SAMPLES as nat),
                None => old(self).slow(),
            },
            final(self).last_rtt_measurement_ms == if sample is Some {
                now_ms
            } else {
                old(self).last_rtt_measurement_ms
            },
            sample is None ==> final(self).rtt_min_ms == old(self).rtt_min_ms,
    {
        if !self.waiting_for_keepalive_response {
            return None;
        }
        if let Some(ts) = extract_keepalive_timestamp(data) {
            let rtt: u64 = elapsed(now_ms, ts);
            if rtt <= MAX_RTT_MS {
                self.update_estimate(rtt, now_ms);
                self.waiting_for_keepalive_response = false;
                return Some(rtt);
            }
        }
        self.waiting_for_keepalive_response = false;
        None
    }

    /// Whether a new sample is due at `now_ms`.
    pub open spec fn sample_due(&self, now_ms: u64) -> bool {
        &&& !self.waiting_for_keepalive_response
        &&& self.last_rtt_measurement_ms == 0 || since(now_ms, self.last_rtt_measurement_ms)
            > RTT_MEASUREMENT_INTERVAL_MS
    }

    /// Whether a new sample is due at `now_ms`.
    pub fn is_sample_due(&self, now_ms: u64) -> (r: bool)
        ensures
            r == self.sample_due(now_ms),
    {
        !self.waiting_for_keepalive_response && (self.last_rtt_measurement_ms == 0 || elapsed(
            now_ms,
            self.last_rtt_measurement_ms,
        ) > RTT_MEASUREMENT_INTERVAL_MS)
    }

    /// Whether the link is to be measured: only once it has been established, is
    /// connected, and a new sample is due.
    pub fn needs_measurement(
        &self,
        connected: bool,
        connection_established_ms: u64,
        now_ms: u64,
    ) -> (r: bool)
        ensures
            r == (connection_established_ms != 0 && connected && self.sample_due(now_ms)),
    {
        if connection_established_ms == 0 {
            return false;
        }
        connected && self.is_sample_due(now_ms)
    }
}

impl Default for RttTracker {
    fn default() -> (tracker: Self)
        ensures
            tracker.is_fresh(),
            tracker.wf(),
    {
        Self::new()
    }
}

/// A new sample is due where none is awaited and the last one is more than three
/// seconds ago, or none was ever taken.
pub proof fn sample_is_due_after_three_seconds(tracker: RttTracker, now_ms: u64)
    ensures
        tracker.waiting_for_keepalive_response ==> !tracker.sample_due(now_ms),
        !tracker.waiting_for_keepalive_response && tracker.last_rtt_measurement_ms == 0
            ==> tracker.sample_due(now_ms),
        !tracker.waiting_for_keepalive_response && tracker.last_rtt_measurement_ms > 0 ==> (
        tracker.sample_due(now_ms) <==> now_ms > tracker.last_rtt_measurement_ms + 3000),
{
}

/// The answer to a keepalive measures the time since it was sent, where an answer is
/// awaited and that is at most ten seconds; anything else measures nothing.
pub proof fn answer_measures_the_round_trip(tracker: RttTracker, data: Seq<u8>, now_ms: u64)
    ensures
        ({
            let sample = tracker.keepalive_sample(data, now_ms);
            let sent = keepalive_timestamp(data);
            &&& !tracker.waiting_for_keepalive_response ==> sample is None
            &&& sent is None ==> sample is None
            &&& tracker.waiting_for_keepalive_response && sent is Some && sent->0 <= now_ms ==> {
                &&& sample is Some <==> now_ms <= sent->0 + 10_000
                &&& sample is Some ==> sent->0 + sample->0 == now_ms
            }
        }),
{
}

/// The baseline is the smallest of the samples that are kept: the last hundred. Before
/// the first it is 200 ms.
pub proof fn baseline_is_the_smallest_sample(tracker: RttTracker, i: int)
    requires
        tracker.wf(),
    ensures
        tracker.slow().len() <= 100,
        tracker.slow().len() == 0 ==> tracker.rtt_min_ms == 200,
        0 <= i < tracker.slow().len() ==> tracker.rtt_min_ms <= tracker.slow()[i],
        tracker.slow().len() > 0 ==> exists|k: int|
            0 <= k < tracker.slow().len() && #[trigger] tracker.slow()[k] == tracker.rtt_min_ms,
{
    if tracker.slow().len() > 0 {
        assert(tracker.slow().contains(tracker.rtt_min_ms));
    }
}

/// The last items of a list are its end: as many as asked for, or all.
pub proof fn last_items_are_the_end(s: Seq<u64>, n: nat, i: int)
    ensures
        last_items(s, n).len() == if s.len() < n {
            s.len()
        } else {
            n
        },
        0 <= i < last_items(s, n).len() ==> last_items(s, n)[i] == s[s.len() - last_items(
            s,
            n,
        ).len() + i],
{
}

/// A sample is the newest of those kept, the others stay in their order but for the oldest
/// of a hundred, and the baseline is never above it; the next is due after three seconds.
pub proof fn sample_joins_the_others(
    before: RttTracker,
    after: RttTracker,
    rtt_ms: u64,
    now_ms: u64,
    later_ms: u64,
)
    requires
        before.wf(),
        after.wf(),
        after.has_sampled(&before, rtt_ms, now_ms),
        now_ms > 0,
        !before.waiting_for_keepalive_response,
    ensures
        after.slow().len() > 0,
        after.slow().last() == rtt_ms,
        before.slow().len() < 100 ==> after.slow().len() == before.slow().len() + 1
            && after.slow().drop_last() == before.slow(),
        before.slow().len() == 100 ==> after.slow().len() == 100 && after.slow().drop_last()
            == before.slow().skip(1),
        after.rtt_min_ms <= rtt_ms,
        before.slow().len() == 0 ==> after.rtt_min_ms == rtt_ms,
        after.sample_due(later_ms) <==> later_ms > now_ms + 3000,
{
    let all = before.slow().push(rtt_ms);
    if before.slow().len() < 100 {
        assert(after.slow() == all);
        assert(after.slow().drop_last() =~= before.slow());
    } else {
        assert(after.slow().drop_last() =~= before.slow().skip(1));
    }
    assert(after.slow()[after.slow().len() - 1] == rtt_ms);
    if before.slow().len() == 0 {
        assert(after.slow().contains(after.rtt_min_ms));
        let k = choose|k: int| 0 <= k < after.slow().len() && after.slow()[k] == after.rtt_min_ms;
        assert(k == 0);
    }
}

/// A sample changes nothing of a keepalive that is under way.
pub proof fn sample_leaves_the_keepalive(
    before: RttTracker,
    after: RttTracker,
    rtt_ms: u64,
    now_ms: u64,
)
    requires
        after.has_sampled(&before, rtt_ms, now_ms),
    ensures
        after.last_keepalive_sent_ms == before.last_keepalive_sent_ms,
        after.waiting_for_keepalive_response == before.waiting_for_keepalive_response,
        after.last_rtt_measurement_ms == now_ms,
{
}

/// Nothing measured: the baseline is 200 ms, no answer is awaited and a sample is due.
pub proof fn fresh_tracker_wants_a_sample(tracker: RttTracker, now_ms: u64)
    requires
        tracker.is_fresh(),
    ensures
        tracker.sample_due(now_ms),
        tracker.rtt_min_ms == 200,
        tracker.slow().len() == 0,
        tracker.last_keepalive_sent_ms == 0,
{
}

} // verus!
