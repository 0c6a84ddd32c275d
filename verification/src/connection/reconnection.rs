//! When a lost link may try to connect again.

use crate::clock::{elapsed, since};
use vstd::prelude::*;

verus! {

/// Time that a fresh link has before it can count as timed out.
pub const STARTUP_GRACE_MS: u64 = 5_000;

/// Delay of the first step of the ladder.
pub const BASE_RECONNECT_DELAY_MS: u64 = 5000;

/// Delay that the ladder does not exceed.
pub const MAX_BACKOFF_DELAY_MS: u64 = 120_000;

/// Doublings that the ladder takes at most.
pub const MAX_BACKOFF_COUNT: u32 = 5;

/// Pause between two attempts to register a link for the first time.
pub const REGISTRATION_RETRY_MS: u64 = 1000;

/// Delay between the first attempts of a link that was established.
pub const RECONNECT_FAST_RETRY_MS: u64 = 1000;

/// Failures up to which that delay holds.
pub const RECONNECT_FAST_RETRY_ATTEMPTS: u32 = 4;

/// Attempts made so far, and the times that bound the next one. A time of 0
/// means never.
#[derive(Debug, Clone, Copy, PartialEq, Eq, Structural)]
pub struct ReconnectionState {
    pub last_reconnect_attempt_ms: u64,
    pub reconnect_failure_count: u32,
    pub connection_established_ms: u64,
    pub startup_grace_deadline_ms: u64,
    pub fast_retry_ms: u64,
    pub fast_retry_attempts: u32,
}

/// Two to the power of `n`.
pub open spec fn doubled(n: nat) -> nat
    decreases n,
{
    if n == 0 {
        1
    } else {
        2 * doubled((n - 1) as nat)
    }
}

/// The delay of step `n` of the ladder: it doubles with each step and stops at
/// `MAX_BACKOFF_DELAY_MS`.
pub open spec fn ladder(n: nat) -> nat {
    let steps = if n < MAX_BACKOFF_COUNT {
        n
    } else {
        MAX_BACKOFF_COUNT as nat
    };
    if BASE_RECONNECT_DELAY_MS * doubled(steps) < MAX_BACKOFF_DELAY_MS {
        (BASE_RECONNECT_DELAY_MS * doubled(steps)) as nat
    } else {
        MAX_BACKOFF_DELAY_MS as nat
    }
}

impl ReconnectionState {
    /// A link that was never established and never tried.
    pub open spec fn spec_new() -> Self {
        ReconnectionState {
            last_reconnect_attempt_ms: 0,
            reconnect_failure_count: 0,
            connection_established_ms: 0,
            startup_grace_deadline_ms: 0,
            fast_retry_ms: RECONNECT_FAST_RETRY_MS,
            fast_retry_attempts: RECONNECT_FAST_RETRY_ATTEMPTS,
        }
    }

    /// The delay after `failures` failed attempts: the fast cadence for the first
    /// `fast_retry_attempts`, the ladder from then on.
    pub open spec fn delay_after(&self, failures: u32) -> nat {
        if failures < self.fast_retry_attempts {
            self.fast_retry_ms as nat
        } else {
            ladder((failures - self.fast_retry_attempts) as nat)
        }
    }

    /// Whether an attempt may be made at `now`.
    pub open spec fn may_attempt(&self, now: u64) -> bool {
        if self.connection_established_ms == 0 {
            &&& now > self.startup_grace_deadline_ms
            &&& self.last_reconnect_attempt_ms == 0 || since(now, self.last_reconnect_attempt_ms)
                >= REGISTRATION_RETRY_MS
        } else {
            self.last_reconnect_attempt_ms == 0 || since(now, self.last_reconnect_attempt_ms)
                >= self.delay_after(self.reconnect_failure_count)
        }
    }

    /// The state after an attempt at `now`. Attempts to register a link for the
    /// first time are not counted as failures.
    pub open spec fn after_attempt(&self, now: u64) -> Self {
        ReconnectionState {
            last_reconnect_attempt_ms: now,
            reconnect_failure_count: if self.connection_established_ms == 0 {
                self.reconnect_failure_count
            } else if self.reconnect_failure_count < u32::MAX {
                (self.reconnect_failure_count + 1) as u32
            } else {
                u32::MAX
            },
            ..*self
        }
    }

    fn backoff_delay(&self) -> (delay: u64)
        ensures
            delay == self.delay_after(self.reconnect_failure_count),
    {
        if self.reconnect_failure_count < self.fast_retry_attempts {
            return self.fast_retry_ms;
        }
        let failures: u32 = self.reconnect_failure_count - self.fast_retry_attempts;
        proof {
            reveal_with_fuel(doubled, 6);
        }
        if failures == 0 {
            5000
        } else if failures == 1 {
            10_000
        } else if failures == 2 {
            20_000
        } else if failures == 3 {
            40_000
        } else if failures == 4 {
            80_000
        } else {
            MAX_BACKOFF_DELAY_MS
        }
    }

    /// Whether an attempt to connect again may be made at `now`.
    pub fn should_attempt_reconnect(&self, now: u64) -> (r: bool)
        ensures
            r == self.may_attempt(now),
    {
        if self.connection_established_ms == 0 {
            if now <= self.startup_grace_deadline_ms {
                return false;
            }
            if self.last_reconnect_attempt_ms == 0 {
                return true;
            }
            return elapsed(now, self.last_reconnect_attempt_ms) >= REGISTRATION_RETRY_MS;
        }
        if self.last_reconnect_attempt_ms == 0 {
            return true;
        }
        elapsed(now, self.last_reconnect_attempt_ms) >= self.backoff_delay()
    }

    /// Notes an attempt made at `now`.
    pub fn record_attempt(&mut self, _label: &str, now: u64)
        ensures
            *final(self) == old(self).after_attempt(now),
    {
        self.last_reconnect_attempt_ms = now;
        if self.connection_established_ms == 0 {
            return;
        }
        self.reconnect_failure_count = self.reconnect_failure_count.saturating_add(1);
    }

    /// Notes that the link is back: the next failure starts with the shortest
    /// delay again.
    pub fn mark_success(&mut self, _label: &str)
        ensures
            *final(self) == (ReconnectionState { reconnect_failure_count: 0, ..*old(self) }),
    {
        if self.reconnect_failure_count > 0 {
            self.reconnect_failure_count = 0;
        }
    }

    /// Starts the time that the link has before it can count as timed out.
    pub fn reset_startup_grace(&mut self, now: u64)
        requires
            now <= u64::MAX - STARTUP_GRACE_MS,
        ensures
            *final(self) == (ReconnectionState {
                startup_grace_deadline_ms: (now + STARTUP_GRACE_MS) as u64,
                ..*old(self)
            }),
    {
        self.startup_grace_deadline_ms = now + STARTUP_GRACE_MS;
    }
}

impl Default for ReconnectionState {
    fn default() -> (state: Self)
        ensures
            state == Self::spec_new(),
    {
        ReconnectionState {
            last_reconnect_attempt_ms: 0,
            reconnect_failure_count: 0,
            connection_established_ms: 0,
            startup_grace_deadline_ms: 0,
            fast_retry_ms: RECONNECT_FAST_RETRY_MS,
            fast_retry_attempts: RECONNECT_FAST_RETRY_ATTEMPTS,
        }
    }
}

proof fn doubled_grows(m: nat, n: nat)
    requires
        m <= n,
    ensures
        1 <= doubled(m) <= doubled(n),
    decreases n,
{
    if n > 0 {
        if m == n {
            doubled_grows((m - 1) as nat, (n - 1) as nat);
        } else {
            doubled_grows(m, (n - 1) as nat);
        }
    }
}

/// The ladder never falls and never leaves its bounds.
pub proof fn ladder_is_monotonic_and_bounded(m: nat, n: nat)
    requires
        m <= n,
    ensures
        BASE_RECONNECT_DELAY_MS <= ladder(m) <= ladder(n) <= MAX_BACKOFF_DELAY_MS,
{
    let ms = if m < MAX_BACKOFF_COUNT {
        m
    } else {
        MAX_BACKOFF_COUNT as nat
    };
    let ns = if n < MAX_BACKOFF_COUNT {
        n
    } else {
        MAX_BACKOFF_COUNT as nat
    };
    doubled_grows(ms, ns);
}

/// With no fast attempts configured, the fast cadence is irrelevant: an
/// established link waits by the plain ladder.
pub proof fn no_fast_attempts_is_the_plain_ladder(state: ReconnectionState, failures: u32)
    requires
        state.fast_retry_attempts == 0,
    ensures
        state.delay_after(failures) == ladder(failures as nat),
{
}

/// On an established link, an attempt is followed by exactly the delay that its
/// failures call for.
pub proof fn next_attempt_waits_for_the_delay(state: ReconnectionState, at: u64, now: u64)
    requires
        state.connection_established_ms != 0,
        0 < at <= now,
    ensures
        state.after_attempt(at).may_attempt(now) <==> now - at >= state.delay_after(
            state.after_attempt(at).reconnect_failure_count,
        ),
{
}

/// The ladder starts at five seconds and doubles with each step, up to two minutes.
pub proof fn ladder_doubles(n: nat)
    ensures
        ladder(0) == 5000,
        ladder(n + 1) == if 2 * ladder(n) < 120_000 {
            2 * ladder(n)
        } else {
            120_000
        },
{
    reveal_with_fuel(doubled, 7);
    if n >= 5 {
        assert(ladder(n) == ladder(5) && ladder(n + 1) == ladder(5));
    } else if n == 0 {
    } else if n == 1 {
    } else if n == 2 {
    } else if n == 3 {
    } else {
        assert(n == 4);
    }
}

/// The first failures are followed by the short delay; then the ladder starts at its
/// foot and takes a step with each failure.
pub proof fn delays_follow_the_failures(state: ReconnectionState, failures: u32)
    ensures
        failures < state.fast_retry_attempts ==> state.delay_after(failures)
            == state.fast_retry_ms,
        failures == state.fast_retry_attempts ==> state.delay_after(failures) == 5000,
        failures >= state.fast_retry_attempts && failures < u32::MAX ==> state.delay_after(
            (failures + 1) as u32,
        ) == if 2 * state.delay_after(failures) < 120_000 {
            2 * state.delay_after(failures)
        } else {
            120_000
        },
        ReconnectionState::spec_new().delay_after(3) == 1000,
        ReconnectionState::spec_new().delay_after(4) == 5000,
{
    ladder_doubles(0);
    if failures >= state.fast_retry_attempts {
        ladder_doubles((failures - state.fast_retry_attempts) as nat);
    }
}

/// A link that was never established may try once its grace is over, and then once a
/// second; one that was may try once the delay that its failures call for is over.
/// What was never tried may be tried at once.
pub proof fn attempts_keep_their_distance(state: ReconnectionState, now: u64)
    ensures
        state.connection_established_ms == 0 ==> (state.may_attempt(now) <==> now
            > state.startup_grace_deadline_ms && (state.last_reconnect_attempt_ms == 0 || now
            >= state.last_reconnect_attempt_ms + 1000)),
        state.connection_established_ms != 0 && state.last_reconnect_attempt_ms == 0
            ==> state.may_attempt(now),
        state.connection_established_ms != 0 && 0 < state.last_reconnect_attempt_ms <= now ==> (
        state.may_attempt(now) <==> now - state.last_reconnect_attempt_ms >= state.delay_after(
            state.reconnect_failure_count,
        )),
{
}

/// An attempt is remembered with its time. It counts as a failure only on a link that
/// was established before.
pub proof fn attempts_are_counted(state: ReconnectionState, now: u64)
    ensures
        state.after_attempt(now).last_reconnect_attempt_ms == now,
        state.connection_established_ms == 0 ==> state.after_attempt(now).reconnect_failure_count
            == state.reconnect_failure_count,
        state.connection_established_ms != 0 && state.reconnect_failure_count < u32::MAX
            ==> state.after_attempt(now).reconnect_failure_count == state.reconnect_failure_count
            + 1,
        state.after_attempt(now).connection_established_ms == state.connection_established_ms,
{
}

} // verus!
