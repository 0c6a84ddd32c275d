use srtla_send::connection::reconnection::{ReconnectionState, MAX_BACKOFF_DELAY_MS};

/// A link that was established (REG3 seen) and has just timed out.
fn established() -> ReconnectionState {
    ReconnectionState { connection_established_ms: 1_000, ..Default::default() }
}

fn established_with(fast_retry_ms: u64, fast_retry_attempts: u32) -> ReconnectionState {
    ReconnectionState { fast_retry_ms, fast_retry_attempts, ..established() }
}

/// Record an attempt at `t` and return the delay until the next one is allowed,
/// asserting the boundary is exact.
fn wait_after_attempt(state: &mut ReconnectionState, t: u64) -> u64 {
    state.record_attempt("test", t);
    let mut wait: u64 = 1;
    while !state.should_attempt_reconnect(t + wait) {
        wait += 1;
        assert!(wait <= MAX_BACKOFF_DELAY_MS, "never allowed a retry");
    }
    assert!(!state.should_attempt_reconnect(t + wait - 1));
    wait
}

/// The waits between the first `n` consecutive failed attempts.
fn schedule(mut state: ReconnectionState, n: usize) -> Vec<u64> {
    let mut t: u64 = 50_000;
    let mut waits = Vec::new();
    for _ in 0..n {
        let w = wait_after_attempt(&mut state, t);
        waits.push(w);
        t += w;
    }
    waits
}

/// The schedule without a fast-retry window: `5000 << n`, capped.
const LADDER: [u64; 8] = [10_000, 20_000, 40_000, 80_000, 120_000, 120_000, 120_000, 120_000];

#[test]
fn defaults_are_one_second_for_four_attempts() {
    let state = ReconnectionState::default();
    assert_eq!(state.fast_retry_ms, 1000);
    assert_eq!(state.fast_retry_attempts, 4);
}

#[test]
fn established_link_retries_after_one_second() {
    let mut state = established();
    let t = 50_000;
    assert!(state.should_attempt_reconnect(t));
    state.record_attempt("test", t);
    assert!(!state.should_attempt_reconnect(t + 999));
    assert!(state.should_attempt_reconnect(t + 1000));
}

#[test]
fn fast_window_then_exponential_ladder() {
    assert_eq!(
        schedule(established(), 11),
        vec![1000, 1000, 1000, 5000, 10_000, 20_000, 40_000, 80_000, 120_000, 120_000, 120_000]
    );
}

#[test]
fn fifth_attempt_waits_five_seconds() {
    let mut state = established();
    let mut t = 50_000;
    for _ in 0..3 {
        state.record_attempt("test", t);
        t += 1000;
        assert!(state.should_attempt_reconnect(t));
    }
    state.record_attempt("test", t);
    assert_eq!(state.reconnect_failure_count, 4);
    assert!(!state.should_attempt_reconnect(t + 4999));
    assert!(state.should_attempt_reconnect(t + 5000));
}

#[test]
fn zero_attempts_is_the_plain_ladder() {
    assert_eq!(schedule(established_with(1000, 0), 8), LADDER.to_vec());
    assert_eq!(
        schedule(established_with(3000, 0), 8),
        LADDER.to_vec(),
        "the fast cadence must be irrelevant when the window is empty"
    );
}

#[test]
fn window_is_configurable() {
    assert_eq!(
        schedule(established_with(2000, 2), 5),
        vec![2000, 5000, 10_000, 20_000, 40_000]
    );
}

#[test]
fn success_resets_to_fast_retry() {
    let mut state = established();
    for i in 0..6 {
        state.record_attempt("test", 50_000 + i);
    }
    state.mark_success("test");
    assert_eq!(wait_after_attempt(&mut state, 200_000), 1000);
}

#[test]
fn initial_registration_cadence_unchanged() {
    let mut state = ReconnectionState {
        startup_grace_deadline_ms: 10_000,
        fast_retry_ms: 5000,
        fast_retry_attempts: 0,
        ..Default::default()
    };
    assert!(!state.should_attempt_reconnect(10_000));
    assert!(state.should_attempt_reconnect(10_001));
    state.record_attempt("test", 10_001);
    assert_eq!(state.reconnect_failure_count, 0);
    assert!(!state.should_attempt_reconnect(11_000));
    assert!(state.should_attempt_reconnect(11_001));
}

#[test]
fn delays_never_shrink_while_failing() {
    let waits = schedule(established_with(700, 6), 14);
    for pair in waits.windows(2) {
        assert!(pair[0] <= pair[1], "{waits:?}");
    }
    assert!(waits.iter().all(|w| *w <= MAX_BACKOFF_DELAY_MS));
}

#[test]
fn grace_period_starts_anew() {
    let mut state = ReconnectionState::default();
    state.reset_startup_grace(2_000);
    assert_eq!(state.startup_grace_deadline_ms, 7_000);
}
