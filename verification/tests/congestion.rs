use srtla_send::connection::congestion::{CongestionControl, FAST_RECOVERY_DISABLE_WINDOW};
use srtla_send::connection::enhanced::{handle_srtla_ack, perform_window_recovery};
use srtla_send::protocol::constants::WINDOW_INCR;

const NOW: u64 = 100_000;

#[test]
fn test_enhanced_ack_increases_window() {
    let mut window = 1500;
    let in_flight = 3;
    let mut fast_recovery = false;

    handle_srtla_ack(&mut window, in_flight, &mut fast_recovery, 0, "test");

    assert_eq!(window, 1500 + WINDOW_INCR - 1);
}

#[test]
fn test_enhanced_ack_disables_fast_recovery() {
    let mut window = FAST_RECOVERY_DISABLE_WINDOW - 100;
    let in_flight = 100;
    let mut fast_recovery = true;
    let start_time = NOW;

    for _ in 0..20 {
        handle_srtla_ack(&mut window, in_flight, &mut fast_recovery, start_time, "test");
        if !fast_recovery {
            break;
        }
    }

    assert!(!fast_recovery);
}

#[test]
fn test_window_recovery_progressive() {
    let mut window = 5000;
    let last_nak = NOW - 10_500;
    let mut nak_burst_count = 0;
    let mut nak_burst_start = 0;
    let mut last_increase = 0;
    let mut fast_recovery = false;

    perform_window_recovery(
        &mut window,
        true,
        last_nak,
        &mut nak_burst_count,
        &mut nak_burst_start,
        &mut last_increase,
        &mut fast_recovery,
        "test",
        NOW,
    );

    assert!(window > 5000);
}

#[test]
fn test_window_recovery_with_no_nak_history() {
    let mut window = 5000;
    let last_nak = 0;
    let mut nak_burst_count = 0;
    let mut nak_burst_start = 0;
    let mut last_increase = 0;
    let mut fast_recovery = false;

    perform_window_recovery(
        &mut window,
        true,
        last_nak,
        &mut nak_burst_count,
        &mut nak_burst_start,
        &mut last_increase,
        &mut fast_recovery,
        "test",
        NOW,
    );

    assert!(window > 5000, "Window should grow for connections with no NAK history, got {window}");
    assert_eq!(
        window,
        5000 + WINDOW_INCR * 2,
        "Should use aggressive recovery for no-NAK connections"
    );
}

#[test]
fn test_window_recovery_no_nak_respects_increment_wait() {
    let mut window = 5000;
    let last_nak = 0;
    let mut nak_burst_count = 0;
    let mut nak_burst_start = 0;
    let mut last_increase = NOW;
    let mut fast_recovery = false;

    perform_window_recovery(
        &mut window,
        true,
        last_nak,
        &mut nak_burst_count,
        &mut nak_burst_start,
        &mut last_increase,
        &mut fast_recovery,
        "test",
        NOW,
    );

    assert_eq!(window, 5000, "Window should not grow if increment wait hasn't elapsed");
}

#[test]
fn disconnected_links_do_not_recover() {
    let mut window = 5000;
    let mut nak_burst_count = 0;
    let mut nak_burst_start = 0;
    let mut last_increase = 0;
    let mut fast_recovery = false;
    perform_window_recovery(
        &mut window,
        false,
        0,
        &mut nak_burst_count,
        &mut nak_burst_start,
        &mut last_increase,
        &mut fast_recovery,
        "test",
        NOW,
    );
    assert_eq!(window, 5000);
}

#[test]
fn naks_shrink_the_window_down_to_its_floor() {
    let mut cc = CongestionControl::new();
    let mut window = 20_000;
    cc.handle_nak(&mut window, 1, "test", NOW);
    assert_eq!(window, 19_900);
    assert_eq!(cc.nak_count, 1);
    for i in 0..400 {
        cc.handle_nak(&mut window, i, "test", NOW + 1);
    }
    assert_eq!(window, 1_000);
    assert!(cc.fast_recovery_mode);
    assert_eq!(cc.nak_count, 401);
}

#[test]
fn naks_within_a_second_form_a_burst() {
    let mut cc = CongestionControl::new();
    let mut window = 20_000;
    cc.handle_nak(&mut window, 1, "test", NOW);
    assert_eq!(cc.nak_burst_count, 0);
    cc.handle_nak(&mut window, 2, "test", NOW + 400);
    assert_eq!(cc.nak_burst_count, 2);
    assert_eq!(cc.nak_burst_start_time_ms, NOW);
    cc.handle_nak(&mut window, 3, "test", NOW + 800);
    assert_eq!(cc.nak_burst_count, 3);
    cc.handle_nak(&mut window, 4, "test", NOW + 5_000);
    assert_eq!(cc.nak_burst_count, 0);
    assert_eq!(cc.time_since_last_nak_ms(NOW + 5_250), Some(250));
}

#[test]
fn classic_acks_grow_only_a_full_pipe() {
    let mut cc = CongestionControl::new();
    let mut window = 20_000;
    cc.handle_srtla_ack_specific_classic(&mut window, 20, 1, "test");
    assert_eq!(window, 20_000);
    cc.handle_srtla_ack_specific_classic(&mut window, 21, 2, "test");
    assert_eq!(window, 20_029);
}

#[test]
fn recovery_is_faster_the_longer_no_nak_came() {
    let mut grown = Vec::new();
    for quiet in [3_000, 6_000, 8_000, 11_000] {
        let mut window = 5_000;
        let (mut count, mut start, mut last, mut fast) = (0, 0, 0, false);
        perform_window_recovery(
            &mut window,
            true,
            NOW - quiet,
            &mut count,
            &mut start,
            &mut last,
            &mut fast,
            "test",
            NOW,
        );
        grown.push(window - 5_000);
    }
    for pair in grown.windows(2) {
        assert!(pair[0] <= pair[1], "{grown:?}");
    }
    assert_eq!(grown[3], WINDOW_INCR * 2);
}
