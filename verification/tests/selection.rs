use srtla_send::config::ConfigSnapshot;
use srtla_send::connection::link::{LinkPhase, SrtlaConnection};
use srtla_send::mode::SchedulingMode;
use srtla_send::sender::selection::classifier::{
    derive_max_delay_budget, pick_tier, target_best_delay_ms, target_max_delay_ms,
    target_safe_delay_ms, LinkSample, WeakLinkFilter, WeakReason, MAX_BUDGET_MS, MIN_BUDGET_MS,
    TARGET_BEST_SAFE_CAP_MS, TARGET_MAX_CAP_MS,
};
use srtla_send::sender::selection::edpf::{select_from, select_from_indices};
use srtla_send::sender::selection::enhanced::{
    in_flight_cap_exceeded, in_flight_cap_packets, LinkScore,
};
use srtla_send::sender::selection::exploration::{pick_probe_target, should_explore_now};
use srtla_send::sender::selection::gate::{select_connection_idx, SelectionInputs};
use srtla_send::sender::selection::iods::IodsFilter;
use srtla_send::sender::selection::rtt_threshold::RttScore;

const NOW: u64 = 100_000;
const SRT_PKT_SIZE: usize = 1316;

/// The integer that orders as a double does.
fn key(x: f64) -> i64 {
    let bits = x.abs().to_bits() as i64;
    if x < 0.0 {
        -bits
    } else {
        bits
    }
}

fn connections(n: usize) -> Vec<SrtlaConnection> {
    (0..n)
        .map(|i| {
            let mut c = SrtlaConnection::new_registering(i as u64 + 1, format!("link {i}"), NOW);
            c.connected = true;
            c.last_received = Some(NOW);
            c.phase = LinkPhase::Live;
            c
        })
        .collect()
}

fn scores(conns: &[SrtlaConnection], quality: f64) -> Vec<LinkScore> {
    conns
        .iter()
        .map(|c| {
            let open = c.get_score() as f64 * quality;
            let gated = open * 0.02;
            LinkScore {
                open: key(open),
                open_hold: key(open * 1.10),
                gated: key(gated),
                gated_hold: key(gated * 1.10),
            }
        })
        .collect()
}

fn selected(
    conns: &mut Vec<SrtlaConnection>,
    last: Option<usize>,
    config: &ConfigSnapshot,
    scores: &[LinkScore],
    rtt_scores: &[RttScore],
) -> Option<usize> {
    let inputs = SelectionInputs { scores, rtt_scores, last_switch_time_ms: NOW, uptime_ms: 1_000 };
    select_connection_idx(conns, last, NOW, config, &inputs)
}

#[test]
fn test_select_connection_idx_classic() {
    let mut conns = connections(3);
    conns[0].in_flight_packets = 5;
    conns[1].in_flight_packets = 0;
    conns[2].in_flight_packets = 10;

    let config = ConfigSnapshot {
        mode: SchedulingMode::Classic,
        quality_enabled: false,
        ..ConfigSnapshot::default()
    };

    let result = selected(&mut conns, Some(0), &config, &[], &[]);
    assert_eq!(result, Some(1), "Classic mode should pick highest score connection");
}

#[test]
fn test_enhanced_switches_immediately_when_clearly_better() {
    let mut conns = connections(3);
    conns[0].in_flight_packets = 5;
    conns[1].in_flight_packets = 0;
    conns[2].in_flight_packets = 10;

    let config = ConfigSnapshot {
        mode: SchedulingMode::Enhanced,
        quality_enabled: true,
        ..ConfigSnapshot::default()
    };

    let list = scores(&conns, 1.1);
    let result = selected(&mut conns, Some(0), &config, &list, &[]);
    assert_eq!(
        result,
        Some(1),
        "Enhanced mode must switch to a clearly better link with no time-based delay"
    );
}

#[test]
fn test_enhanced_hysteresis_holds_when_gain_is_marginal() {
    let mut conns = connections(3);
    conns[0].in_flight_packets = 20;
    conns[1].in_flight_packets = 19;
    conns[2].in_flight_packets = 40;

    let config = ConfigSnapshot {
        mode: SchedulingMode::Enhanced,
        quality_enabled: true,
        ..ConfigSnapshot::default()
    };

    let list = scores(&conns, 1.1);
    let result = selected(&mut conns, Some(0), &config, &list, &[]);
    assert_eq!(
        result,
        Some(0),
        "Enhanced mode should hold the current link when the alternative is <10% better"
    );
}

#[test]
fn test_select_connection_idx_empty() {
    let mut conns: Vec<SrtlaConnection> = vec![];
    let config = ConfigSnapshot {
        mode: SchedulingMode::Enhanced,
        quality_enabled: false,
        ..ConfigSnapshot::default()
    };
    let result = selected(&mut conns, None, &config, &[], &[]);
    assert_eq!(result, None);
}

#[test]
fn weak_links_yield_but_are_used_when_alone() {
    let mut conns = connections(2);
    conns[0].weak = true;
    conns[1].in_flight_packets = 15;
    let config = ConfigSnapshot::default();
    let list = scores(&conns, 1.0);
    assert_eq!(selected(&mut conns, None, &config, &list, &[]), Some(1));
    conns[1].loss_degraded = true;
    assert_eq!(selected(&mut conns, None, &config, &list, &[]), Some(0));
}

#[test]
fn stalled_links_are_gated_while_another_is_healthy() {
    let mut conns = connections(2);
    conns[0].in_flight_packets = 40;
    conns[0].last_ack_or_rtt_sample_ms = NOW - 3_000;
    conns[1].in_flight_packets = 900;
    let config =
        ConfigSnapshot { mode: SchedulingMode::Classic, ..ConfigSnapshot::default() };
    assert_eq!(selected(&mut conns, None, &config, &[], &[]), Some(1));
    assert!(conns[0].stall_gated);

    conns[0].last_ack_or_rtt_sample_ms = NOW - 2_999;
    assert_eq!(selected(&mut conns, None, &config, &[], &[]), Some(0));
    assert!(!conns[0].stall_gated);

    conns[0].last_ack_or_rtt_sample_ms = NOW - 3_000;
    let off = ConfigSnapshot { stall_deselect: false, ..config };
    assert_eq!(selected(&mut conns, None, &off, &[], &[]), Some(0));

    conns[1].phase = LinkPhase::Registering;
    assert_eq!(selected(&mut conns, None, &config, &[], &[]), Some(0));
    assert!(!conns[0].stall_gated);
}

#[test]
fn slow_links_are_left_out_by_the_rtt_threshold() {
    let mut conns = connections(3);
    conns[0].in_flight_packets = 3;
    let config = ConfigSnapshot {
        mode: SchedulingMode::RttThreshold,
        ..ConfigSnapshot::default()
    };
    let measured: Vec<RttScore> = [20.0, 120.0, 45.0]
        .iter()
        .zip(conns.iter())
        .map(|(rtt, c)| RttScore {
            rtt: Some(key(*rtt)),
            limit: key(rtt + 30.0),
            score: key(c.get_score() as f64),
        })
        .collect();
    assert_eq!(selected(&mut conns, None, &config, &[], &measured), Some(2));
}

#[test]
fn exploration_follows_naks_and_the_clock() {
    let mut conns = connections(2);
    assert!(!should_explore_now(&conns, Some(0), Some(1), NOW, 1_000));
    assert!(should_explore_now(&conns, Some(0), Some(1), NOW, 60_299));
    assert!(!should_explore_now(&conns, Some(0), Some(1), NOW, 60_300));
    conns[0].congestion.last_nak_time_ms = NOW - 2_999;
    assert!(should_explore_now(&conns, Some(0), Some(1), NOW, 1_000));
    conns[1].congestion.last_nak_time_ms = NOW - 5_000;
    assert!(!should_explore_now(&conns, Some(0), Some(1), NOW, 1_000));
    assert!(!should_explore_now(&conns, Some(0), None, NOW, 60_000));
}

#[test]
fn the_longest_unprobed_link_is_probed() {
    let mut conns = connections(3);
    assert_eq!(pick_probe_target(&conns, 0, NOW), None);
    conns[1].weak = true;
    conns[2].loss_degraded = true;
    conns[1].last_probe_ms = NOW - 300;
    conns[2].last_probe_ms = NOW - 500;
    assert_eq!(pick_probe_target(&conns, 0, NOW), Some(2));
    conns[1].last_probe_ms = NOW - 10;
    conns[2].last_probe_ms = NOW - 20;
    assert_eq!(pick_probe_target(&conns, 0, NOW), None);
}

#[test]
fn target_tier_math() {
    assert_eq!(target_best_delay_ms(1000), 400);
    assert_eq!(target_safe_delay_ms(1000), 500);
    assert_eq!(target_max_delay_ms(1000), 600);

    assert_eq!(target_best_delay_ms(10_000), TARGET_BEST_SAFE_CAP_MS);
    assert_eq!(target_safe_delay_ms(10_000), TARGET_BEST_SAFE_CAP_MS);
    assert_eq!(target_max_delay_ms(10_000), TARGET_MAX_CAP_MS);
}

#[test]
fn budget_floor_and_ceiling() {
    assert_eq!(derive_max_delay_budget(50), MIN_BUDGET_MS);
    assert_eq!(derive_max_delay_budget(2000), MAX_BUDGET_MS);
    assert_eq!(derive_max_delay_budget(500), 1500);
}

#[test]
fn pick_tier_picks_best_when_85pct_fits() {
    let tier = pick_tier(1000, 900, 950, 1000, 100, 200, 300);
    assert_eq!(tier, 100);
}

#[test]
fn pick_tier_falls_back_to_safe() {
    let tier = pick_tier(1000, 100, 900, 1000, 100, 200, 300);
    assert_eq!(tier, 200);
}

#[test]
fn pick_tier_falls_back_to_max() {
    let tier = pick_tier(1000, 0, 0, 100, 100, 200, 300);
    assert_eq!(tier, 300);
}

#[test]
fn empty_classification_returns_bypassed() {
    let mut filter = WeakLinkFilter::new();
    let result = filter.classify(&[]);
    assert_eq!(result.selected_delay_ms, 0);
    assert!(result.per_link.is_empty());
}

#[test]
fn links_without_traffic_are_weak_beside_busy_ones() {
    let busy = LinkSample {
        conn_id: 1,
        connected: true,
        rtt_ms: 40,
        bitrate_bps: 8_000_000,
        queue_building: false,
    };
    let idle = LinkSample { conn_id: 2, bitrate_bps: 0, ..busy };
    let mut filter = WeakLinkFilter::new();
    let result = filter.classify_samples(&[busy, idle]);
    assert!(!result.per_link[0].weak);
    assert_eq!(result.per_link[0].reason, WeakReason::Healthy);
    assert!(result.per_link[1].weak);
    assert_eq!(result.per_link[1].reason, WeakReason::NoTraffic);
}

fn arrivals(conns: &[SrtlaConnection], quality: f64) -> Vec<Option<i64>> {
    conns
        .iter()
        .map(|c| {
            if !c.connected || c.bitrate.current_bitrate_bps == 0 {
                return None;
            }
            let capacity = c.bitrate.current_bitrate_bps as f64 / 8.0;
            let loss = (1.0 - quality).clamp(0.0, 0.99);
            let in_flight = (c.in_flight_packets.max(0) as usize * SRT_PKT_SIZE) as f64;
            Some(key(
                (in_flight + SRT_PKT_SIZE as f64) / (capacity * (1.0 - loss))
                    + c.rtt.rtt_min_ms as f64 / 1000.0,
            ))
        })
        .collect()
}

#[test]
fn test_select_prefers_lower_arrival() {
    let mut conns = connections(3);

    conns[0].in_flight_packets = 10;
    conns[0].bitrate.current_bitrate_bps = 1_000_000;
    conns[0].rtt.rtt_min_ms = 50;

    conns[1].in_flight_packets = 0;
    conns[1].bitrate.current_bitrate_bps = 2_000_000;
    conns[1].rtt.rtt_min_ms = 20;

    conns[2].in_flight_packets = 20;
    conns[2].bitrate.current_bitrate_bps = 500_000;
    conns[2].rtt.rtt_min_ms = 100;

    let result = select_from(&arrivals(&conns, 1.0));
    assert_eq!(result, Some(1), "Should pick conn with lowest predicted arrival");
}

#[test]
fn test_select_skips_disconnected() {
    let mut conns = connections(2);

    conns[0].connected = false;
    conns[0].bitrate.current_bitrate_bps = 10_000_000;

    conns[1].in_flight_packets = 5;
    conns[1].bitrate.current_bitrate_bps = 1_000_000;
    conns[1].rtt.rtt_min_ms = 50;

    let result = select_from(&arrivals(&conns, 1.0));
    assert_eq!(result, Some(1));
}

#[test]
fn test_select_empty() {
    let conns: Vec<SrtlaConnection> = vec![];
    assert_eq!(select_from(&arrivals(&conns, 1.0)), None);
}

#[test]
fn test_select_from_indices() {
    let mut conns = connections(3);

    conns[0].in_flight_packets = 0;
    conns[0].bitrate.current_bitrate_bps = 5_000_000;
    conns[0].rtt.rtt_min_ms = 10;

    conns[1].in_flight_packets = 0;
    conns[1].bitrate.current_bitrate_bps = 1_000_000;
    conns[1].rtt.rtt_min_ms = 50;

    conns[2].in_flight_packets = 0;
    conns[2].bitrate.current_bitrate_bps = 2_000_000;
    conns[2].rtt.rtt_min_ms = 20;

    let result = select_from_indices(&arrivals(&conns, 1.0), &[1, 2]);
    assert_eq!(result, Some(2), "Should pick best from subset");
}

#[test]
fn test_monotonic_ordering() {
    let mut iods = IodsFilter::new();

    let arrivals: Vec<Option<i64>> =
        [0.1, 0.05, 0.2, 0.15].iter().map(|a| Some(key(*a))).collect();
    let indices: Vec<usize> = (0..4).collect();

    let valid = iods.filter_valid(&indices, &arrivals);
    assert_eq!(valid, vec![0, 1, 2, 3]);

    iods.record_scheduled(key(0.15));

    let valid = iods.filter_valid(&indices, &arrivals);
    assert_eq!(valid, vec![2, 3]);
}

#[test]
fn test_empty_candidates() {
    let iods = IodsFilter::new();
    let valid = iods.filter_valid(&[], &[Some(key(1.0))]);
    assert!(valid.is_empty());
}

#[test]
fn iods_test_reset() {
    let mut iods = IodsFilter::new();
    iods.record_scheduled(key(100.0));

    let valid = iods.filter_valid(&[0], &[Some(key(1.0))]);
    assert!(valid.is_empty());

    iods.reset();
    let valid = iods.filter_valid(&[0], &[Some(key(1.0))]);
    assert_eq!(valid, vec![0]);
}

#[test]
fn test_none_arrival_filtered_out() {
    let iods = IodsFilter::new();
    let valid = iods.filter_valid(&[0, 1, 2], &[Some(key(1.0)), None, Some(key(1.0))]);
    assert_eq!(valid, vec![0, 2]);
}

fn one_conn() -> SrtlaConnection {
    connections(1).pop().unwrap()
}

#[test]
fn in_flight_cap_no_signal() {
    assert_eq!(in_flight_cap_packets(0, 50), None);
    let mut c = one_conn();
    c.cc_target_bps = 0;
    c.in_flight_packets = 10_000;
    assert!(!in_flight_cap_exceeded(&c));
}

#[test]
fn in_flight_cap_floors_at_one() {
    let cap = in_flight_cap_packets(100_000, 20).unwrap();
    assert_eq!(cap, 1);
}

#[test]
fn in_flight_cap_scales_with_bdp() {
    let cap = in_flight_cap_packets(10_000_000, 50).unwrap();
    assert!((68..=74).contains(&cap), "got {cap}");
    let cap_high_rtt = in_flight_cap_packets(10_000_000, 200).unwrap();
    assert!(cap_high_rtt > cap * 3, "got {cap_high_rtt} vs {cap}");
}

#[test]
fn in_flight_cap_engaged_when_exceeded() {
    let mut c = one_conn();
    c.cc_target_bps = 10_000_000;
    let cap = in_flight_cap_packets(c.cc_target_bps, c.rtt.rtt_min_ms).unwrap();
    c.in_flight_packets = cap;
    assert!(!in_flight_cap_exceeded(&c), "at cap is allowed, only above triggers");
    c.in_flight_packets = cap + 1;
    assert!(in_flight_cap_exceeded(&c));
}

#[test]
fn in_flight_cap_is_exact() {
    assert_eq!(in_flight_cap_packets(10_000_000, 50), Some(71));
    assert_eq!(in_flight_cap_packets(10_000_000, 0), Some(1));
    assert_eq!(in_flight_cap_packets(u64::MAX, u64::MAX), Some(i32::MAX));
}

#[test]
fn exactly_85_percent_are_enough() {
    assert_eq!(pick_tier(1000, 850, 900, 1000, 100, 200, 300), 100);
    assert_eq!(pick_tier(1000, 849, 850, 1000, 100, 200, 300), 200);
    assert_eq!(pick_tier(1000, 501, 849, 850, 100, 200, 300), 100);
    assert_eq!(pick_tier(1000, 500, 501, 850, 100, 200, 300), 200);
    assert_eq!(pick_tier(1000, 849, 849, 849, 100, 200, 300), 300);
}

#[test]
fn tiers_hold_at_the_top_of_the_range() {
    let all = u128::MAX;
    assert_eq!(pick_tier(all, all, all, all, 100, 200, 300), 100);
    let least = all / 1000 * 850 + (all % 1000 * 850 + 999) / 1000;
    assert_eq!(pick_tier(all, least, all, all, 100, 200, 300), 100);
    assert_eq!(pick_tier(all, least - 1, all, all, 100, 200, 300), 200);
    assert_eq!(pick_tier(1, all, 0, 0, 100, 200, 300), 100);
}

fn sample(conn_id: u64, rtt_ms: u32, bitrate_bps: u64) -> LinkSample {
    LinkSample { conn_id, connected: true, rtt_ms, bitrate_bps, queue_building: false }
}

#[test]
fn quiet_links_start_over() {
    let busy = [sample(1, 50, 5_000_000), sample(2, 50, 10_000)];
    let quiet = [sample(1, 50, 99_999), sample(2, 50, 0)];
    let mut filter = WeakLinkFilter::new();
    assert!(filter.classify_samples(&busy).per_link[1].weak);
    let result = filter.classify_samples(&quiet);
    assert_eq!((result.selected_delay_ms, result.estimated_max_delay_ms), (0, 0));
    for (verdict, link) in result.per_link.iter().zip(quiet.iter()) {
        assert_eq!(verdict.conn_id, link.conn_id);
        assert!(!verdict.weak);
        assert_eq!(verdict.reason, WeakReason::Bypassed);
        assert_eq!((verdict.share_permille, verdict.threshold_permille), (0, 0));
    }
    let mut fresh = WeakLinkFilter::new();
    let between = [sample(1, 50, 800_000), sample(2, 50, 200_000)];
    let (old, new) = (filter.classify_samples(&between), fresh.classify_samples(&between));
    for (a, b) in old.per_link.iter().zip(new.per_link.iter()) {
        assert_eq!((a.weak, a.threshold_permille), (b.weak, b.threshold_permille));
    }
    assert!(!old.per_link[1].weak);
}

#[test]
fn delay_makes_weak_on_the_second_tick() {
    let links = [sample(1, 50, 5_000_000), sample(2, 2_000, 5_000_000)];
    let mut filter = WeakLinkFilter::new();
    let mut slow = links;
    slow[1].queue_building = true;
    assert!(!filter.classify_samples(&slow).per_link[1].weak);
    let second = filter.classify_samples(&slow);
    assert!(second.per_link[1].weak);
    assert!(matches!(
        second.per_link[1].reason,
        WeakReason::HighRtt | WeakReason::QueueBuilding
    ));
}

#[test]
fn stalled_links_are_gated_in_rtt_mode() {
    let mut conns = connections(2);
    conns[0].in_flight_packets = 40;
    conns[0].window = 10_000_000;
    conns[0].last_ack_or_rtt_sample_ms = NOW - 10_000;
    let measured: Vec<RttScore> = conns
        .iter()
        .map(|c| RttScore {
            rtt: Some(key(20.0)),
            limit: key(50.0),
            score: key(c.get_score() as f64),
        })
        .collect();
    assert!(measured[0].score > measured[1].score);
    let mut config = ConfigSnapshot { mode: SchedulingMode::RttThreshold, ..Default::default() };
    assert_eq!(selected(&mut conns, Some(0), &config, &[], &measured), Some(1));
    assert!(conns[0].stall_gated);
    config.stall_deselect = false;
    assert_eq!(selected(&mut conns, None, &config, &[], &measured), Some(0));
}

#[test]
fn a_link_that_was_never_probed_is_due() {
    let mut conns = connections(2);
    conns[1].weak = true;
    for c in conns.iter_mut() {
        c.last_received = Some(0);
    }
    assert_eq!(pick_probe_target(&conns, 0, 5), Some(1));
    conns[1].last_probe_ms = 5;
    assert_eq!(pick_probe_target(&conns, 0, 204), None);
    assert_eq!(pick_probe_target(&conns, 0, 205), Some(1));
}

#[test]
fn the_staleness_window_follows_the_round_trip_time() {
    let mut conn = one_conn();
    conn.smooth_rtt_ms = 0;
    assert_eq!(conn.effective_stall_stale_ms(3_000), 3_000);
    conn.smooth_rtt_ms = 50;
    assert_eq!(conn.effective_stall_stale_ms(3_000), 1_000);
    conn.smooth_rtt_ms = 400;
    assert_eq!(conn.effective_stall_stale_ms(3_000), 1_600);
    conn.smooth_rtt_ms = 900;
    assert_eq!(conn.effective_stall_stale_ms(3_000), 3_000);
}
