use srtla_send::connection::link::{LinkPhase, SrtlaConnection};
use srtla_send::sender::keyframe::{select_best_quality_idx, KeyframeDetector, SRT_DATA_SIZE};

/// The integer that orders as a double does.
fn key(x: f64) -> i64 {
    let bits = x.abs().to_bits() as i64;
    if x < 0.0 {
        -bits
    } else {
        bits
    }
}

fn connections(n: usize) -> Vec<SrtlaConnection> {
    (0..n)
        .map(|i| {
            let mut c = SrtlaConnection::new_registering(i as u64 + 1, format!("link {i}"), 1_000);
            c.connected = true;
            c.last_received = Some(1_000);
            c.phase = LinkPhase::Live;
            c
        })
        .collect()
}

#[test]
fn test_no_burst_below_threshold() {
    let mut det = KeyframeDetector::new();
    for _ in 0..4 {
        assert!(!det.observe(SRT_DATA_SIZE));
    }
    assert!(!det.is_in_burst());
    assert_eq!(det.total_bursts(), 0);
}

#[test]
fn test_burst_at_threshold() {
    let mut det = KeyframeDetector::new();
    for _ in 0..4 {
        assert!(!det.observe(SRT_DATA_SIZE));
    }
    assert!(det.observe(SRT_DATA_SIZE));
    assert!(det.is_in_burst());
    assert_eq!(det.total_bursts(), 1);
}

#[test]
fn test_burst_continues_with_max_mtu() {
    let mut det = KeyframeDetector::new();
    for _ in 0..5 {
        det.observe(SRT_DATA_SIZE);
    }
    assert!(det.observe(SRT_DATA_SIZE));
    assert!(det.observe(SRT_DATA_SIZE));
    assert!(det.is_in_burst());
    assert_eq!(det.total_bursts(), 1);
}

#[test]
fn test_burst_ends_on_short_packet() {
    let mut det = KeyframeDetector::new();
    for _ in 0..5 {
        det.observe(SRT_DATA_SIZE);
    }
    assert!(det.is_in_burst());

    assert!(!det.observe(800));
    assert!(!det.is_in_burst());
}

#[test]
fn test_multiple_bursts() {
    let mut det = KeyframeDetector::new();

    for _ in 0..7 {
        det.observe(SRT_DATA_SIZE);
    }
    assert!(det.is_in_burst());
    assert_eq!(det.total_bursts(), 1);

    det.observe(600);
    assert!(!det.is_in_burst());

    for _ in 0..5 {
        det.observe(SRT_DATA_SIZE);
    }
    assert!(det.is_in_burst());
    assert_eq!(det.total_bursts(), 2);
}

#[test]
fn test_reset_after_single_short_packet() {
    let mut det = KeyframeDetector::new();
    for _ in 0..3 {
        det.observe(SRT_DATA_SIZE);
    }
    det.observe(1000);
    for _ in 0..4 {
        assert!(!det.observe(SRT_DATA_SIZE));
    }
    assert!(det.observe(SRT_DATA_SIZE));
    assert_eq!(det.total_bursts(), 1);
}

#[test]
fn test_select_best_quality_idx() {
    let mut conns = connections(3);

    conns[0].quality_cache.multiplier = key(0.8);
    conns[1].quality_cache.multiplier = key(1.1);
    conns[2].quality_cache.multiplier = key(0.95);

    assert_eq!(select_best_quality_idx(&conns), Some(1));
}

#[test]
fn test_select_best_quality_idx_skips_disconnected() {
    let mut conns = connections(3);

    conns[0].quality_cache.multiplier = key(0.8);
    conns[1].quality_cache.multiplier = key(1.1);
    conns[1].connected = false;
    conns[2].quality_cache.multiplier = key(0.95);

    assert_eq!(select_best_quality_idx(&conns), Some(2));
}

#[test]
fn test_select_best_quality_idx_empty() {
    let conns: Vec<SrtlaConnection> = vec![];
    assert_eq!(select_best_quality_idx(&conns), None);
}

#[test]
fn each_long_run_is_one_burst() {
    let mut det = KeyframeDetector::new();
    for len in [4, 5, 9, 0, 6] {
        for _ in 0..len {
            det.observe(SRT_DATA_SIZE);
        }
        det.observe(100);
    }
    assert_eq!(det.total_bursts(), 3);
    assert!(!det.is_in_burst());
}
