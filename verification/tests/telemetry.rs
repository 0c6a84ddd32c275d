use srtla_send::config::ConfigSnapshot;
use srtla_send::connection::link::{LinkPhase, SrtlaConnection, ONE_KEY};
use srtla_send::mode::SchedulingMode;
use srtla_send::stats::{LinkMeasures, LinkStats, SharedStats, StatsSnapshot};
use srtla_send::telemetry::{
    build_telemetry_json, conns_from_stats, equal_share_percent, tmp_path, ConnRecord,
    TelemetryConn, TelemetryWriter,
};

const NOW: u64 = 100_000;

fn sample_conn() -> TelemetryConn {
    TelemetryConn {
        conn_id: 0,
        rtt_ms: 42,
        nak_count: 3,
        weight_percent: 85,
        window: 8192,
        in_flight: 100,
        bitrate_bytes_per_sec: 312_500,
    }
}

fn link(score: i32, active: bool, bytes_per_sec: u32) -> LinkStats {
    LinkStats {
        ip: "127.0.0.1".to_string(),
        label: "test".to_string(),
        connected: active,
        timed_out: !active,
        window: 100,
        in_flight: 0,
        rtt_ms: 20,
        nak_count: 0,
        bitrate_bps: bytes_per_sec,
        rtt_min_ms: 0,
        fast_rtt_ms: 0,
        base_score: score,
        quality_multiplier: ONE_KEY,
    }
}

fn snapshot(links: Vec<LinkStats>) -> StatsSnapshot {
    let mut snap = StatsSnapshot::default();
    snap.links = links;
    snap
}

/// Each link's part of the selection weight in percent, where there is any.
fn shares(snap: &StatsSnapshot) -> Option<Vec<u8>> {
    let weights: Vec<f64> = snap
        .links
        .iter()
        .map(|l| {
            if l.connected && !l.timed_out {
                l.base_score.max(0) as f64 * f64::from_bits(l.quality_multiplier as u64)
            } else {
                0.0
            }
        })
        .collect();
    let total: f64 = weights.iter().sum();
    if total > 0.0 {
        Some(
            weights
                .iter()
                .map(|w| (w / total * 100.0).round().clamp(0.0, 100.0) as u8)
                .collect(),
        )
    } else {
        None
    }
}

#[test]
fn schema_version_is_integer_one() {
    let json = build_telemetry_json(1, &[]);
    assert!(json.contains("\"schema_version\":1"), "got {json}");
    assert!(!json.contains("\"schema_version\":\"1\""));
}

#[test]
fn document_is_newline_free() {
    let json = build_telemetry_json(1, &[sample_conn()]);
    assert!(!json.contains('\n'), "telemetry must be a single line: {json}");
}

#[test]
fn empty_connections_serialize_to_array() {
    let json = build_telemetry_json(1_749_556_546_000, &[]);
    assert!(json.contains("\"connections\":[]"), "got {json}");
    assert!(json.contains("\"last_updated_ms\":1749556546000"));
}

#[test]
fn conn_id_is_stringified() {
    let json = build_telemetry_json(0, &[sample_conn()]);
    assert!(json.contains("\"conn_id\":\"0\""), "got {json}");
}

#[test]
fn all_schema_fields_present_and_typed() {
    let json = build_telemetry_json(7, &[sample_conn()]);
    for needle in [
        "\"rtt_ms\":42",
        "\"nak_count\":3",
        "\"weight_percent\":85",
        "\"window\":8192",
        "\"in_flight\":100",
        "\"bitrate_bps\":2500000",
    ] {
        assert!(json.contains(needle), "missing {needle} in {json}");
    }
}

#[test]
fn bitrate_is_bytes_times_eight_bits_per_second() {
    let json = build_telemetry_json(0, &[sample_conn()]);
    assert!(json.contains("\"bitrate_bps\":2500000"), "got {json}");
    assert!(!json.contains("312500"), "raw bytes/s leaked: {json}");
}

#[test]
fn bitrate_conversion_is_exactly_times_eight() {
    let cases = [(0u32, 0u64), (1, 8), (150_000, 1_200_000), (312_500, 2_500_000)];
    for (bytes, bits) in cases {
        let conn = TelemetryConn { bitrate_bytes_per_sec: bytes, ..sample_conn() };
        let record = ConnRecord::from(&conn);
        assert_eq!(record.bitrate_bps, bits, "{bytes} B/s should be {bits} bps");
    }
}

#[test]
fn document_is_exact() {
    let second = TelemetryConn { conn_id: 12, window: -7, in_flight: 0, ..sample_conn() };
    assert_eq!(
        build_telemetry_json(1_749_556_546_000, &[sample_conn(), second]),
        "{\"schema_version\":1,\"last_updated_ms\":1749556546000,\"connections\":[\
         {\"conn_id\":\"0\",\"rtt_ms\":42,\"nak_count\":3,\"weight_percent\":85,\
         \"window\":8192,\"in_flight\":100,\"bitrate_bps\":2500000},\
         {\"conn_id\":\"12\",\"rtt_ms\":42,\"nak_count\":3,\"weight_percent\":85,\
         \"window\":-7,\"in_flight\":0,\"bitrate_bps\":2500000}]}"
    );
}

#[test]
fn documents_are_valid_json() {
    let json = build_telemetry_json(5, &[sample_conn(), sample_conn()]);
    let v: serde_json::Value = serde_json::from_str(&json).unwrap();
    assert_eq!(v["schema_version"], 1);
    assert_eq!(v["connections"][1]["bitrate_bps"], 2_500_000);
    assert_eq!(v["connections"].as_array().unwrap().len(), 2);
}

#[test]
fn equal_share_fallback_distributes_evenly() {
    assert_eq!(equal_share_percent(0), 0);
    assert_eq!(equal_share_percent(1), 100);
    assert_eq!(equal_share_percent(2), 50);
    assert_eq!(equal_share_percent(4), 25);
}

#[test]
fn conns_from_stats_indexes_and_normalizes() {
    let snap = snapshot(vec![link(10, true, 100), link(10, true, 200), link(0, false, 0)]);
    let parts = shares(&snap);
    let conns = conns_from_stats(&snap, parts.as_deref());

    assert_eq!(conns.len(), 3);
    assert_eq!(conns[0].conn_id, 0);
    assert_eq!(conns[1].conn_id, 1);
    assert_eq!(conns[2].conn_id, 2);
    assert_eq!(conns[0].weight_percent, 50);
    assert_eq!(conns[1].weight_percent, 50);
    assert_eq!(conns[2].weight_percent, 0);
    assert_eq!(conns[1].bitrate_bytes_per_sec, 200);
}

#[test]
fn conns_from_stats_equal_share_when_no_capacity_signal() {
    let snap = snapshot(vec![link(0, true, 0), link(0, true, 0)]);
    let parts = shares(&snap);
    assert!(parts.is_none());
    let conns = conns_from_stats(&snap, parts.as_deref());
    assert_eq!(conns[0].weight_percent, 50);
    assert_eq!(conns[1].weight_percent, 50);
}

#[test]
fn writer_has_a_least_period() {
    assert_eq!(TelemetryWriter::new("stats.json".to_string(), 0).period(), 1);
    let writer = TelemetryWriter::new("stats.json".to_string(), 1000);
    assert_eq!(writer.period(), 1000);
    assert_eq!(tmp_path(&writer.path), "stats.json.tmp");
    assert_eq!(
        writer.document(&StatsSnapshot::default(), None, 9),
        "{\"schema_version\":1,\"last_updated_ms\":9,\"connections\":[]}"
    );
}

#[test]
fn test_shared_stats_new() {
    let stats = SharedStats::new();
    let snapshot = stats.get();
    assert_eq!(snapshot.active_links, 0);
    assert_eq!(snapshot.total_links, 0);
}

#[test]
fn test_shared_stats_empty_update() {
    let mut stats = SharedStats::new();
    let config = ConfigSnapshot {
        mode: SchedulingMode::Enhanced,
        quality_enabled: true,
        exploration_enabled: false,
        rtt_delta_ms: 30,
        ..ConfigSnapshot::default()
    };
    stats.update(&[], &[], &config, NOW);
    let snapshot = stats.get();
    assert_eq!(snapshot.mode, "enhanced");
    assert!(snapshot.quality_enabled);
}

#[test]
fn sums_cover_active_links_only() {
    let mut conns: Vec<SrtlaConnection> = (0..3)
        .map(|i| {
            let mut c = SrtlaConnection::new_registering(i, format!("link {i}"), NOW);
            c.connected = true;
            c.last_received = Some(NOW);
            c.phase = LinkPhase::Live;
            c
        })
        .collect();
    conns[0].register_packet(1, NOW);
    conns[0].register_packet(2, NOW);
    conns[0].bitrate.current_bitrate_bps = 800;
    conns[1].last_received = Some(NOW - 15_000);
    let measures: Vec<LinkMeasures> = (0..3)
        .map(|i| LinkMeasures {
            ip: format!("10.0.0.{i}"),
            fast_rtt_ms: i,
            quality_multiplier: 77,
        })
        .collect();
    let mut stats = SharedStats::new();
    stats.update(&conns, &measures, &ConfigSnapshot::default(), NOW);
    let snap = stats.get();
    assert_eq!(snap.active_links, 2);
    assert_eq!(snap.total_links, 3);
    assert_eq!(snap.total_window, 40_000);
    assert_eq!(snap.total_in_flight, 2);
    assert_eq!(snap.links[0].ip, "10.0.0.0");
    assert_eq!(snap.links[0].bitrate_bps, 100);
    assert_eq!(snap.links[0].base_score, 6_666);
    assert!(snap.links[1].timed_out);
    assert_eq!(snap.links[2].quality_multiplier, 77);

    let classic = ConfigSnapshot { mode: SchedulingMode::Classic, ..ConfigSnapshot::default() };
    stats.update(&conns, &measures, &classic, NOW);
    assert_eq!(stats.get().mode, "classic");
    assert!(!stats.get().quality_enabled);
    assert_eq!(stats.get().links[2].quality_multiplier, ONE_KEY);
}

#[test]
fn weights_are_at_most_all() {
    let snap = snapshot(vec![link(10, true, 0), link(10, true, 0), link(10, false, 0)]);
    let conns = conns_from_stats(&snap, Some(&[250, 101, 90]));
    assert_eq!(conns[0].weight_percent, 100);
    assert_eq!(conns[1].weight_percent, 100);
    assert_eq!(conns[2].weight_percent, 0);
}

#[test]
fn links_without_capacity_share_equally_whatever_is_given() {
    let snap =
        snapshot(vec![link(0, true, 0), link(-1, true, 0), link(7, false, 0), link(0, true, 0)]);
    let conns = conns_from_stats(&snap, Some(&[90, 5, 5, 0]));
    assert_eq!(conns[0].weight_percent, 33);
    assert_eq!(conns[1].weight_percent, 33);
    assert_eq!(conns[2].weight_percent, 0);
    assert_eq!(conns[3].weight_percent, 33);
}
