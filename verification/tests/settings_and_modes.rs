use srtla_send::config::{
    ConfigSnapshot, DynamicConfig, STALL_ACK_STALE_MS, STALL_MIN_IN_FLIGHT_PACKETS,
};
use srtla_send::mode::SchedulingMode;
use srtla_send::priority::{CriticalWindow, PROTO_MAGIC};
use srtla_send::settings::{CliSettings, FileSettings, TypedFlags, CONN_TIMEOUT_MS};

#[test]
fn test_config_default() {
    let config = DynamicConfig::new();
    let snap = config.snapshot();
    assert_eq!(snap.mode, SchedulingMode::Enhanced);
    assert!(snap.quality_enabled);
}

#[test]
fn test_config_from_cli() {
    let config = DynamicConfig::from_cli(
        SchedulingMode::Classic,
        true,
        false,
        STALL_MIN_IN_FLIGHT_PACKETS,
        STALL_ACK_STALE_MS,
    );
    let snap = config.snapshot();
    assert_eq!(snap.mode, SchedulingMode::Classic);
    assert!(!snap.quality_enabled);
    assert!(snap.stall_deselect);
}

#[test]
fn test_effective_quality() {
    let snap = ConfigSnapshot {
        mode: SchedulingMode::Classic,
        quality_enabled: true,
        ..ConfigSnapshot::default()
    };
    assert!(!snap.effective_quality_enabled());

    let snap = ConfigSnapshot {
        mode: SchedulingMode::Enhanced,
        quality_enabled: true,
        ..ConfigSnapshot::default()
    };
    assert!(snap.effective_quality_enabled());
}

#[test]
fn settings_change_one_at_a_time() {
    let mut config = DynamicConfig::new();
    config.set_quality_enabled(false);
    config.set_exploration_enabled(true);
    config.set_rtt_delta_ms(45);
    config.set_stall_deselect(false);
    assert_eq!(
        config.snapshot(),
        ConfigSnapshot {
            quality_enabled: false,
            exploration_enabled: true,
            rtt_delta_ms: 45,
            stall_deselect: false,
            ..ConfigSnapshot::default()
        }
    );
    config.set_edpf();
    assert!(config.edpf);
    config.set_mode(SchedulingMode::RttThreshold);
    assert!(!config.edpf);
    assert_eq!(config.mode(), SchedulingMode::RttThreshold);
}

#[test]
fn hints_add_up_and_saturate() {
    let mut config = DynamicConfig::new();
    config.add_critical_hint(3);
    config.add_critical_hint(4);
    assert_eq!(config.critical_hint_remaining(), 7);
    assert_eq!(config.critical_hints_total(), 2);
    config.add_critical_hint(u32::MAX);
    assert_eq!(config.critical_hint_remaining(), u32::MAX);
}

#[test]
fn test_mode_default() {
    assert_eq!(SchedulingMode::default(), SchedulingMode::Enhanced);
}

#[test]
fn test_mode_u8_roundtrip() {
    for mode in [SchedulingMode::Classic, SchedulingMode::Enhanced, SchedulingMode::RttThreshold] {
        assert_eq!(SchedulingMode::from_u8(mode.as_u8()), mode);
    }
}

#[test]
fn unknown_mode_numbers_are_enhanced() {
    for n in 3..=u8::MAX {
        assert_eq!(SchedulingMode::from_u8(n), SchedulingMode::Enhanced);
    }
}

#[test]
fn test_mode_from_str() {
    assert_eq!("classic".parse::<SchedulingMode>().unwrap(), SchedulingMode::Classic);
    assert_eq!("enhanced".parse::<SchedulingMode>().unwrap(), SchedulingMode::Enhanced);
    assert_eq!("rtt-threshold".parse::<SchedulingMode>().unwrap(), SchedulingMode::RttThreshold);
    assert!("invalid".parse::<SchedulingMode>().is_err());
}

#[test]
fn invalid_mode_is_named_in_the_error() {
    assert_eq!(
        SchedulingMode::from_text("fast").unwrap_err(),
        "invalid mode 'fast': use classic, enhanced, or rtt-threshold"
    );
}

#[test]
fn test_mode_display() {
    assert_eq!(SchedulingMode::Classic.to_text(), "classic");
    assert_eq!(SchedulingMode::Enhanced.to_text(), "enhanced");
    assert_eq!(SchedulingMode::RttThreshold.to_text(), "rtt-threshold");
}

#[test]
fn test_mode_checks() {
    assert!(SchedulingMode::Classic.is_classic());
    assert!(!SchedulingMode::Classic.is_enhanced());

    assert!(!SchedulingMode::Enhanced.is_classic());
    assert!(SchedulingMode::Enhanced.is_enhanced());

    assert!(!SchedulingMode::RttThreshold.is_classic());
    assert!(!SchedulingMode::RttThreshold.is_enhanced());
}

#[test]
fn is_critical_respects_deadline() {
    let mut w = CriticalWindow::new();
    assert!(!w.is_critical_now(100));
    w.force_window(500);
    assert!(w.is_critical_now(100));
    assert!(w.is_critical_now(499));
    assert!(!w.is_critical_now(500));
    assert!(!w.is_critical_now(501));
}

#[test]
fn extend_to_is_monotonic() {
    let mut w = CriticalWindow::new();
    w.force_window(200);
    w.force_window(100);
    w.force_window(300);
    assert!(w.is_critical_now(250));
    assert!(w.is_critical_now(299));
    assert!(!w.is_critical_now(300));
    assert_eq!(w.windows_received(), 3);
}

#[test]
fn datagrams_open_windows_or_are_counted() {
    let mut w = CriticalWindow::new();
    w.handle_datagram(&[PROTO_MAGIC, 0, 0, 1, 44], 1_000);
    assert!(w.is_critical_now(1_299));
    assert!(!w.is_critical_now(1_300));
    w.handle_datagram(&[0x00, 0, 0, 1, 44], 5_000);
    w.handle_datagram(&[PROTO_MAGIC, 0, 0, 1], 5_000);
    assert!(!w.is_critical_now(5_000));
    assert_eq!(w.windows_received(), 1);
    assert_eq!(w.malformed_datagrams(), 2);
}

fn defaults() -> CliSettings {
    CliSettings {
        mode: SchedulingMode::Enhanced,
        no_quality: false,
        no_stall_deselect: false,
        stall_min_in_flight: STALL_MIN_IN_FLIGHT_PACKETS,
        stall_ack_stale_ms: STALL_ACK_STALE_MS,
        conn_timeout_ms: CONN_TIMEOUT_MS,
    }
}

fn nothing_typed() -> TypedFlags {
    TypedFlags {
        mode: false,
        no_quality: false,
        no_stall_deselect: false,
        stall_min_in_flight: false,
        stall_ack_stale_ms: false,
        conn_timeout_ms: false,
    }
}

fn empty_file() -> FileSettings {
    FileSettings {
        mode: None,
        no_quality: None,
        no_stall_deselect: None,
        stall_min_in_flight: None,
        stall_ack_stale_ms: None,
        conn_timeout_ms: None,
    }
}

#[test]
fn file_overrides_clap_defaults() {
    let mut cli = defaults();
    cli.apply_config_file(
        &nothing_typed(),
        &FileSettings {
            mode: Some(SchedulingMode::Classic),
            no_quality: Some(true),
            no_stall_deselect: Some(true),
            stall_min_in_flight: Some(64),
            stall_ack_stale_ms: Some(1500),
            conn_timeout_ms: Some(8000),
        },
    );
    assert_eq!(cli.mode, SchedulingMode::Classic);
    assert!(cli.no_quality);
    assert!(cli.no_stall_deselect);
    assert_eq!(cli.stall_min_in_flight, 64);
    assert_eq!(cli.stall_ack_stale_ms, 1500);
    assert_eq!(cli.conn_timeout_ms, 8000);
}

#[test]
fn typed_flag_overrides_file_even_at_default_value() {
    let mut cli = CliSettings { no_quality: true, ..defaults() };
    cli.apply_config_file(
        &TypedFlags { conn_timeout_ms: true, no_quality: true, ..nothing_typed() },
        &FileSettings {
            conn_timeout_ms: Some(8000),
            no_quality: Some(false),
            ..empty_file()
        },
    );
    assert_eq!(cli.conn_timeout_ms, CONN_TIMEOUT_MS);
    assert!(cli.no_quality);
}

#[test]
fn absent_file_keys_keep_cli_values() {
    let mut cli = CliSettings { stall_ack_stale_ms: 2000, ..defaults() };
    cli.apply_config_file(
        &TypedFlags { stall_ack_stale_ms: true, ..nothing_typed() },
        &empty_file(),
    );
    assert_eq!(cli.mode, SchedulingMode::Enhanced);
    assert_eq!(cli.stall_ack_stale_ms, 2000);
    assert_eq!(cli.conn_timeout_ms, CONN_TIMEOUT_MS);
}
