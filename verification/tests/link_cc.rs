use srtla_send::connection::link::{LinkPhase, SrtlaConnection};
use srtla_send::sender::selection::link_cc::{
    CcState, ClimbMode, LinkCcController, LinkCongestionState, RttInflation, RttSignal,
    FAST_RECOVERY_TICKS, LOSS_WINDOW_MS, MAX_TARGET_BPS, MIN_TARGET_BPS,
};

/// The round-trip times of a link, smoothed by age.
struct Rtt {
    ewma_ms: f64,
    var_ms: f64,
    min_ms: f64,
    last_ms: u64,
}

impl Rtt {
    fn new() -> Self {
        Rtt { ewma_ms: 0.0, var_ms: 0.0, min_ms: f64::INFINITY, last_ms: 0 }
    }

    fn record(&mut self, rtt_ms: f64, now_ms: u64) {
        let age = now_ms.saturating_sub(self.last_ms);
        self.min_ms = self.min_ms.min(rtt_ms);
        self.last_ms = now_ms;
        if self.ewma_ms == 0.0 || age >= 2_000 {
            self.ewma_ms = rtt_ms;
            self.var_ms = 0.0;
            return;
        }
        let old = if age >= 1_000 {
            1.0
        } else if age >= 500 {
            4.0
        } else if age >= 250 {
            8.0
        } else {
            16.0
        };
        let prev = self.ewma_ms;
        self.ewma_ms = (rtt_ms + prev * old) / (1.0 + old);
        self.var_ms = ((rtt_ms - prev).abs() + self.var_ms * 3.0) / 4.0;
    }

    fn signal(&self) -> RttSignal {
        if self.ewma_ms == 0.0 {
            return RttSignal::Unknown;
        }
        let inflation = self.ewma_ms / self.min_ms;
        RttSignal::Known {
            inflation: if inflation >= 2.0 {
                RttInflation::Severe
            } else if inflation > 1.5 {
                RttInflation::Elevated
            } else {
                RttInflation::Normal
            },
            stable: self.var_ms <= self.ewma_ms * 0.10,
        }
    }
}

#[test]
fn bootstrap_holds_floor() {
    let mut cc = LinkCongestionState::default();
    cc.tick(0, 0, RttSignal::Unknown);
    assert_eq!(cc.state, CcState::Bootstrap);
    assert_eq!(cc.target_bps, MIN_TARGET_BPS);
}

#[test]
fn climbing_grows_target() {
    let mut cc = LinkCongestionState::default();
    let mut rtt = Rtt::new();
    rtt.record(50.0, 1_000);
    cc.tick(2_000_000, 1_000, rtt.signal());
    assert_eq!(cc.state, CcState::Climbing);
    let first = cc.target_bps;
    cc.tick(2_000_000, 1_100, rtt.signal());
    assert!(cc.target_bps >= first);
}

#[test]
fn holding_when_rtt_inflates() {
    let mut cc = LinkCongestionState::default();
    let mut rtt = Rtt::new();
    rtt.record(20.0, 0);
    cc.tick(2_000_000, 0, rtt.signal());

    for i in 1..=10 {
        rtt.record(35.0, i * 600);
        cc.tick(2_000_000, i * 600, rtt.signal());
    }
    assert_eq!(cc.state, CcState::Holding);
}

#[test]
fn backing_off_on_loss() {
    let mut cc = LinkCongestionState::default();
    let mut rtt = Rtt::new();
    rtt.record(50.0, 0);
    cc.tick(2_000_000, 0, rtt.signal());
    let before = cc.target_bps;

    cc.record_loss(1_000, 100, 100);
    cc.tick(2_000_000, 100, rtt.signal());
    assert_eq!(cc.state, CcState::BackingOff);
    assert!(cc.target_bps < before);
}

#[test]
fn loss_window_evicts() {
    let mut cc = LinkCongestionState::default();
    cc.record_loss(1_000, 100, 0);
    assert_eq!(cc.loss_permille(), 100);
    cc.record_loss(0, 0, LOSS_WINDOW_MS + 10);
    assert_eq!(cc.loss_permille(), 0);
}

#[test]
fn hai_kicks_in_when_rtt_is_stable() {
    let mut cc = LinkCongestionState::default();
    let mut rtt = Rtt::new();
    for i in 0..10 {
        rtt.record(50.0, i * 100);
        cc.tick(2_000_000, i * 100, rtt.signal());
    }
    assert_eq!(cc.state, CcState::Climbing);
    assert_eq!(cc.climb_mode, ClimbMode::Hai);
}

#[test]
fn hai_yields_to_normal_when_rtt_is_jittery() {
    let mut cc = LinkCongestionState::default();
    let mut rtt = Rtt::new();
    for i in 0..10 {
        let sample = if i % 2 == 0 { 30.0 } else { 80.0 };
        rtt.record(sample, i * 100);
        cc.tick(2_000_000, i * 100, rtt.signal());
    }
    assert_eq!(cc.state, CcState::Climbing);
    assert_eq!(cc.climb_mode, ClimbMode::Normal);
}

#[test]
fn fast_recovery_engages_after_backoff() {
    let mut cc = LinkCongestionState::default();
    let mut rtt = Rtt::new();
    rtt.record(50.0, 0);
    cc.tick(2_000_000, 0, rtt.signal());

    cc.record_loss(1_000, 100, 100);
    cc.tick(2_000_000, 100, rtt.signal());
    assert_eq!(cc.state, CcState::BackingOff);

    cc.tick(2_000_000, 1_200, rtt.signal());
    assert_eq!(cc.state, CcState::Climbing);
    assert_eq!(cc.climb_mode, ClimbMode::FastRecovery);

    for i in 1..=FAST_RECOVERY_TICKS as u64 {
        cc.tick(2_000_000, 1_200 + i, rtt.signal());
    }
    assert_eq!(cc.state, CcState::Climbing);
    assert!(matches!(cc.climb_mode, ClimbMode::Normal | ClimbMode::Hai));
}

#[test]
fn drain_triggers_on_high_rtt_inflation_no_loss() {
    let mut cc = LinkCongestionState::default();
    let mut rtt = Rtt::new();
    rtt.record(20.0, 0);
    cc.tick(2_000_000, 0, rtt.signal());

    for i in 1..20 {
        rtt.record(60.0, i * 600);
        cc.tick(2_000_000, i * 600, rtt.signal());
    }
    assert!(cc.state == CcState::Drain || cc.state == CcState::Holding);
    if cc.state == CcState::Drain {
        assert!(cc.target_bps < 2_000_000);
    }
}

#[test]
fn drain_then_recovery_path() {
    let mut cc = LinkCongestionState::default();
    let mut rtt = Rtt::new();
    rtt.record(20.0, 0);
    cc.tick(2_000_000, 0, rtt.signal());
    for i in 1..15 {
        rtt.record(60.0, i * 600);
        cc.tick(2_000_000, i * 600, rtt.signal());
    }
    for i in 15..30 {
        rtt.record(20.0, i * 600);
        cc.tick(2_000_000, i * 600, rtt.signal());
    }
    assert_eq!(cc.state, CcState::Climbing);
    assert!(rtt.ewma_ms < 30.0);
}

#[test]
fn observe_traffic_first_call_sets_baseline_without_sample() {
    let mut cc = LinkCongestionState::default();
    cc.observe_traffic(1_000_000, 5, 100);
    assert!(cc.loss_samples.is_empty(), "first call must not emit a sample");
    assert!(cc.traffic_baseline_set);
    assert_eq!(cc.prev_bytes_sent_total, 1_000_000);
    assert_eq!(cc.prev_nak_total, 5);
}

#[test]
fn observe_traffic_delta_flows_into_record_loss() {
    let mut cc = LinkCongestionState::default();
    cc.observe_traffic(0, 0, 0);
    cc.observe_traffic(1_000_000, 5, 100);
    let pm = cc.loss_permille();
    assert!(pm > 0, "loss permille should be non-zero after delta");
    assert!(pm < 20, "expected ~6 permille, got {pm}");
}

#[test]
fn observe_traffic_quiet_tick_with_naks_does_not_panic() {
    let mut cc = LinkCongestionState::default();
    cc.observe_traffic(1_000_000, 0, 0);
    cc.observe_traffic(1_000_000, 5, 100);
    let pm = cc.loss_permille();
    assert!(pm > 0, "loss with no fresh bytes should still register, got {pm}");
    assert!(pm <= 1_000_000);
}

#[test]
fn targets_stay_in_bounds() {
    let calm = RttSignal::Known { inflation: RttInflation::Normal, stable: true };
    let mut cc = LinkCongestionState::new();
    for i in 0..500 {
        cc.tick(u64::MAX, i, calm);
        assert!(cc.target_bps <= MAX_TARGET_BPS);
    }
    assert_eq!(cc.target_bps, MAX_TARGET_BPS);
    for i in 0..100 {
        cc.record_loss(10, 10, 1_000 + i);
        cc.tick(1_000_000, 1_000 + i, calm);
        assert!(cc.target_bps >= MIN_TARGET_BPS);
    }
}

#[test]
fn steps_are_exact() {
    let calm = RttSignal::Known { inflation: RttInflation::Normal, stable: false };
    let mut cc = LinkCongestionState::new();
    cc.tick(2_000_000, 0, calm);
    assert_eq!(cc.target_bps, 2_040_000);
    cc.record_loss(100, 1, 10);
    cc.tick(2_000_000, 10, calm);
    assert_eq!(cc.target_bps, 1_734_000);
    assert_eq!(cc.state.as_str(), "backing_off");
}

#[test]
fn controller_keeps_a_state_per_link() {
    let mut conns: Vec<SrtlaConnection> = (0..2)
        .map(|i| {
            let mut c = SrtlaConnection::new_registering(i + 10, format!("link {i}"), 0);
            c.connected = true;
            c.phase = LinkPhase::Live;
            c.bitrate.current_bitrate_bps = 3_000_000;
            c
        })
        .collect();
    let calm = RttSignal::Known { inflation: RttInflation::Normal, stable: true };
    let mut ctl = LinkCcController::new();
    let shown = ctl.tick_all(&conns, &[calm, RttSignal::Unknown], 0);
    assert_eq!(shown[&10].state, CcState::Climbing);
    assert_eq!(shown[&11].state, CcState::Bootstrap);
    conns.pop();
    let shown = ctl.tick_all(&conns, &[calm], 1_000);
    assert_eq!(shown.len(), 1);
    assert_eq!(ctl.per_conn.len(), 1);
}

#[test]
fn fast_recovery_lasts_five_ticks() {
    let mut cc = LinkCongestionState::default();
    let mut rtt = Rtt::new();
    rtt.record(50.0, 0);
    cc.tick(2_000_000, 0, rtt.signal());
    cc.record_loss(1_000, 100, 100);
    cc.tick(2_000_000, 100, rtt.signal());
    assert_eq!(cc.state, CcState::BackingOff);
    for t in 1_200..1_205 {
        cc.tick(2_000_000, t, rtt.signal());
        assert_eq!(cc.state, CcState::Climbing);
        assert_eq!(cc.climb_mode, ClimbMode::FastRecovery, "at {t}");
    }
    cc.tick(2_000_000, 1_205, rtt.signal());
    assert_eq!(cc.state, CcState::Climbing);
    assert_ne!(cc.climb_mode, ClimbMode::FastRecovery);
}
