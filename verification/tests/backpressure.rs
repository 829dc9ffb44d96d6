use std::time::Duration;

use freqfs::backpressure::{DeviceState, Rescore, Score, SUCCESS_CREDIT};
use freqfs::{Admission, BackpressureConfig, BackpressureManager, PressureSignal};

fn score(value: f32) -> Score {
    Score { bits: value.to_bits() }
}

fn seconds(nanos: u128) -> f32 {
    Duration::from_nanos(nanos as u64).as_secs_f32()
}

/// Computes scores at the time that it is told.
struct Devices {
    manager: BackpressureManager,
    now: Duration,
}

impl Devices {
    fn new(config: BackpressureConfig) -> Self {
        Self {
            manager: BackpressureManager::new(config),
            now: Duration::from_secs(1),
        }
    }

    /// The time, and the score of `device` at that time.
    fn up_to_date(&self, device: &str) -> (u128, Score) {
        let now = self.now.as_nanos();
        (now, computed(self.manager.decay(device, now)))
    }

    fn admission(&mut self, device: &str) -> Admission {
        let (now, score) = self.up_to_date(device);
        self.manager.admission(device, now, score)
    }

    fn try_acquire(&mut self, device: &str) -> bool {
        let (now, score) = self.up_to_date(device);
        self.manager.try_acquire(device, now, score)
    }

    fn release(&mut self, device: &str) {
        self.manager.release(device)
    }

    fn report_pressure(&mut self, device: &str) {
        let (now, score) = self.up_to_date(device);
        let rescore = self.manager.report_pressure(device, now, score);
        self.manager.rescore(device, computed(rescore));
    }

    fn report_signal(&mut self, device: &str, signal: PressureSignal) {
        let (now, score) = self.up_to_date(device);
        let rescore = self.manager.report_signal(device, now, score, signal);
        self.manager.rescore(device, computed(rescore));
    }

    fn report_success(&mut self, device: &str) {
        let (now, score) = self.up_to_date(device);
        let rescore = self.manager.report_success(device, now, score);
        self.manager.rescore(device, computed(rescore));
    }
}

fn computed(rescore: Rescore) -> Score {
    match rescore {
        Rescore::Keep { score } => score,
        Rescore::Decay { score: from, elapsed, half_life } => {
            let t = seconds(elapsed) / seconds(half_life);
            score(f32::from_bits(from.bits) * 2f32.powf(-t))
        }
        Rescore::Raise { score: from, hundredths } => {
            score(f32::from_bits(from.bits) + hundredths as f32 / 100.0)
        }
        Rescore::Lower { score: from, hundredths } => {
            score((f32::from_bits(from.bits) - hundredths as f32 / 100.0).max(0.0))
        }
    }
}

/// A configuration under which scores do not decay, and whose thresholds are given.
fn steady(hard_threshold: u32, recover_threshold: u32, score_threshold: f32) -> Devices {
    Devices::new(BackpressureConfig {
        hard_threshold,
        recover_threshold,
        score_threshold: score(score_threshold),
        max_inflight: 64,
        decay_half_life: 0,
    })
}

#[test]
fn blocks_after_pressure_threshold() {
    let mut mgr = Devices::new(BackpressureConfig {
        hard_threshold: 2,
        recover_threshold: 2,
        score_threshold: score(2.0),
        max_inflight: 64,
        decay_half_life: Duration::from_secs(1).as_nanos(),
    });

    assert_eq!(mgr.admission("gpu0"), Admission::Allow);
    mgr.report_pressure("gpu0");
    assert_eq!(mgr.admission("gpu0"), Admission::Allow);
    mgr.report_pressure("gpu0");
    assert_eq!(mgr.admission("gpu0"), Admission::Backpressure);
}

#[test]
fn recovers_with_success_signals() {
    let mut mgr = Devices::new(BackpressureConfig {
        hard_threshold: 1,
        recover_threshold: 1,
        score_threshold: score(1.0),
        max_inflight: 64,
        decay_half_life: Duration::from_secs(1).as_nanos(),
    });

    mgr.report_pressure("gpu0");
    assert_eq!(mgr.admission("gpu0"), Admission::Backpressure);

    mgr.report_success("gpu0");
    assert_eq!(mgr.admission("gpu0"), Admission::Allow);
}

#[test]
fn pressure_isolated_per_device() {
    let mut mgr = Devices::new(BackpressureConfig {
        hard_threshold: 1,
        recover_threshold: 1,
        score_threshold: score(1.0),
        max_inflight: 64,
        decay_half_life: Duration::from_secs(1).as_nanos(),
    });

    mgr.report_pressure("gpu0");

    assert_eq!(mgr.admission("gpu0"), Admission::Backpressure);
    assert_eq!(mgr.admission("gpu1"), Admission::Allow);
}

#[test]
fn inflight_budget_enforced() {
    let mut mgr = Devices::new(BackpressureConfig {
        hard_threshold: 100,
        recover_threshold: 1,
        score_threshold: score(100.0),
        max_inflight: 1,
        decay_half_life: Duration::from_secs(1).as_nanos(),
    });

    assert!(mgr.try_acquire("gpu0"));
    assert!(!mgr.try_acquire("gpu0"));
    mgr.release("gpu0");
    assert!(mgr.try_acquire("gpu0"));
}

#[test]
fn weighted_signals_affect_admission() {
    let mut mgr = Devices::new(BackpressureConfig {
        hard_threshold: 100,
        recover_threshold: 1,
        score_threshold: score(1.0),
        max_inflight: 64,
        decay_half_life: Duration::from_secs(10).as_nanos(),
    });

    mgr.report_signal("gpu0", PressureSignal::TransferFailure);
    assert_eq!(mgr.admission("gpu0"), Admission::Allow);

    mgr.report_signal("gpu0", PressureSignal::EnqueueFailure);
    assert_eq!(mgr.admission("gpu0"), Admission::Backpressure);
}

#[test]
fn score_decay_recovers_admission() {
    let mut mgr = Devices::new(BackpressureConfig {
        hard_threshold: 100,
        recover_threshold: 100,
        score_threshold: score(0.3),
        max_inflight: 64,
        decay_half_life: Duration::from_millis(20).as_nanos(),
    });

    mgr.report_signal("gpu0", PressureSignal::Saturation);
    assert_eq!(mgr.admission("gpu0"), Admission::Backpressure);

    mgr.now += Duration::from_millis(120);
    assert_eq!(mgr.admission("gpu0"), Admission::Allow);
}

#[test]
fn weights_are_the_hundredths_of_the_signals() {
    let weigh = |signal: PressureSignal| signal.weight() as f32 / 100.0;
    assert_eq!(weigh(PressureSignal::AllocationFailure), 1.0);
    assert_eq!(weigh(PressureSignal::EnqueueFailure), 0.75);
    assert_eq!(weigh(PressureSignal::TransferFailure), 0.5);
    assert_eq!(weigh(PressureSignal::Saturation), 0.6);
    assert_eq!(SUCCESS_CREDIT as f32 / 100.0, 0.5);
}

#[test]
fn default_configuration() {
    let config = BackpressureConfig::default();
    assert_eq!(config.hard_threshold, 3);
    assert_eq!(config.recover_threshold, 2);
    assert_eq!(config.score_threshold, score(1.5));
    assert_eq!(config.max_inflight, 64);
    assert_eq!(config.decay_half_life, Duration::from_millis(500).as_nanos());

    let zero = score(0.0);
    let mut manager = BackpressureManager::default();
    assert_eq!(manager.admission("gpu0", 0, zero), Admission::Allow);
    for _ in 0..2 {
        manager.report_pressure("gpu0", 0, zero);
        assert_eq!(manager.admission("gpu0", 0, zero), Admission::Allow);
    }
    manager.report_pressure("gpu0", 0, zero);
    assert_eq!(manager.admission("gpu0", 0, zero), Admission::Backpressure);
}

#[test]
fn scores_compare_as_their_values_do() {
    let values = [
        f32::NEG_INFINITY,
        f32::MIN,
        -1.5,
        -f32::MIN_POSITIVE,
        -0.0,
        0.0,
        1e-45,
        f32::MIN_POSITIVE,
        0.3,
        0.6,
        1.0,
        1.5,
        2.0,
        16_777_216.0,
        f32::MAX,
        f32::INFINITY,
        f32::NAN,
        -f32::NAN,
    ];
    for left in values {
        assert_eq!(score(left).is_clear(), left <= 0.0, "{left}");
        for right in values {
            assert_eq!(score(left).exceeds(score(right)), left > right, "{left} {right}");
        }
    }
}

#[test]
fn scores_do_not_decay_without_time_or_half_life_or_pressure() {
    let keep = |value: f32| Rescore::Keep { score: score(value) };
    let config = BackpressureConfig {
        decay_half_life: 10,
        ..BackpressureConfig::default()
    };
    let mut manager = BackpressureManager::new(config);
    assert_eq!(manager.decay("gpu0", 5), keep(0.0));

    manager.admission("gpu0", 5, score(1.0));
    assert_eq!(manager.decay("gpu0", 5), keep(1.0));
    assert_eq!(manager.decay("gpu0", 4), keep(1.0));
    let decay = Rescore::Decay { score: score(1.0), elapsed: 3, half_life: 10 };
    assert_eq!(manager.decay("gpu0", 8), decay);
    manager.admission("gpu0", 8, score(0.5));
    assert_eq!(manager.decay("gpu0", 8), keep(0.5));

    let mut steady = BackpressureManager::new(BackpressureConfig {
        decay_half_life: 0,
        ..config
    });
    steady.rescore("gpu0", score(1.0));
    assert_eq!(steady.decay("gpu0", 9), keep(1.0));
}

#[test]
fn decay_times_add_up() {
    let config = BackpressureConfig {
        decay_half_life: 10,
        ..BackpressureConfig::default()
    };
    let mut manager = BackpressureManager::new(config);
    manager.admission("gpu0", 5, score(1.0));
    for (now, expected) in [(8, 3), (20, 12)] {
        match manager.decay("gpu0", now) {
            Rescore::Decay { elapsed, .. } => assert_eq!(elapsed, expected),
            other => panic!("no decay: {:?}", other),
        }
        manager.admission("gpu0", now, score(1.0));
    }
}

#[test]
fn only_a_score_above_the_threshold_is_denied() {
    let mut mgr = steady(100, 1, 1.0);
    mgr.report_signal("gpu0", PressureSignal::AllocationFailure);
    assert_eq!(mgr.admission("gpu0"), Admission::Allow);
    mgr.report_signal("gpu0", PressureSignal::TransferFailure);
    assert_eq!(mgr.admission("gpu0"), Admission::Backpressure);
}

#[test]
fn only_signals_in_a_row_count() {
    let mut mgr = steady(2, 2, 100.0);
    for _ in 0..3 {
        mgr.report_pressure("gpu0");
        mgr.report_success("gpu0");
        assert_eq!(mgr.admission("gpu0"), Admission::Allow);
    }
    mgr.report_pressure("gpu0");
    assert_eq!(mgr.admission("gpu0"), Admission::Allow);
    mgr.report_pressure("gpu0");
    assert_eq!(mgr.admission("gpu0"), Admission::Backpressure);
}

#[test]
fn successes_in_a_row_clear_denial() {
    let mut mgr = steady(1, 2, 100.0);
    for _ in 0..3 {
        mgr.report_pressure("gpu0");
    }
    mgr.report_success("gpu0");
    assert_eq!(mgr.admission("gpu0"), Admission::Backpressure);
    // a signal in between starts the count of successes again
    mgr.report_pressure("gpu0");
    mgr.report_success("gpu0");
    assert_eq!(mgr.admission("gpu0"), Admission::Backpressure);
    mgr.report_success("gpu0");
    assert_eq!(mgr.admission("gpu0"), Admission::Allow);
}

#[test]
fn successes_keep_devices_admitted() {
    let mut mgr = steady(2, 3, 1.0);
    mgr.report_signal("gpu0", PressureSignal::EnqueueFailure);
    for _ in 0..5 {
        assert_eq!(mgr.admission("gpu0"), Admission::Allow);
        mgr.report_success("gpu0");
    }
    assert_eq!(mgr.admission("gpu0"), Admission::Allow);
}

#[test]
fn release_without_acquire_changes_nothing() {
    let zero = score(0.0);
    let mut manager = BackpressureManager::new(BackpressureConfig {
        max_inflight: 1,
        ..BackpressureConfig::default()
    });
    manager.release("gpu0");
    assert!(manager.try_acquire("gpu0", 0, zero));
    assert!(!manager.try_acquire("gpu0", 0, zero));
    assert_eq!(DeviceState::default().inflight, 0);
}
