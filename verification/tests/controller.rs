use opcda_bridge_gateway::controller::{
    AdaptiveIndexController, ControllerConfig, ControllerObservation, ControllerState, HostMetrics,
    HostMetricsProvider, InventoryLimits, PauseReason, UnavailableHostMetrics,
};
use opcda_bridge_gateway::measurement::Measurement;
use opcda_bridge_gateway::opc::MAX_NATIVE_INVENTORY_BATCH_SIZE;
use opcda_bridge_gateway::time::{Duration, Instant};

fn now() -> Instant {
    Instant {
        nanos: 1_000_000_000_000,
    }
}

fn reading(value: f64) -> Option<Measurement> {
    Some(Measurement {
        bits: value.to_bits(),
    })
}

fn healthy() -> ControllerObservation {
    ControllerObservation {
        baseline_latency_ms: Some(100),
        foreground_latency_ms: Some(100),
        ..ControllerObservation::default()
    }
}

#[test]
fn normalizes_invalid_limits_without_panicking() {
    let config = ControllerConfig {
        floor: InventoryLimits {
            item_rate_per_second: 0,
            batch_size: 0,
            duty_cycle_percent: 0,
        },
        canary: InventoryLimits {
            item_rate_per_second: 1,
            batch_size: 1,
            duty_cycle_percent: 1,
        },
        ceiling: InventoryLimits {
            item_rate_per_second: 0,
            batch_size: 0,
            duty_cycle_percent: 0,
        },
        unlimited_item_rate: false,
        healthy_window: Duration::zero(),
        recovery_delay: Duration::zero(),
        maximum_recovery_delay: Duration::zero(),
        foreground_latency_absolute_ms: 0,
    }
    .normalized();
    assert_eq!(config.floor.item_rate_per_second, 1);
    assert_eq!(config.floor.batch_size, 1);
    assert_eq!(config.floor.duty_cycle_percent, 1);
    assert_eq!(config.canary, config.floor);
    assert_eq!(config.ceiling, config.floor);
    assert_eq!(config.healthy_window, Duration::from_millis(1));
}

#[test]
fn preserves_unlimited_item_rate_when_adaptive_control_is_enabled() {
    let config = ControllerConfig {
        unlimited_item_rate: true,
        ..ControllerConfig::default()
    }
    .normalized();
    let started = now();
    let mut controller = AdaptiveIndexController::new(config, started);
    assert_eq!(controller.limits().item_rate_per_second, 0);
    let decision = controller.observe(started.plus(Duration::from_secs(31)), healthy());
    assert_eq!(decision.limits.item_rate_per_second, 0);
    assert_eq!(config.ceiling.item_rate_per_second, 0);
}

#[test]
fn clamps_native_batch_limits_to_the_upstream_ceiling() {
    let oversized = MAX_NATIVE_INVENTORY_BATCH_SIZE + 1;
    let config = ControllerConfig {
        floor: InventoryLimits {
            item_rate_per_second: 1,
            batch_size: oversized,
            duty_cycle_percent: 1,
        },
        canary: InventoryLimits {
            item_rate_per_second: 1,
            batch_size: oversized,
            duty_cycle_percent: 1,
        },
        ceiling: InventoryLimits {
            item_rate_per_second: 1,
            batch_size: u32::MAX,
            duty_cycle_percent: 1,
        },
        ..ControllerConfig::default()
    }
    .normalized();

    assert_eq!(config.floor.batch_size, MAX_NATIVE_INVENTORY_BATCH_SIZE);
    assert_eq!(config.canary.batch_size, MAX_NATIVE_INVENTORY_BATCH_SIZE);
    assert_eq!(config.ceiling.batch_size, MAX_NATIVE_INVENTORY_BATCH_SIZE);
}

#[test]
fn starts_at_the_canary_profile_and_increases_after_healthy_window() {
    let started = now();
    let config = ControllerConfig {
        healthy_window: Duration::from_secs(10),
        ..ControllerConfig::default()
    };
    let mut controller = AdaptiveIndexController::new(config, started);
    assert_eq!(controller.state(), ControllerState::Ramping);
    assert_eq!(controller.limits(), config.canary);

    let before = controller.observe(started.plus(Duration::from_secs(9)), healthy());
    assert!(!before.transitioned);
    let after = controller.observe(started.plus(Duration::from_secs(10)), healthy());
    assert!(after.transitioned);
    assert!(after.limits.item_rate_per_second > config.canary.item_rate_per_second);
}

#[test]
fn soft_pressure_halves_limits_and_holds_them() {
    let started = now();
    let mut controller = AdaptiveIndexController::new(ControllerConfig::default(), started);
    let decision = controller.observe(
        started.plus(Duration::from_secs(1)),
        ControllerObservation {
            host_cpu_percent: reading(75.0),
            ..healthy()
        },
    );
    assert_eq!(decision.state, ControllerState::Throttled);
    assert_eq!(decision.reason, Some(PauseReason::HostCpu));
    assert!(decision.limits.item_rate_per_second < 50);
    let held = controller.observe(
        started.plus(Duration::from_secs(2)),
        ControllerObservation {
            host_cpu_percent: reading(50.0),
            ..healthy()
        },
    );
    assert_eq!(held.state, ControllerState::Throttled);
    assert_eq!(held.limits, decision.limits);
}

#[test]
fn hard_pressure_pauses_and_recovers_at_canary() {
    let started = now();
    let config = ControllerConfig {
        recovery_delay: Duration::from_secs(5),
        ..ControllerConfig::default()
    };
    let mut controller = AdaptiveIndexController::new(config, started);
    let paused = controller.observe(
        started.plus(Duration::from_secs(1)),
        ControllerObservation {
            foreground_bad_quality: true,
            ..healthy()
        },
    );
    assert_eq!(
        paused.state,
        ControllerState::Paused(PauseReason::OpcHealth)
    );
    assert!(paused.paused);
    let held = controller.observe(started.plus(Duration::from_secs(6)), healthy());
    assert_eq!(held.state, ControllerState::Ramping);
    assert_eq!(held.limits, config.canary);
    assert!(!held.paused);
}

#[test]
fn foreground_work_pauses_without_consuming_health_backoff() {
    let started = now();
    let mut controller = AdaptiveIndexController::new(ControllerConfig::default(), started);
    let paused = controller.observe(
        started.plus(Duration::from_secs(1)),
        ControllerObservation {
            foreground_active: true,
            ..healthy()
        },
    );
    assert_eq!(
        paused.state,
        ControllerState::Paused(PauseReason::Foreground)
    );
    assert_eq!(paused.recovery_at, None);
    let resumed = controller.observe(started.plus(Duration::from_secs(2)), healthy());
    assert_eq!(resumed.state, ControllerState::Ramping);
    assert_eq!(resumed.recovery_at, None);
}

#[test]
fn hard_guardrails_have_typed_priority_and_unavailable_metrics_are_ignored() {
    let started = now();
    let mut controller = AdaptiveIndexController::new(ControllerConfig::default(), started);
    let decision = controller.observe(
        started.plus(Duration::from_secs(1)),
        ControllerObservation {
            host_cpu_percent: reading(95.0),
            available_memory_percent: reading(50.0),
            disk_active_percent: None,
            ..healthy()
        },
    );
    assert_eq!(decision.reason, Some(PauseReason::HostCpu));

    let mut controller = AdaptiveIndexController::new(ControllerConfig::default(), started);
    let decision = controller.observe(
        started.plus(Duration::from_secs(1)),
        ControllerObservation {
            available_memory_percent: reading(50.0),
            ..healthy()
        },
    );
    assert!(!decision.paused);
}

#[test]
fn unavailable_host_metrics_are_explicit() {
    assert_eq!(UnavailableHostMetrics.snapshot(), HostMetrics::default());
}

#[test]
fn pause_reasons_have_stable_names() {
    assert_eq!(PauseReason::Foreground.as_str(), "foreground");
    assert_eq!(PauseReason::HostCpu.as_str(), "host_cpu");
    assert_eq!(PauseReason::OpcHealth.as_str(), "opc_health");
}

#[test]
fn normal_form_is_reached_in_one_step() {
    let config = ControllerConfig {
        recovery_delay: Duration::from_secs(90),
        maximum_recovery_delay: Duration::from_secs(1),
        ..ControllerConfig::default()
    };
    let once = config.normalized();
    assert_eq!(once.maximum_recovery_delay, Duration::from_secs(90));
    assert_eq!(once.normalized(), once);
}

#[test]
fn repeated_hard_pressure_doubles_the_recovery_delay_up_to_the_maximum() {
    let started = now();
    let config = ControllerConfig {
        recovery_delay: Duration::from_secs(5),
        maximum_recovery_delay: Duration::from_secs(8),
        ..ControllerConfig::default()
    };
    let mut controller = AdaptiveIndexController::new(config, started);
    let bad = ControllerObservation {
        inventory_error: true,
        ..healthy()
    };
    let first = controller.observe(started, bad);
    assert_eq!(first.recovery_at, Some(started.plus(Duration::from_secs(5))));
    let held = controller.observe(started.plus(Duration::from_secs(4)), healthy());
    assert!(held.paused);
    assert_eq!(held.recovery_at, first.recovery_at);
    let later = started.plus(Duration::from_secs(5));
    let second = controller.observe(later, bad);
    assert_eq!(second.recovery_at, Some(later.plus(Duration::from_secs(8))));
}

#[test]
fn limits_stay_between_floor_and_ceiling() {
    let started = now();
    let config = ControllerConfig::default();
    let mut controller = AdaptiveIndexController::new(config, started);
    let mut at = started;
    for round in 0..40 {
        at = at.plus(Duration::from_secs(60));
        let observation = if round % 5 == 0 {
            ControllerObservation {
                host_cpu_percent: reading(80.0),
                ..healthy()
            }
        } else {
            healthy()
        };
        let limits = controller.observe(at, observation).limits;
        assert!(limits.item_rate_per_second >= config.floor.item_rate_per_second);
        assert!(limits.item_rate_per_second <= config.ceiling.item_rate_per_second);
        assert!(limits.batch_size >= config.floor.batch_size);
        assert!(limits.batch_size <= config.ceiling.batch_size);
    }
}

#[test]
fn measurements_compare_like_the_numbers_they_encode() {
    let of = |value: f64| Measurement {
        bits: value.to_bits(),
    };
    assert!(of(75.0).at_least(75));
    assert!(!of(74.999).at_least(75));
    assert!(of(20.0).at_most(20));
    assert!(!of(20.001).at_most(20));
    assert!(of(0.0).at_least(0));
    assert!(of(-0.0).at_least(0));
    assert!(!of(-1.5).at_least(0));
    assert!(of(-1.5).at_most(0));
    assert!(of(f64::INFINITY).at_least(u32::MAX));
    assert!(!of(f64::NAN).at_least(0));
    assert!(!of(f64::NAN).at_most(u32::MAX));
}

#[test]
fn work_resumes_after_the_foreground() {
    let started = now();
    let mut controller = AdaptiveIndexController::new(ControllerConfig::default(), started);
    controller.observe(
        started,
        ControllerObservation {
            inventory_error: true,
            ..healthy()
        },
    );
    let limits = controller.limits();
    let paused = controller.observe(
        started,
        ControllerObservation {
            foreground_active: true,
            inventory_error: true,
            ..healthy()
        },
    );
    assert_eq!(paused.reason, Some(PauseReason::Foreground));
    assert_eq!(paused.recovery_at, None);
    let resumed = controller.observe(started.plus(Duration::from_secs(1)), healthy());
    assert_eq!(resumed.state, ControllerState::Ramping);
    assert_eq!(resumed.reason, None);
    assert_eq!(resumed.recovery_at, None);
    assert_eq!(resumed.limits, limits);
}

#[test]
fn guardrails_lie_beyond_pressure() {
    let controller = AdaptiveIndexController::new(ControllerConfig::default(), now());
    let hot = ControllerObservation {
        host_cpu_percent: reading(85.0),
        ..ControllerObservation::default()
    };
    assert_eq!(controller.hard_reason(hot), Some(PauseReason::HostCpu));
    assert_eq!(controller.soft_reason(hot), Some(PauseReason::HostCpu));
    let slow = ControllerObservation {
        database_commit_p95_ms: Some(1_000),
        ..ControllerObservation::default()
    };
    assert_eq!(controller.soft_reason(slow), Some(PauseReason::Database));
    let failing = ControllerObservation {
        foreground_error: true,
        inventory_error: true,
        insufficient_disk_space: true,
        ..ControllerObservation::default()
    };
    assert_eq!(controller.hard_reason(failing), Some(PauseReason::OpcHealth));
    assert_eq!(controller.soft_reason(failing), None);
}
