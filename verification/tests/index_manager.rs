use opcda_bridge_gateway::config::{InitialBuildPolicy, ResolvedIndexConfig};
use opcda_bridge_gateway::controller::{
    AdaptiveIndexController, ControllerObservation, HostMetrics, HostMetricsProvider, PauseReason,
};
use opcda_bridge_gateway::index::background::{
    active_profile_changed, next_round, BackgroundTaskState, DueAction, DueStep,
};
use opcda_bridge_gateway::index::builds::{duty_shares, timeout_message};
use opcda_bridge_gateway::index::generations::{
    is_storable_table, promote_with_profile, start_generation, start_generation_after,
    GenerationRow, GenerationState,
};
use opcda_bridge_gateway::index::health::{
    next_nap, outside_maintenance, read_sentinel, recovery_pacing_failure, recovery_step,
    HealthStep, HealthWatch, ProbeOutcome, RecoveryStep, SentinelReading,
};
use opcda_bridge_gateway::index::lookup::SearchBegin;
use opcda_bridge_gateway::index::manager::{IndexControlAction, IndexManager};
use opcda_bridge_gateway::index::profile::StoredIndexProfile;
use opcda_bridge_gateway::index::runtime::{
    BuildCoordination, HealthProbeState, PauseCommand, RuntimeBuild, RuntimeState,
};
use opcda_bridge_gateway::index::schedule::parse_maintenance_windows;
use opcda_bridge_gateway::index::search::IndexedMatch;
use opcda_bridge_gateway::index::status::{IndexState, IndexStatus};
use opcda_bridge_gateway::index::storage::{RetryState, StorageDiagnostics};
use opcda_bridge_gateway::measurement::Measurement;
use opcda_bridge_gateway::opc::{
    BrowseSource, InventoryNodeKind, InventoryProgress, InventorySliceBackend, InventorySliceObservation,
    NamespaceOrganization, TagValue,
};
use opcda_bridge_gateway::time::{Duration, Instant, SystemTime};

const NOW: Instant = Instant {
    nanos: 5_000_000_000_000,
};

const WALL: SystemTime = SystemTime {
    nanos: 1_700_000_000_000_000_000,
};

fn settings() -> ResolvedIndexConfig {
    ResolvedIndexConfig {
        database_path: ":memory:".into(),
        servers: vec!["S".into()],
        enabled: true,
        refresh_interval_seconds: 604_800,
        initial_build_policy: InitialBuildPolicy::Immediate,
        startup_grace_period_seconds: 0,
        schedule_jitter_seconds: 0,
        inventory_batch_size: 100,
        commit_batch_size: 100,
        commit_interval_ms: 1_000,
        batch_size: 100,
        item_rate_limit: 0,
        burst_size: 100,
        duty_cycle_percent: 100,
        adaptive: false,
        minimum_item_rate: 10,
        minimum_batch_size: 1,
        minimum_duty_cycle_percent: 1,
        canary_item_rate: 50,
        canary_batch_size: 25,
        canary_duty_cycle_percent: 5,
        adaptive_healthy_window_seconds: 30,
        adaptive_recovery_delay_seconds: 30,
        adaptive_max_recovery_delay_seconds: 300,
        sentinel_tag: None,
        sentinel_probe_interval_seconds: 30,
        minimum_free_space_bytes: 0,
        storage_headroom_bytes: 0,
        circuit_failure_threshold: 3,
        circuit_open_seconds: 300,
        quiet_period_seconds: 0,
        health_probe_interval_seconds: 30,
        health_latency_threshold_ms: 500,
        operation_timeout_seconds: 30,
        maintenance_windows: Vec::new(),
        concurrency: 1,
        query_cache_capacity: 256,
        paused: false,
        max_results: 50,
    }
}

fn storage() -> StorageDiagnostics {
    StorageDiagnostics::of_files(Some(10), None, None, Some(1_000))
}

fn status_of(manager: &IndexManager, rows: &Vec<GenerationRow>) -> IndexStatus {
    manager.status(
        "S",
        rows,
        None,
        storage(),
        HostMetrics::default(),
        NOW,
        WALL,
    )
}

fn building(control: u64) -> (IndexManager, BuildCoordination) {
    let mut manager = IndexManager::new(settings());
    let mut coordination = BuildCoordination::new();
    manager
        .reserve_build(&mut coordination, "S", 7, WALL)
        .unwrap();
    manager.attach_control("S", control).unwrap();
    (manager, coordination)
}

fn build_of<'a>(manager: &'a IndexManager) -> &'a RuntimeBuild {
    manager.runtime.get("S").unwrap().build.as_ref().unwrap()
}

fn active_rows(completed_at: &str) -> Vec<GenerationRow> {
    let mut rows = Vec::new();
    let generation = start_generation(
        &mut rows,
        NamespaceOrganization::Hierarchical,
        BrowseSource::Da2,
        "1699999990000".into(),
    )
    .unwrap();
    promote_with_profile(&mut rows, generation, completed_at.into(), 3, None, None).unwrap();
    rows
}

#[test]
fn slice_observations_feed_adaptive_controller_health_state() {
    let manager = IndexManager::new(settings());
    let slice = InventorySliceObservation {
        sequence: 1,
        backend: InventorySliceBackend::Da2,
        nodes_returned: 0,
        has_more: false,
        native_operations: 0,
        elapsed_ms: 1,
        entries_seen: 0,
        unique_items: 0,
    };
    let observation =
        manager.controller_observation_for_slice("S", &slice, None, HostMetrics::default(), NOW);
    assert!(observation.inventory_error);
    assert!(!observation.foreground_active);
}

#[test]
fn controller_observation_includes_recent_bad_quality() {
    let mut manager = IndexManager::new(settings());
    manager.record_foreground_operation_with_health(
        "S",
        NOW,
        Duration::from_millis(10),
        false,
        true,
        false,
    );
    let observation =
        manager.controller_observation("S", false, None, HostMetrics::default(), NOW);
    assert!(observation.foreground_bad_quality);
    assert!(!observation.foreground_error);
}

struct FixedHostMetrics;

impl HostMetricsProvider for FixedHostMetrics {
    fn snapshot(&self) -> HostMetrics {
        let reading = |value: f64| {
            Some(Measurement {
                bits: value.to_bits(),
            })
        };
        HostMetrics {
            cpu_percent: reading(1.0),
            available_memory_percent: reading(99.0),
            disk_active_percent: reading(2.0),
            disk_queue: reading(0.0),
            ..HostMetrics::default()
        }
    }
}

#[test]
fn public_metric_and_invalid_maintenance_helpers_are_exercised() {
    let mut manager = IndexManager::new(settings());
    manager.record_foreground_operation("S", NOW, Duration::from_millis(2), true, true);
    let observation =
        manager.controller_observation("S", false, None, FixedHostMetrics.snapshot(), NOW);
    assert!(observation.foreground_error);
    assert!(observation.foreground_bad_quality);
    assert_eq!(
        observation.host_cpu_percent,
        Some(Measurement {
            bits: 1.0f64.to_bits()
        })
    );

    let mut invalid = settings();
    invalid.maintenance_windows = vec!["not-a-window".into()];
    assert!(!opcda_bridge_gateway::index::schedule::maintenance_window_is_open(
        &invalid.maintenance_windows,
        12,
        0
    ));
}

#[test]
fn background_indexing_respects_disabled_paused_and_idempotent_start() {
    let mut disabled = settings();
    disabled.enabled = false;
    assert!(!IndexManager::new(disabled).start_background_indexing(false));
    let mut paused = settings();
    paused.paused = true;
    assert!(!IndexManager::new(paused).start_background_indexing(false));
    let manager = IndexManager::new(settings());
    assert!(manager.start_background_indexing(false));
    assert!(!manager.start_background_indexing(true));
}

#[test]
fn finish_build_checks_control_identity_without_an_ownership_token() {
    let (mut manager, mut coordination) = building(1);
    coordination.build_owners.remove("S");
    assert!(!manager.finish_build(&mut coordination, "S", Some(2), None, None, WALL));
    assert!(manager.runtime.get("S").unwrap().build.is_some());
    assert!(manager.finish_build(&mut coordination, "S", None, None, None, WALL));
    assert!(manager.runtime.get("S").unwrap().build.is_none());
    assert!(!coordination.build_active());
}

#[test]
fn obsolete_owners_do_not_finish_a_build() {
    let (mut manager, mut coordination) = building(1);
    assert!(!manager.finish_build(&mut coordination, "S", None, Some(8), None, WALL));
    assert!(manager.runtime.get("S").unwrap().build.is_some());
    assert!(manager.finish_build(&mut coordination, "S", Some(1), Some(7), None, WALL));
    assert!(!coordination.build_active());
}

#[test]
fn failures_open_the_circuit_and_success_closes_it() {
    let mut manager = IndexManager::new(settings());
    let mut coordination = BuildCoordination::new();
    for round in 1..=3u32 {
        manager
            .reserve_build(&mut coordination, "S", 7, WALL)
            .unwrap();
        assert!(manager.finish_build(
            &mut coordination,
            "S",
            None,
            Some(7),
            Some("boom".into()),
            WALL
        ));
        let retry = manager.retry_state_of("S");
        assert_eq!(retry.consecutive_failures, round);
        assert_eq!(retry.circuit_open, round >= 3);
        assert!(retry.retry_after.is_some());
    }
    assert_eq!(
        manager.runtime.get("S").unwrap().last_error.as_deref(),
        Some("boom")
    );
    manager
        .reserve_build(&mut coordination, "S", 7, WALL)
        .unwrap();
    assert!(manager.finish_build(&mut coordination, "S", None, Some(7), None, WALL));
    assert_eq!(
        manager.retry_state_of("S"),
        RetryState {
            retry_after: None,
            consecutive_failures: 0,
            circuit_open: false
        }
    );
}

#[test]
fn slots_and_owners_are_exclusive() {
    let mut first = IndexManager::new(settings());
    let mut second = IndexManager::new(settings());
    let mut coordination = BuildCoordination::new();
    first.reserve_build(&mut coordination, "S", 1, WALL).unwrap();
    assert_eq!(
        second
            .reserve_build(&mut coordination, "S", 2, WALL)
            .unwrap_err(),
        "index build owner is already registered in this process for server S"
    );
    assert_eq!(
        second
            .reserve_build(&mut coordination, "T", 2, WALL)
            .unwrap_err(),
        "namespace index build concurrency limit reached"
    );
    assert!(first.finish_build(&mut coordination, "S", None, Some(1), None, WALL));
    assert!(second.reserve_build(&mut coordination, "T", 2, WALL).is_ok());
}

#[test]
fn pause_overlays_compose_and_the_operator_wins() {
    let (mut manager, _) = building(9);
    assert_eq!(
        manager.set_pause_overlay("S", Some(true), None, NOW),
        Some(PauseCommand {
            control: 9,
            pause: true
        })
    );
    assert_eq!(
        build_of(&manager).pause_reason,
        Some(PauseReason::Maintenance)
    );
    manager.set_pause_overlay("S", None, Some(true), NOW);
    manager.set_pause_overlay("S", Some(false), None, NOW);
    assert_eq!(build_of(&manager).pause_reason, Some(PauseReason::OpcHealth));
    assert!(manager.health_overlay_active("S"));
    let outcome = manager
        .control("S", IndexControlAction::Pause, NOW)
        .unwrap();
    assert_eq!(outcome.cancel, None);
    assert_eq!(build_of(&manager).pause_reason, Some(PauseReason::Operator));
    assert!(!manager.build_may_run("S", NOW));
    manager.clear_pause_overlays("S");
    let resumed = manager
        .control("S", IndexControlAction::Resume, NOW)
        .unwrap();
    assert_eq!(
        resumed.pause,
        Some(PauseCommand {
            control: 9,
            pause: false
        })
    );
    assert!(manager.build_may_run("S", NOW));
}

#[test]
fn cancelling_reaches_the_control_or_waits_for_it() {
    let (mut manager, _) = building(9);
    let outcome = manager
        .control("S", IndexControlAction::Cancel, NOW)
        .unwrap();
    assert_eq!(outcome.cancel, Some(9));
    let mut unattached = IndexManager::new(settings());
    let mut coordination = BuildCoordination::new();
    unattached
        .reserve_build(&mut coordination, "S", 1, WALL)
        .unwrap();
    let outcome = unattached
        .control("S", IndexControlAction::Cancel, NOW)
        .unwrap();
    assert_eq!(outcome.cancel, None);
    assert!(unattached.take_pending_cancel("S"));
    assert!(!unattached.take_pending_cancel("S"));
    assert_eq!(
        unattached
            .control("T", IndexControlAction::Pause, NOW)
            .unwrap_err(),
        "server is not configured for namespace indexing"
    );
}

#[test]
fn foreground_work_pauses_builds_until_it_is_quiet() {
    let mut quiet = settings();
    quiet.quiet_period_seconds = 2;
    let mut manager = IndexManager::new(quiet);
    let mut coordination = BuildCoordination::new();
    manager
        .reserve_build(&mut coordination, "S", 7, WALL)
        .unwrap();
    manager.attach_control("S", 3).unwrap();
    let pause = Some(PauseCommand {
        control: 3,
        pause: true,
    });
    assert_eq!(manager.foreground_guard("S", NOW), pause);
    assert_eq!(manager.foreground_count("S"), 1);
    assert!(manager.foreground_active("S"));
    manager.foreground_guard("S", NOW);
    assert_eq!(manager.foreground_count("S"), 2);
    manager.foreground_end("S", NOW);
    assert!(manager.foreground_active("S"));
    manager.foreground_end("S", NOW);
    assert!(!manager.foreground_active("S"));
    assert!(!manager.build_may_run("S", NOW.plus(Duration::from_secs(1))));
    let later = NOW.plus(Duration::from_secs(2));
    assert_eq!(
        manager.foreground_quiet_elapsed("S", later),
        Some(PauseCommand {
            control: 3,
            pause: false
        })
    );
    assert!(manager.build_may_run("S", later));
}

#[test]
fn shutdown_reaches_every_running_build() {
    let (manager, _) = building(9);
    assert_eq!(manager.running_controls(), vec![9]);
    assert!(IndexManager::new(settings()).running_controls().is_empty());
}

#[test]
fn persisted_retries_are_adopted_unless_a_build_runs() {
    let persisted = RetryState {
        retry_after: SystemTime::checked_add(WALL, Duration::from_secs(60)),
        consecutive_failures: 2,
        circuit_open: false,
    };
    let mut manager = IndexManager::new(settings());
    manager.load_persisted_retry_state("S", persisted, WALL);
    assert_eq!(manager.retry_state_of("S"), persisted);
    let (mut busy, _) = building(1);
    busy.load_persisted_retry_state("S", persisted, WALL);
    assert_eq!(busy.retry_state_of("S").consecutive_failures, 0);
}

#[test]
fn status_tells_rows_and_runtime_apart() {
    let manager = IndexManager::new(settings());
    let nothing = status_of(&manager, &Vec::new());
    assert_eq!(nothing.state, IndexState::NotIndexed);
    assert_eq!(nothing.active_generation, 0);
    assert!(nothing.configured);

    let ready = status_of(&manager, &active_rows("1699999999000"));
    assert_eq!(ready.state, IndexState::Ready);
    assert_eq!(ready.active_generation, 1);
    assert_eq!(ready.entry_count, 3);
    assert_eq!(ready.database_bytes, 10);

    let stale = status_of(&manager, &active_rows("1600000000000"));
    assert_eq!(stale.state, IndexState::Stale);

    let mut staging = active_rows("1699999999000");
    start_generation(
        &mut staging,
        NamespaceOrganization::Hierarchical,
        BrowseSource::Da2,
        "1699999999500".into(),
    )
    .unwrap();
    assert_eq!(status_of(&manager, &staging).state, IndexState::Ready);
    let (running, _) = building(1);
    assert_eq!(
        status_of(&running, &staging).state,
        IndexState::Refreshing
    );

    let (mut promoting, _) = building(1);
    promoting.mark_promoting("S");
    assert!(promoting.is_promoting("S"));
    assert_eq!(
        status_of(&promoting, &active_rows("1699999999000")).state,
        IndexState::Promoting
    );
    promoting.clear_promoting("S");
    assert!(!promoting.is_promoting("S"));

    let other = manager.status(
        "T",
        &Vec::new(),
        None,
        storage(),
        HostMetrics::default(),
        NOW,
        WALL,
    );
    assert!(!other.configured);
    assert_eq!(other.state, IndexState::NotIndexed);
}

#[test]
fn runtime_errors_show_up_in_the_status() {
    let (mut manager, mut coordination) = building(1);
    let partial = status_of(&manager, &Vec::new());
    assert_eq!(partial.state, IndexState::Partial);
    assert!(manager.finish_build(
        &mut coordination,
        "S",
        None,
        Some(7),
        Some("inventory failed".into()),
        WALL
    ));
    let failed = status_of(&manager, &Vec::new());
    assert_eq!(failed.state, IndexState::Failed);
    assert_eq!(failed.last_error.as_deref(), Some("inventory failed"));
    assert_eq!(failed.scheduler.consecutive_failures, 1);
    assert!(failed.scheduler.retry_after.is_some());
    let with_rows = status_of(&manager, &active_rows("1699999999000"));
    assert_eq!(with_rows.state, IndexState::Failed);
    assert_eq!(with_rows.active_generation, 1);
    assert_eq!(with_rows.last_error.as_deref(), Some("inventory failed"));
}

#[test]
fn due_refreshes_follow_state_and_policy() {
    let manager = IndexManager::new(settings());
    let nothing = status_of(&manager, &Vec::new());
    assert!(manager.automatic_refresh_allowed(&nothing, false));
    assert_eq!(manager.refresh_if_due(&nothing, false), DueStep::Refresh);
    let ready = status_of(&manager, &active_rows("1699999999000"));
    assert_eq!(
        manager.refresh_after_probe(&ready, false, true),
        DueAction::Nothing
    );

    let mut manual = settings();
    manual.initial_build_policy = InitialBuildPolicy::Manual;
    let manual = IndexManager::new(manual);
    assert!(!manual.automatic_refresh_allowed(&nothing, true));
    assert_eq!(manual.refresh_if_due(&nothing, true), DueStep::Nothing);

    let mut windowed = settings();
    windowed.initial_build_policy = InitialBuildPolicy::MaintenanceWindow;
    windowed.maintenance_windows = vec!["08:00-09:00".into()];
    let windowed = IndexManager::new(windowed);
    assert!(!windowed.automatic_refresh_allowed(&nothing, false));
    assert!(windowed.automatic_refresh_allowed(&nothing, true));
}

#[test]
fn changed_profiles_are_noticed() {
    let stored = StoredIndexProfile {
        organization: NamespaceOrganization::Hierarchical,
        source: BrowseSource::Da2,
        compatibility_fallback: false,
    };
    assert!(active_profile_changed(
        Some(stored),
        NamespaceOrganization::Hierarchical,
        BrowseSource::Da3
    ));
    assert!(!active_profile_changed(
        Some(stored),
        NamespaceOrganization::Hierarchical,
        BrowseSource::Da2
    ));
    assert!(!active_profile_changed(
        None,
        NamespaceOrganization::Flat,
        BrowseSource::Flat
    ));
}

#[test]
fn background_tasks_are_counted_and_refused_after_shutdown() {
    let mut tasks = BackgroundTaskState::new();
    assert!(tasks.start());
    assert!(tasks.start());
    assert!(!tasks.finish());
    assert!(tasks.request_shutdown());
    assert!(!tasks.request_shutdown());
    assert!(tasks.is_shutting_down());
    assert!(!tasks.start());
    assert!(tasks.finish());
}

fn found(item_id: &str) -> IndexedMatch {
    IndexedMatch {
        item_id: item_id.into(),
        display_name: item_id.into(),
        kind: InventoryNodeKind::Item,
        breadcrumbs: vec![],
    }
}

#[test]
fn manager_search_uses_cache_and_forgets_it_on_refresh() {
    let mut manager = IndexManager::new(settings());
    let rows = active_rows("1699999999000");
    let status = status_of(&manager, &rows);
    let run = match manager.begin_search("S", "  PuMp ", 3, 2, status, Some(1)) {
        SearchBegin::Run(run) => run,
        other => panic!("unexpected {other:?}"),
    };
    assert_eq!(run.key.query, "pump");
    assert_eq!(run.key.limit, 2);
    let answer = manager.finish_search(run, vec![found("a"), found("b"), found("c")]);
    assert!(answer.has_more);
    assert_eq!(answer.matches, vec![found("a"), found("b")]);

    let status = status_of(&manager, &rows);
    match manager.begin_search("S", "pump", 3, 2, status, Some(1)) {
        SearchBegin::Answered(cached) => {
            assert!(cached.has_more);
            assert_eq!(cached.matches, vec![found("a"), found("b")]);
        }
        other => panic!("unexpected {other:?}"),
    }
    manager.forget_answers("S");
    let status = status_of(&manager, &rows);
    assert!(matches!(
        manager.begin_search("S", "pump", 3, 2, status, Some(1)),
        SearchBegin::Run(_)
    ));
}

#[test]
fn searches_are_refused_or_answered_without_an_index() {
    let mut manager = IndexManager::new(settings());
    let status = status_of(&manager, &Vec::new());
    match manager.begin_search("S", "  ", 3, 2, status, None) {
        SearchBegin::Refused(message) => assert_eq!(message, "search query must not be empty"),
        other => panic!("unexpected {other:?}"),
    }
    let status = status_of(&manager, &Vec::new());
    match manager.begin_search("S", "pump", 3, 0, status, None) {
        SearchBegin::Answered(answer) => {
            assert!(answer.matches.is_empty());
            assert!(!answer.has_more);
            assert_eq!(answer.status.state, IndexState::NotIndexed);
        }
        other => panic!("unexpected {other:?}"),
    }
    let status = status_of(&manager, &Vec::new());
    match manager.begin_search("T", "pump", 3, 2, status, None) {
        SearchBegin::Answered(answer) => assert!(!answer.status.configured),
        other => panic!("unexpected {other:?}"),
    }
}

fn sample(quality: &str) -> TagValue {
    TagValue {
        tag_id: "Sentinel".into(),
        value: "1".into(),
        quality: quality.into(),
        timestamp: "now".into(),
    }
}

#[test]
fn health_waits_back_off_and_recover() {
    let mut watched = settings();
    watched.sentinel_tag = Some("Sentinel".into());
    let mut manager = IndexManager::new(watched);
    let mut coordination = BuildCoordination::new();
    manager
        .reserve_build(&mut coordination, "S", 7, WALL)
        .unwrap();
    manager.attach_control("S", 4).unwrap();
    let mut watch = HealthWatch::new(NOW);
    let action = manager.check_health("S", &watch, false, NOW);
    assert_eq!(action.step, HealthStep::Probe);
    assert!(manager.health_overlay_active("S"));
    let slow = ProbeOutcome {
        error: None,
        elapsed: Duration::from_millis(501),
        sentinel: None,
    };
    let action = manager.judge_health("S", &mut watch, &slow, NOW);
    assert_eq!(action.step, HealthStep::Wait(Duration::from_secs(1)));
    assert_eq!(watch.backoff, Duration::from_secs(2));
    let later = NOW.plus(Duration::from_secs(1));
    let failed = ProbeOutcome {
        error: Some("offline".into()),
        elapsed: Duration::from_millis(1),
        sentinel: None,
    };
    let action = manager.judge_health("S", &mut watch, &failed, later);
    assert_eq!(action.step, HealthStep::Wait(Duration::from_secs(2)));
    assert!(failed.reason(500).contains("offline"));
    let good = ProbeOutcome {
        error: None,
        elapsed: Duration::from_millis(10),
        sentinel: Some(SentinelReading::Good),
    };
    assert!(good.is_healthy(500));
    let action = manager.judge_health("S", &mut watch, &good, later);
    assert_eq!(action.step, HealthStep::Proceed);
    assert!(!manager.health_overlay_active("S"));
    assert_eq!(
        manager.runtime.get("S").unwrap().health,
        HealthProbeState::Healthy
    );
    let stopped = manager.check_health("S", &watch, true, later);
    assert_eq!(stopped.step, HealthStep::Stop);
}

#[test]
fn sentinels_must_read_good() {
    assert_eq!(read_sentinel(&vec![sample("Good")]), SentinelReading::Good);
    assert!(matches!(
        read_sentinel(&vec![sample("Bad")]),
        SentinelReading::Bad(_)
    ));
    assert!(matches!(
        read_sentinel(&Vec::new()),
        SentinelReading::Bad(_)
    ));
}

#[test]
fn recovery_waits_for_its_deadline() {
    let manager = IndexManager::new(settings());
    let config = manager.controller_config();
    let mut controller = AdaptiveIndexController::new(config, NOW);
    assert_eq!(recovery_step(&controller, false, NOW), RecoveryStep::Proceed);
    controller.observe(
        NOW,
        ControllerObservation {
            inventory_error: true,
            ..ControllerObservation::default()
        },
    );
    assert_eq!(
        recovery_step(&controller, false, NOW),
        RecoveryStep::Wait(Duration::from_secs(30))
    );
    assert_eq!(recovery_step(&controller, true, NOW), RecoveryStep::Stop);
    assert_eq!(
        recovery_pacing_failure("stuck"),
        "unable to update inventory pacing while recovering: stuck"
    );
}

#[test]
fn naps_are_short_and_end_at_the_deadline() {
    let deadline = NOW.plus(Duration::from_millis(150));
    assert_eq!(next_nap(deadline, NOW), Some(Duration::from_millis(100)));
    assert_eq!(
        next_nap(deadline, NOW.plus(Duration::from_millis(100))),
        Some(Duration::from_millis(50))
    );
    assert_eq!(next_nap(deadline, deadline), None);
}

#[test]
fn duty_cycles_split_time_into_rest_and_work() {
    assert_eq!(duty_shares(100), None);
    assert_eq!(duty_shares(255), None);
    assert_eq!(duty_shares(20), Some((80, 20)));
    assert_eq!(duty_shares(0), Some((99, 1)));
    assert_eq!(
        timeout_message("start inventory", 30),
        "OPC namespace index start inventory timed out after 30 seconds"
    );
    let mut hasty = settings();
    hasty.operation_timeout_seconds = 0;
    assert_eq!(IndexManager::new(hasty).operation_timeout_seconds(), 1);
}

#[test]
fn new_servers_have_a_blank_state() {
    let state = RuntimeState::default();
    assert!(state.build.is_none());
    assert_eq!(state.health, HealthProbeState::Unavailable);
    let manager = IndexManager::new(settings());
    assert_eq!(manager.max_results(), 50);
    assert!(manager.is_configured("S"));
    assert_eq!(
        manager.require_configured("T").unwrap_err(),
        "server is not configured for namespace indexing"
    );
    assert_eq!(manager.foreground_snapshot("S").operations, 0);
}

#[test]
fn stopped_health_waits_clear_their_overlay() {
    let (mut manager, _) = building(4);
    let watch = HealthWatch::new(NOW);
    manager.check_health("S", &watch, false, NOW);
    assert!(manager.health_overlay_active("S"));
    let command = manager.stop_health_wait("S", NOW);
    assert_eq!(command, Some(PauseCommand {
            control: 4,
            pause: false,
        }));
    assert!(!manager.health_overlay_active("S"));
}

#[test]
fn recovering_builds_show_what_their_controller_decides() {
    let (mut manager, _) = building(4);
    let mut controller = AdaptiveIndexController::new(manager.controller_config(), NOW);
    let (decision, pacing, command) = manager.observe_recovery(
        "S",
        &mut controller,
        ControllerObservation {
            inventory_error: true,
            ..ControllerObservation::default()
        },
        NOW,
    );
    assert!(decision.paused);
    assert_eq!(decision.reason, Some(PauseReason::OpcHealth));
    assert_eq!(pacing.batch_size, Some(25));
    assert_eq!(command, Some(PauseCommand {
            control: 4,
            pause: true,
        }));
    let build = build_of(&manager);
    assert_eq!(build.effective_limits, Some(decision.limits));
    assert_eq!(build.controller_state, Some(decision.state));
    assert_eq!(
        build.recovery_deadline,
        Some(NOW.plus(Duration::from_secs(30)))
    );
}

#[test]
fn running_builds_remember_progress_and_commits() {
    let (mut manager, _) = building(4);
    let progress = InventoryProgress {
        branches_visited: 1,
        entries_seen: 2,
        unique_items: 2,
        active_time_ms: 3,
        paused_time_ms: 4,
        items_per_second: Measurement {
            bits: 5.0_f64.to_bits(),
        },
        estimated_remaining_ms: None,
    };
    manager.update_runtime_progress("S", progress);
    manager.record_commit_latency("S", Duration::from_millis(17));
    let build = build_of(&manager);
    assert_eq!(build.progress, Some(progress));
    assert_eq!(build.last_commit_latency_ms, Some(17));
    manager.update_runtime_progress("T", progress);
    assert!(manager.runtime.get("T").is_none());
}

#[test]
fn operations_are_recorded_as_long_as_they_can_be_counted() {
    let mut manager = IndexManager::new(settings());
    assert!(manager.can_record_operation("S", true, true));
    manager.record_foreground_operation("S", NOW, Duration::from_millis(5), true, false);
    assert!(manager.can_record_operation("S", true, true));
    assert_eq!(manager.foreground_snapshot("S").errors, 1);
}

#[test]
fn the_scheduler_waits_by_state_and_policy() {
    let mut manager = IndexManager::new(settings());
    let seconds = Duration::from_secs;
    let blank = status_of(&manager, &Vec::new());
    assert_eq!(
        manager.background_refresh_delay("S", Some(&blank), false, WALL),
        manager.background_refresh_delay("S", None, false, WALL)
    );
    let ready = status_of(&manager, &active_rows("1700000000000"));
    assert_eq!(ready.state, IndexState::Ready);
    assert_eq!(
        manager.background_refresh_delay("S", Some(&ready), false, WALL),
        seconds(604_800)
    );
    let stale = status_of(&manager, &active_rows("1600000000000"));
    assert_eq!(stale.state, IndexState::Stale);
    assert_eq!(
        manager.background_refresh_delay("S", Some(&stale), false, WALL),
        seconds(1)
    );
    manager.load_persisted_retry_state(
        "S",
        RetryState {
            retry_after: Some(SystemTime {
                nanos: WALL.nanos + 9_000_000_000,
            }),
            consecutive_failures: 1,
            circuit_open: false,
        },
        WALL,
    );
    assert_eq!(
        manager.background_refresh_delay("S", Some(&ready), false, WALL),
        seconds(9)
    );

    let mut manual = settings();
    manual.initial_build_policy = InitialBuildPolicy::Manual;
    let manual = IndexManager::new(manual);
    assert_eq!(
        manual.background_refresh_delay("S", Some(&blank), false, WALL),
        seconds(3_600)
    );
}

#[test]
fn builds_wait_for_a_maintenance_window() {
    let windows = parse_maintenance_windows(&vec!["22:00-02:00".into()]).unwrap();
    assert!(outside_maintenance(&windows, 12, 0));
    assert!(!outside_maintenance(&windows, 23, 30));
    assert!(!outside_maintenance(&windows, 1, 59));
    assert!(!outside_maintenance(&Vec::new(), 12, 0));
}

#[test]
fn generations_that_cannot_be_stored_are_told_apart() {
    let mut rows = active_rows("1700000000000");
    assert!(is_storable_table(&rows));
    rows.extend(active_rows("1700000000000"));
    assert!(!is_storable_table(&rows));
    rows[1].generation = u64::MAX;
    assert!(!is_storable_table(&rows));
    rows[1].generation = 2;
    assert!(is_storable_table(&rows));
}

#[test]
fn promotion_supersedes_every_active_generation() {
    let mut rows = active_rows("1700000000000");
    rows.extend(active_rows("1700000000000"));
    rows[1].generation = 2;
    let generation = start_generation_after(
        &mut rows,
        6,
        NamespaceOrganization::Flat,
        BrowseSource::Flat,
        "1".into(),
    )
    .unwrap();
    assert_eq!(generation, 7);
    promote_with_profile(&mut rows, generation, "2".into(), 3, None, None).unwrap();
    let active: Vec<u64> = rows
        .iter()
        .filter(|row| row.state == GenerationState::Active)
        .map(|row| row.generation)
        .collect();
    assert_eq!(active, [7]);
}

#[test]
fn cached_answers_become_the_most_recently_used() {
    let mut small = settings();
    small.query_cache_capacity = 2;
    let mut manager = IndexManager::new(small);
    let rows = active_rows("1700000000000");
    for query in ["a", "b"] {
        let status = status_of(&manager, &rows);
        match manager.begin_search("S", query, 0, 5, status, None) {
            SearchBegin::Run(run) => {
                manager.finish_search(run, vec![found(query)]);
            }
            other => panic!("unexpected {other:?}"),
        }
    }
    let status = status_of(&manager, &rows);
    assert!(matches!(
        manager.begin_search("S", "a", 0, 5, status, None),
        SearchBegin::Answered(_)
    ));
    let queries: Vec<&str> = manager
        .cache
        .entries
        .iter()
        .map(|entry| entry.0.query.as_str())
        .collect();
    assert_eq!(queries, ["b", "a"]);
}

#[test]
fn rounds_follow_the_server_that_is_due_first() {
    let seconds = Duration::from_secs;
    assert_eq!(next_round(&Vec::new()), seconds(60));
    assert_eq!(next_round(&vec![seconds(90), seconds(9), seconds(30)]), seconds(9));
    assert_eq!(next_round(&vec![seconds(90)]), seconds(60));
}
