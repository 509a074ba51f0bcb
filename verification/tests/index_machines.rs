use opcda_bridge_gateway::config::{InitialBuildPolicy, ResolvedIndexConfig};
use opcda_bridge_gateway::index::cleanup::{
    CleanupNext, CleanupOutcome, CleanupPass, CleanupRegistry, CleanupStats, CleanupTaskState,
    CleanupWorker, PassAction, PassInput,
};
use opcda_bridge_gateway::index::inventory_run::{
    BuildAction, BuildConclusion, BuildInput, BuildOutcome, BuildRun,
};
use opcda_bridge_gateway::index::manager::{IndexControlAction, IndexManager};
use opcda_bridge_gateway::index::refresh::{RefreshAction, RefreshRun};
use opcda_bridge_gateway::index::runtime::BuildCoordination;
use opcda_bridge_gateway::index::storage::{RetryState, StorageDiagnostics};
use opcda_bridge_gateway::measurement::Measurement;
use opcda_bridge_gateway::opc::{
    BrowseSource, InventoryCompleted, InventoryEntry, InventoryEvent, InventoryNodeKind,
    InventoryProgress, InventorySliceBackend, InventorySliceObservation, NamespaceOrganization,
};
use opcda_bridge_gateway::time::{Duration, Instant, SystemTime};

const NOW: Instant = Instant {
    nanos: 5_000_000_000_000,
};

const WALL: SystemTime = SystemTime {
    nanos: 1_700_000_000_000_000_000,
};

const NO_RETRY: RetryState = RetryState {
    retry_after: None,
    consecutive_failures: 0,
    circuit_open: false,
};

fn settings() -> ResolvedIndexConfig {
    ResolvedIndexConfig {
        database_path: ":memory:".into(),
        servers: vec!["S".into()],
        enabled: true,
        refresh_interval_seconds: 604_800,
        initial_build_policy: InitialBuildPolicy::Immediate,
        startup_grace_period_seconds: 0,
        schedule_jitter_seconds: 0,
        inventory_batch_size: 100,
        commit_batch_size: 2,
        commit_interval_ms: 1_000,
        batch_size: 100,
        item_rate_limit: 0,
        burst_size: 100,
        duty_cycle_percent: 40,
        adaptive: false,
        minimum_item_rate: 10,
        minimum_batch_size: 1,
        minimum_duty_cycle_percent: 1,
        canary_item_rate: 50,
        canary_batch_size: 25,
        canary_duty_cycle_percent: 5,
        adaptive_healthy_window_seconds: 30,
        adaptive_recovery_delay_seconds: 30,
        adaptive_max_recovery_delay_seconds: 300,
        sentinel_tag: None,
        sentinel_probe_interval_seconds: 30,
        minimum_free_space_bytes: 100,
        storage_headroom_bytes: 50,
        circuit_failure_threshold: 3,
        circuit_open_seconds: 300,
        quiet_period_seconds: 0,
        health_probe_interval_seconds: 30,
        health_latency_threshold_ms: 500,
        operation_timeout_seconds: 30,
        maintenance_windows: Vec::new(),
        concurrency: 1,
        query_cache_capacity: 256,
        paused: false,
        max_results: 50,
    }
}

fn entry(item_id: &str) -> InventoryEntry {
    InventoryEntry {
        display_name: item_id.into(),
        item_id: item_id.into(),
        kind: InventoryNodeKind::Item,
        breadcrumbs: vec![],
    }
}

fn completed(complete: bool) -> InventoryEvent {
    InventoryEvent::Completed(InventoryCompleted {
        complete,
        cancelled: false,
        truncated: false,
        warning: Some("partial names".into()),
        organization: NamespaceOrganization::Flat,
        source: BrowseSource::Flat,
    })
}

/// Runs the waits before an event.
fn to_event(run: &mut BuildRun) {
    let step = run.step(BuildInput::Tick(NOW));
    assert_eq!(step.action, BuildAction::AwaitMaintenance);
    let step = run.step(BuildInput::MaintenanceOver(true));
    assert_eq!(step.action, BuildAction::AwaitHealth);
    let step = run.step(BuildInput::HealthOver(true));
    assert_eq!(
        step.action,
        BuildAction::AwaitEvent {
            timeout_seconds: 30
        }
    );
}

/// What a build that has come to its end comes to.
fn outcome(run: &mut BuildRun, control_cancelled: bool) -> BuildOutcome {
    match run.step(BuildInput::ControlState(control_cancelled)).action {
        BuildAction::Finish(outcome) => outcome,
        other => panic!("unexpected {other:?}"),
    }
}

#[test]
fn builds_commit_full_batches_and_are_promoted() {
    let mut run = BuildRun::new(&settings(), NOW);
    to_event(&mut run);
    let step = run.step(BuildInput::Received(InventoryEvent::Entry(entry("a"))));
    assert_eq!(step.action, BuildAction::AcquireRate);
    assert_eq!(
        run.step(BuildInput::RateAcquired(true)).action,
        BuildAction::Tick
    );
    to_event(&mut run);
    run.step(BuildInput::Received(InventoryEvent::Entry(entry("b"))));
    let step = run.step(BuildInput::RateAcquired(true));
    assert_eq!(step.action, BuildAction::Commit);
    assert_eq!(run.pending, vec![entry("a"), entry("b")]);
    let step = run.step(BuildInput::Committed {
        result: Ok(2),
        now: NOW,
    });
    assert_eq!(step.action, BuildAction::Tick);
    assert!(run.pending.is_empty());
    to_event(&mut run);
    let step = run.step(BuildInput::Received(completed(true)));
    assert_eq!(step.action, BuildAction::CheckControl);
    let step = run.step(BuildInput::ControlState(false));
    assert_eq!(
        step.action,
        BuildAction::Finish(BuildOutcome::Promote {
            items: 2,
            profile: Some((NamespaceOrganization::Flat, BrowseSource::Flat)),
            warning: Some("partial names".into()),
        })
    );
}

#[test]
fn pending_entries_are_committed_after_the_interval() {
    let mut run = BuildRun::new(&settings(), NOW);
    to_event(&mut run);
    run.step(BuildInput::Received(InventoryEvent::Entry(entry("a"))));
    run.step(BuildInput::RateAcquired(true));
    let later = NOW.plus(Duration::from_millis(1_000));
    let step = run.step(BuildInput::Tick(later));
    assert_eq!(step.action, BuildAction::Commit);
    let step = run.step(BuildInput::Committed {
        result: Err("disk full".into()),
        now: later,
    });
    assert_eq!(step.action, BuildAction::CheckControl);
    assert_eq!(
        outcome(&mut run, false),
        BuildOutcome::Fail("disk full".into())
    );
}

#[test]
fn progress_is_stored_and_the_duty_cycle_served() {
    let mut run = BuildRun::new(&settings(), NOW);
    to_event(&mut run);
    let progress = InventoryProgress {
        branches_visited: 1,
        entries_seen: 4,
        unique_items: 4,
        active_time_ms: 250,
        paused_time_ms: 0,
        items_per_second: Measurement {
            bits: 16.0f64.to_bits(),
        },
        estimated_remaining_ms: None,
    };
    let step = run.step(BuildInput::Received(InventoryEvent::Progress(progress)));
    assert_eq!(step.action, BuildAction::StoreProgress(progress));
    let step = run.step(BuildInput::ProgressStored(Ok(())));
    assert_eq!(
        step.action,
        BuildAction::ServeDuty {
            work: Duration::from_millis(250),
            duty_cycle_percent: 40
        }
    );
    assert_eq!(
        run.step(BuildInput::DutyServed(true)).action,
        BuildAction::Tick
    );
    to_event(&mut run);
    run.step(BuildInput::Received(InventoryEvent::Progress(progress)));
    assert_eq!(
        run.step(BuildInput::ProgressStored(Ok(()))).action,
        BuildAction::Tick,
        "no active time has passed since"
    );
}

#[test]
fn builds_end_in_failure_or_cancellation() {
    let mut silent = BuildRun::new(&settings(), NOW);
    to_event(&mut silent);
    let step = silent.step(BuildInput::StreamEnded);
    assert_eq!(step.action, BuildAction::CheckControl);
    assert!(matches!(outcome(&mut silent, false), BuildOutcome::Fail(_)));

    let mut stalled = BuildRun::new(&settings(), NOW);
    to_event(&mut stalled);
    let step = stalled.step(BuildInput::TimedOut);
    assert!(step.cancel_control);
    match outcome(&mut stalled, true) {
        BuildOutcome::Fail(message) => assert!(message.contains("30 seconds")),
        other => panic!("unexpected {other:?}"),
    }

    let mut broken = BuildRun::new(&settings(), NOW);
    to_event(&mut broken);
    broken.step(BuildInput::StreamFailed("lost".into()));
    assert_eq!(
        outcome(&mut broken, false),
        BuildOutcome::Fail("lost".into())
    );

    let mut cancelled = BuildRun::new(&settings(), NOW);
    cancelled.step(BuildInput::Tick(NOW));
    cancelled.step(BuildInput::MaintenanceOver(false));
    assert_eq!(
        outcome(&mut cancelled, true),
        BuildOutcome::Fail("inventory stream ended before completion".into())
    );

    let mut revoked = BuildRun::new(&settings(), NOW);
    to_event(&mut revoked);
    revoked.step(BuildInput::Received(completed(true)));
    assert_eq!(outcome(&mut revoked, true), BuildOutcome::Abandon);
}

#[test]
fn slices_pace_adaptive_builds() {
    let mut adaptive = settings();
    adaptive.adaptive = true;
    let mut run = BuildRun::new(&adaptive, NOW);
    run.step(BuildInput::Tick(NOW));
    run.step(BuildInput::MaintenanceOver(true));
    let step = run.step(BuildInput::HealthOver(true));
    assert_eq!(step.action, BuildAction::AwaitRecovery);
    run.step(BuildInput::RecoveryOver(Ok(true)));
    let slice = InventorySliceObservation {
        sequence: 9,
        backend: InventorySliceBackend::Da3,
        nodes_returned: 3,
        has_more: true,
        native_operations: 1,
        elapsed_ms: 5,
        entries_seen: 3,
        unique_items: 3,
    };
    let step = run.step(BuildInput::Received(InventoryEvent::Slice(slice)));
    assert_eq!(step.action, BuildAction::PaceSlice(slice));
    let step = run.step(BuildInput::SlicePaced {
        duty_cycle_percent: 7,
        result: Err("refused".into()),
    });
    assert!(step.cancel_control);
    assert_eq!(
        outcome(&mut run, true),
        BuildOutcome::Fail(
            "unable to update adaptive inventory pacing after slice 9: refused".into()
        )
    );
}

#[test]
fn unreadable_windows_end_a_build_at_once() {
    let mut invalid = settings();
    invalid.maintenance_windows = vec!["bad".into()];
    let conclusion = BuildRun::begin(&invalid, NOW).unwrap_err();
    assert!(conclusion.cancel_control);
    assert_eq!(
        conclusion.error.as_deref(),
        Some("maintenance window must use HH:MM-HH:MM")
    );
    let (_, windows) = BuildRun::begin(&settings(), NOW).unwrap();
    assert!(windows.is_empty());
}

#[test]
fn conclusions_say_what_is_left_to_do() {
    let promoted = BuildConclusion::promotion(Ok(()));
    assert!(promoted.schedule_cleanup && promoted.forget_answers);
    assert_eq!(promoted.error, None);
    let refused = BuildConclusion::promotion(Err("locked".into()));
    assert_eq!(refused.fail_generation.as_deref(), Some("locked"));
    assert_eq!(refused.error.as_deref(), Some("locked"));
    let failed = BuildConclusion::failed("boom".into());
    assert_eq!(failed.fail_generation.as_deref(), Some("boom"));
    assert!(!failed.cancel_control);
    let abandoned = BuildConclusion::abandoned();
    assert_eq!(
        abandoned.abandon_generation.as_deref(),
        Some("namespace index build cancelled")
    );
    assert_eq!(abandoned.error, None);
    let unwound = BuildConclusion::unwound();
    assert!(unwound.cancel_control);
    assert_eq!(
        unwound.error.as_deref(),
        Some("namespace index build unwound unexpectedly")
    );
}

fn storage(free: u64) -> StorageDiagnostics {
    StorageDiagnostics::of_files(None, None, None, Some(free))
}

/// A start up to the attached control.
fn started(manager: &mut IndexManager, coordination: &mut BuildCoordination) -> RefreshRun {
    let mut run = RefreshRun::new("S", false, 5);
    assert_eq!(run.begin(manager, false).next, RefreshAction::ReadStorage);
    assert_eq!(
        run.storage_read(manager, Ok(storage(150))).next,
        RefreshAction::LoadRetryState
    );
    assert_eq!(
        run.retry_loaded(manager, coordination, Ok(NO_RETRY), WALL).next,
        RefreshAction::AcquireLock
    );
    assert_eq!(
        run.lock_tried(manager, coordination, Ok(()), WALL).next,
        RefreshAction::StartInventory { batch_size: 100 }
    );
    let step = run.inventory_started(manager, coordination, Ok((11, false)), WALL);
    assert!(matches!(step.next, RefreshAction::ApplyPacing(_)));
    run
}

#[test]
fn refreshes_start_a_build_task() {
    let mut manager = IndexManager::new(settings());
    let mut coordination = BuildCoordination::new();
    let mut run = started(&mut manager, &mut coordination);
    let step = run.pacing_applied(&mut manager, &mut coordination, Ok(()), false, false, WALL);
    assert_eq!(step.next, RefreshAction::ReadCapabilities);
    let step = run.capabilities_read(
        &mut manager,
        &mut coordination,
        Ok((NamespaceOrganization::Flat, BrowseSource::Flat)),
        false,
        WALL,
    );
    assert_eq!(
        step.next,
        RefreshAction::StartGeneration {
            organization: NamespaceOrganization::Flat,
            source: BrowseSource::Flat
        }
    );
    let step = run.generation_started(
        &mut manager,
        &mut coordination,
        Ok(3),
        false,
        false,
        NOW,
        WALL,
    );
    assert!(step.schedule_cleanup);
    assert_eq!(step.next, RefreshAction::SpawnBuild { generation: 3 });
    let step = run.spawned(&mut manager, &mut coordination, true, WALL);
    assert_eq!(step.next, RefreshAction::ReturnStatus);
    assert!(coordination.build_active());
    assert_eq!(manager.running_controls(), vec![11]);
}

#[test]
fn refreshes_are_refused_before_anything_is_reserved() {
    let mut manager = IndexManager::new(settings());
    let mut coordination = BuildCoordination::new();
    let stranger = RefreshRun::new("T", false, 5);
    assert_eq!(
        stranger.begin(&manager, false).next,
        RefreshAction::Refuse("server is not configured for namespace indexing".into())
    );
    let run = RefreshRun::new("S", false, 5);
    assert_eq!(run.begin(&manager, true).next, RefreshAction::ReturnStatus);
    assert_eq!(
        run.storage_read(&manager, Ok(storage(149))).next,
        RefreshAction::Refuse(
            "insufficient free space for namespace index (149 bytes available, 150 required)"
                .into()
        )
    );
    let waiting = RetryState {
        retry_after: SystemTime::checked_add(WALL, Duration::from_secs(1)),
        consecutive_failures: 1,
        circuit_open: false,
    };
    assert_eq!(
        run.retry_loaded(&mut manager, &coordination, Ok(waiting), WALL)
            .next,
        RefreshAction::ReturnStatus
    );
    let forced = RefreshRun::new("S", true, 5);
    assert_eq!(
        forced
            .retry_loaded(&mut manager, &coordination, Ok(waiting), WALL)
            .next,
        RefreshAction::AcquireLock
    );
    assert_eq!(
        forced
            .lock_tried(&mut manager, &mut coordination, Err("held".into()), WALL)
            .next,
        RefreshAction::Refuse("held".into())
    );
    assert!(!coordination.build_active());
}

#[test]
fn failed_starts_release_the_build_and_count() {
    let mut manager = IndexManager::new(settings());
    let mut coordination = BuildCoordination::new();
    let run = started(&mut manager, &mut coordination);
    let step = run.pacing_applied(
        &mut manager,
        &mut coordination,
        Err("too slow".into()),
        false,
        false,
        WALL,
    );
    assert!(step.cancel_control && step.released);
    assert_eq!(
        step.next,
        RefreshAction::Refuse("unable to apply initial inventory pacing: too slow".into())
    );
    assert!(!coordination.build_active());
    assert_eq!(manager.retry_state_of("S").consecutive_failures, 1);
}

#[test]
fn cancelled_starts_release_the_build_without_a_failure() {
    let mut manager = IndexManager::new(settings());
    let mut coordination = BuildCoordination::new();
    let run = started(&mut manager, &mut coordination);
    manager
        .control("S", IndexControlAction::Cancel, NOW)
        .unwrap();
    let step = run.pacing_applied(&mut manager, &mut coordination, Ok(()), false, false, WALL);
    assert!(step.cancel_control && step.released);
    assert_eq!(step.next, RefreshAction::ReturnStatus);
    assert!(!coordination.build_active());
    assert_eq!(manager.retry_state_of("S").consecutive_failures, 0);
}

#[test]
fn starts_abandon_their_generation_when_they_end_late() {
    let mut manager = IndexManager::new(settings());
    let mut coordination = BuildCoordination::new();
    let mut run = started(&mut manager, &mut coordination);
    run.pacing_applied(&mut manager, &mut coordination, Ok(()), false, false, WALL);
    let step = run.generation_started(
        &mut manager,
        &mut coordination,
        Ok(4),
        false,
        true,
        NOW,
        WALL,
    );
    let order = step.abandon.unwrap();
    assert_eq!(order.generation, 4);
    assert_eq!(order.reason, "gateway shutdown before index build");
    assert!(step.released);

    let mut run = started(&mut manager, &mut coordination);
    run.pacing_applied(&mut manager, &mut coordination, Ok(()), false, false, WALL);
    let step = run.generation_started(
        &mut manager,
        &mut coordination,
        Ok(5),
        true,
        false,
        NOW,
        WALL,
    );
    assert_eq!(
        step.abandon.unwrap().reason,
        "index build cancelled during startup"
    );

    let mut run = started(&mut manager, &mut coordination);
    run.pacing_applied(&mut manager, &mut coordination, Ok(()), false, false, WALL);
    manager.attach_control("S", 12).unwrap();
    let step = run.generation_started(
        &mut manager,
        &mut coordination,
        Ok(6),
        false,
        false,
        NOW,
        WALL,
    );
    assert_eq!(
        step.next,
        RefreshAction::Refuse("index build disappeared before start".into())
    );
    assert!(!coordination.build_active());

    let mut run = RefreshRun::new("S", true, 5);
    run.retry_loaded(&mut manager, &coordination, Ok(NO_RETRY), WALL);
    run.lock_tried(&mut manager, &mut coordination, Ok(()), WALL);
    run.inventory_started(&mut manager, &mut coordination, Ok((11, false)), WALL);
    run.pacing_applied(&mut manager, &mut coordination, Ok(()), false, false, WALL);
    run.generation_started(
        &mut manager,
        &mut coordination,
        Ok(7),
        false,
        false,
        NOW,
        WALL,
    );
    let step = run.spawned(&mut manager, &mut coordination, false, WALL);
    assert_eq!(
        step.abandon.unwrap().reason,
        "index build task was not started"
    );
    assert!(step.released);
    assert!(!coordination.build_active());
}

#[test]
fn probes_and_databases_that_fail_end_a_start() {
    let mut manager = IndexManager::new(settings());
    let mut coordination = BuildCoordination::new();
    let run = started(&mut manager, &mut coordination);
    run.pacing_applied(&mut manager, &mut coordination, Ok(()), false, false, WALL);
    let step = run.capabilities_read(
        &mut manager,
        &mut coordination,
        Err("offline".into()),
        false,
        WALL,
    );
    assert!(step.cancel_control && step.released);
    assert_eq!(step.next, RefreshAction::Refuse("offline".into()));
    assert_eq!(manager.retry_state_of("S").consecutive_failures, 1);
    let mut run = RefreshRun::new("S", true, 5);
    run.retry_loaded(&mut manager, &coordination, Ok(NO_RETRY), WALL);
    run.lock_tried(&mut manager, &mut coordination, Ok(()), WALL);
    let step = run.inventory_started(
        &mut manager,
        &mut coordination,
        Err("no inventory".into()),
        WALL,
    );
    assert_eq!(step.next, RefreshAction::Refuse("no inventory".into()));
    assert!(!step.cancel_control && step.released);
}

#[test]
fn cleanup_workers_serve_one_server_at_a_time() {
    let mut registry = CleanupRegistry::new();
    assert!(registry.schedule_cleanup("S", false));
    assert!(!registry.schedule_cleanup("T", true));
    let first = registry.claim().unwrap();
    assert!(registry.claim().is_none());
    assert!(!registry.schedule_cleanup(first.as_str(), false));
    assert!(registry.begin_run(first.as_str(), false));
    let mut worker = CleanupWorker::new();
    assert_eq!(
        worker.run_ended(
            &mut registry,
            first.as_str(),
            CleanupOutcome::Completed(CleanupStats::default()),
            false,
            false
        ),
        CleanupNext::Stop
    );
    registry.worker_ended();
    let second = registry.claim().unwrap();
    assert_ne!(first, second);
    registry.spawn_refused();
    assert!(!registry.worker_active);
    assert!(registry.claim().is_none());
}

#[test]
fn cleanup_runs_are_repeated_deferred_and_retried() {
    let mut registry = CleanupRegistry::new();
    registry.schedule_cleanup("S", false);
    registry.claim();
    registry.begin_run("S", false);
    let mut worker = CleanupWorker::new();
    let deferred = CleanupOutcome::Completed(CleanupStats {
        deferred_for_build: true,
        ..CleanupStats::default()
    });
    assert_eq!(
        worker.run_ended(&mut registry, "S", deferred, true, false),
        CleanupNext::WaitForBuilds
    );
    assert_eq!(
        registry.tasks.get("S"),
        Some(&CleanupTaskState {
            running: true,
            requested: true
        })
    );
    assert_eq!(
        worker.run_ended(&mut registry, "S", deferred, false, false),
        CleanupNext::Again
    );
    registry.begin_run("S", false);
    for millis in [100, 200, 400] {
        assert_eq!(
            worker.run_ended(&mut registry, "S", CleanupOutcome::Failed, false, false),
            CleanupNext::RetryAfter(Duration::from_millis(millis))
        );
    }
    registry.schedule_cleanup("S", false);
    assert_eq!(
        worker.run_ended(&mut registry, "S", CleanupOutcome::Failed, false, false),
        CleanupNext::Again
    );
    assert_eq!(worker.consecutive_failures, 0);
    assert!(!registry.begin_run("S", true));
    assert!(registry.tasks.get("S").is_none());
}

#[test]
fn cleanup_precheck_avoids_a_write_when_no_obsolete_generation_exists() {
    let mut pass = CleanupPass::new();
    assert_eq!(
        pass.step(PassInput::Obsolete(false)),
        PassAction::Done
    );
    assert_eq!(pass.stats.batches, 0);
}

#[test]
fn cleanup_rechecks_build_state_and_obsolete_data_under_the_lock() {
    let free = PassInput::Gateway {
        shutting_down: false,
        build_active: false,
    };
    let mut pass = CleanupPass::new();
    assert_eq!(
        pass.step(PassInput::Obsolete(true)),
        PassAction::LookAtGateway
    );
    assert_eq!(pass.step(free), PassAction::LookForObsolete);
    assert_eq!(pass.step(PassInput::Obsolete(true)), PassAction::HoldLock);
    assert_eq!(
        pass.step(PassInput::LockHeld { build_active: true }),
        PassAction::Done
    );
    assert!(pass.stats.deferred_for_build);

    let mut pass = CleanupPass::new();
    pass.step(PassInput::Obsolete(true));
    pass.step(free);
    pass.step(PassInput::Obsolete(true));
    assert_eq!(
        pass.step(PassInput::LockHeld {
            build_active: false
        }),
        PassAction::LookForObsolete
    );
    assert_eq!(pass.step(PassInput::Obsolete(false)), PassAction::Done);
    assert!(!pass.stats.deferred_for_build);
}

#[test]
fn cleanup_batches_add_up_and_are_checkpointed() {
    let free = PassInput::Gateway {
        shutting_down: false,
        build_active: false,
    };
    let held = PassInput::LockHeld {
        build_active: false,
    };
    let mut pass = CleanupPass::new();
    pass.step(PassInput::Obsolete(true));
    for deleted in [10_000, 1] {
        pass.step(free);
        pass.step(PassInput::Obsolete(true));
        pass.step(held);
        assert_eq!(
            pass.step(PassInput::Obsolete(true)),
            PassAction::DeleteBatch
        );
        assert_eq!(
            pass.step(PassInput::Deleted {
                fts_entries: deleted,
                entries: deleted,
                generations: u64::from(deleted == 1)
            }),
            PassAction::Pause
        );
    }
    pass.step(free);
    assert_eq!(pass.step(PassInput::Obsolete(false)), PassAction::HoldLock);
    let mut busy = pass;
    assert_eq!(pass.step(held), PassAction::Checkpoint);
    assert_eq!(
        busy.step(PassInput::LockHeld { build_active: true }),
        PassAction::Done
    );
    assert_eq!(pass.stats.batches, 2);
    assert_eq!(pass.stats.entries, 10_001);
    assert_eq!(pass.stats.fts_entries, 10_001);
    assert_eq!(pass.stats.generations, 1);
}

#[test]
fn cleanup_stops_for_a_shutdown() {
    let mut pass = CleanupPass::new();
    pass.step(PassInput::Obsolete(true));
    assert_eq!(
        pass.step(PassInput::Gateway {
            shutting_down: true,
            build_active: true
        }),
        PassAction::Done
    );
    assert!(pass.stats.stopped_for_shutdown);
    assert!(!pass.stats.deferred_for_build);
}
