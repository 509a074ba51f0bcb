use opcda_bridge_gateway::controller::InventoryLimits;
use opcda_bridge_gateway::index::cache::{CacheKey, QueryCache};
use opcda_bridge_gateway::index::metrics::{percentile, ForegroundMetricState};
use opcda_bridge_gateway::index::profile::{
    breadcrumbs_json, index_profile_is_compatible, namespace_string, node_kind_number,
    parse_indexed_breadcrumbs, parse_indexed_kind, parse_namespace, parse_source, source_string,
    RowError,
};
use opcda_bridge_gateway::index::schedule::{
    deterministic_jitter, instant_timestamp, maintenance_window_active,
    maintenance_window_is_open, pacing_for_limits, parse_maintenance_windows, parse_timestamp,
    retry_delay, stable_server_hash, system_time_timestamp, timestamp_now, MaintenanceWindow,
    MaintenanceWindowError,
};
use opcda_bridge_gateway::index::search::{
    build_fts_query, escape_like, normalize_query, search_rank, SearchMode,
};
use opcda_bridge_gateway::index::storage::{
    insufficient_space_message, is_lock_conflict, is_quarantinable_index_error, lacks_space,
    lock_held_message, lock_is_held, lock_metadata, quarantine_extension, quarantine_path,
    recover_open, require_consistent, retry_key, retry_record, retry_state, schema_action,
    LockAttempt, RetryState, SchemaAction, SchemaError, StorageDiagnostics,
};
use opcda_bridge_gateway::opc::{
    BrowseSource, InventoryCompleted, InventoryControl, InventoryEvent, InventoryNodeKind,
    InventoryPacing, NamespaceOrganization, MAX_NATIVE_INVENTORY_BATCH_SIZE,
};
use opcda_bridge_gateway::paths::{
    build_lock_path, build_owner_path, canonical_in_parent, database_coordination_key,
    is_memory_database, sqlite_sidecar_path, storage_directory, CoordinationPath,
};
use opcda_bridge_gateway::time::{Duration, Instant, SystemTime};

const MOMENT: Instant = Instant {
    nanos: 1_000_000_000_000,
};

#[test]
fn normalization_and_timestamp_helpers_are_safe() {
    assert_eq!(normalize_query("  FCS0201   PV "), "fcs0201 pv");
    assert_eq!(escape_like(r"a%b_c\d"), r"a\%b\_c\\d");
    assert_eq!(build_fts_query("fcs0201 pv"), "\"fcs0201\" AND \"pv\"");
    assert_eq!(search_rank("219", "219", "display-exact"), 0);
    assert_eq!(search_rank("219", "ordinary", "219"), 1);
    assert_eq!(search_rank("219", "219 block", "ordinary"), 2);
    assert_eq!(search_rank("219", "ordinary", "219.item"), 3);
    assert_eq!(search_rank("219", "block 219", "display-contains"), 4);
    assert_eq!(search_rank("219", "ordinary", "area.219.item"), 5);
    assert_eq!(search_rank("219", "ordinary", "ordinary"), 6);
    assert_eq!(parse_indexed_kind(2), Ok(InventoryNodeKind::BranchAndItem));
    assert!(parse_indexed_kind(99).is_err());
    assert_eq!(
        parse_indexed_breadcrumbs(r#"["Area","Unit"]"#).unwrap(),
        vec!["Area", "Unit"]
    );
    assert!(parse_indexed_breadcrumbs("not-json").is_err());
    assert!(parse_timestamp("not-a-timestamp").is_none());
    assert_eq!(
        parse_timestamp(u128::from(u64::MAX).to_string().as_str()),
        SystemTime::unix_epoch().checked_add(Duration::from_millis(u64::MAX))
    );
    assert!(parse_timestamp(u128::MAX.to_string().as_str()).is_none());
    assert_eq!(SearchMode::try_from(0), Ok(SearchMode::Unspecified));
    assert_eq!(SearchMode::try_from(1), Ok(SearchMode::Exact));
    assert_eq!(SearchMode::try_from(2), Ok(SearchMode::Prefix));
    assert_eq!(SearchMode::try_from(3), Ok(SearchMode::Contains));
    assert_eq!(SearchMode::try_from(4), Err(()));
    assert_eq!(
        namespace_string(NamespaceOrganization::Unspecified),
        "unspecified"
    );
    assert_eq!(namespace_string(NamespaceOrganization::Flat), "flat");
}

#[test]
fn database_coordination_key_handles_relative_and_unresolvable_paths() {
    assert_eq!(
        database_coordination_key(":memory:", Some("/somewhere")),
        CoordinationPath::Verbatim(":memory:".into())
    );
    assert_eq!(canonical_in_parent("", None, None), "");
    assert_eq!(
        database_coordination_key("/data/index.sqlite3", Some("/somewhere")),
        CoordinationPath::Canonicalize("/data/index.sqlite3".into())
    );
    assert_eq!(
        database_coordination_key("index.sqlite3", Some("/database")),
        CoordinationPath::Canonicalize("/database/index.sqlite3".into())
    );
    assert_eq!(
        database_coordination_key("index.sqlite3", None),
        CoordinationPath::Canonicalize("index.sqlite3".into())
    );
    assert_eq!(
        canonical_in_parent("alias/index.sqlite3", Some("index.sqlite3"), Some("/real")),
        "/real/index.sqlite3"
    );
}

#[test]
fn build_files_stand_next_to_the_database() {
    let hash = stable_server_hash("S");
    assert_eq!(
        build_lock_path("/data/index.sqlite3", "S"),
        format!("/data/index.sqlite3.{hash}.build.lock")
    );
    assert_eq!(
        build_owner_path("/data/index.sqlite3", "S"),
        format!("/data/index.sqlite3.{hash}.build.owner")
    );
    assert_ne!(
        build_lock_path("/data/index.sqlite3", "T"),
        build_lock_path("/data/index.sqlite3", "S"),
        "different servers must not share a build lock"
    );
    assert_eq!(
        build_lock_path("/", "S"),
        format!("/index.sqlite3.{hash}.build.lock")
    );
}

#[test]
fn build_files_keep_the_name_of_the_database() {
    let hash = stable_server_hash("S");
    for path in [
        r"C:\data\index.sqlite3",
        r"\\?\C:\data\index.sqlite3",
        r"\\?\UNC\server\share\index.sqlite3",
        "/index.sqlite3",
        "index.sqlite3",
    ] {
        assert_eq!(build_lock_path(path, "S"), format!("{path}.{hash}.build.lock"));
        assert_eq!(build_owner_path(path, "S"), format!("{path}.{hash}.build.owner"));
    }
    for path in ["./index.sqlite3", "../index.sqlite3", r"data\index.sqlite3"] {
        let lock = build_lock_path(path, "S");
        assert!(lock.ends_with(&format!("index.sqlite3.{hash}.build.lock")));
        assert_eq!(lock.len(), path.len() + hash.len() + ".".len() + ".build.lock".len());
    }
    assert!(build_lock_path(r"\\server\share", "S").ends_with(&format!(".{hash}.build.lock")));
}

#[test]
fn servers_share_no_build_file() {
    for path in [r"C:\data\index.sqlite3", r"\\?\C:\data\index.sqlite3", "", ".."] {
        assert_ne!(build_lock_path(path, "S"), build_lock_path(path, "T"));
        assert_ne!(build_owner_path(path, "S"), build_owner_path(path, "T"));
        assert_ne!(build_lock_path(path, "S"), build_owner_path(path, "S"));
    }
}

#[test]
fn coordination_keys_keep_the_path() {
    for path in [r"C:\data\index.sqlite3", r"\index.sqlite3", "/data/index.sqlite3", "../a.db"] {
        match database_coordination_key(path, Some("/somewhere")) {
            CoordinationPath::Canonicalize(key) => assert!(key.ends_with(path)),
            CoordinationPath::Verbatim(_) => panic!("no database in memory"),
        }
    }
    let canonical = canonical_in_parent(
        r"data\index.sqlite3",
        Some("index.sqlite3"),
        Some(r"\\?\C:\data"),
    );
    assert!(canonical.starts_with(r"\\?\C:\data"));
    assert!(canonical.ends_with("index.sqlite3"));
    assert_eq!(canonical.len(), r"\\?\C:\data\index.sqlite3".len());
}

#[test]
fn server_hashes_cover_the_bytes_of_the_name() {
    assert_eq!(stable_server_hash(""), "cbf29ce484222325");
    assert_eq!(stable_server_hash("a"), "af63dc4c8601ec8c");
    let mut expected: u64 = 0xcbf2_9ce4_8422_2325;
    for byte in "Gerät €".as_bytes() {
        expected ^= u64::from(*byte);
        expected = expected.wrapping_mul(0x100_0000_01b3);
    }
    assert_eq!(stable_server_hash("Gerät €"), format!("{expected:016x}"));
}

#[test]
fn adaptive_limits_translate_to_native_operation_pacing() {
    let pacing = pacing_for_limits(InventoryLimits {
        item_rate_per_second: 100,
        batch_size: 10,
        duty_cycle_percent: 50,
    });
    assert_eq!(pacing.min_interval, Duration::from_millis(100));
    assert_eq!(pacing.item_rate_per_second, Some(100));
    assert_eq!(pacing.batch_size, Some(10));
    assert_eq!(
        pacing_for_limits(InventoryLimits {
            item_rate_per_second: 3,
            batch_size: 1,
            duty_cycle_percent: 1,
        })
        .min_interval,
        Duration::from_nanos(333_333_334)
    );
    assert_eq!(
        pacing_for_limits(InventoryLimits {
            item_rate_per_second: 0,
            batch_size: 1,
            duty_cycle_percent: 1,
        })
        .min_interval,
        Duration::zero()
    );
    assert_eq!(
        pacing_for_limits(InventoryLimits {
            item_rate_per_second: 0,
            batch_size: 1,
            duty_cycle_percent: 1,
        })
        .item_rate_per_second,
        None
    );
    assert_eq!(
        pacing_for_limits(InventoryLimits {
            item_rate_per_second: 100,
            batch_size: MAX_NATIVE_INVENTORY_BATCH_SIZE + 1,
            duty_cycle_percent: 50,
        })
        .batch_size,
        Some(MAX_NATIVE_INVENTORY_BATCH_SIZE)
    );
    assert_ne!(stable_server_hash("S"), stable_server_hash("T"));
}

#[test]
fn foreground_metrics_keep_rolling_latency_percentiles() {
    let mut metrics = ForegroundMetricState::default();
    metrics.record_health_at(MOMENT, 30, false, false, false);
    metrics.record_health_at(MOMENT, 10, true, true, true);
    metrics.record_health_at(MOMENT, 20, false, false, false);
    let snapshot = metrics.snapshot(2);
    assert_eq!(snapshot.active_count, 2);
    assert_eq!(snapshot.operations, 3);
    assert_eq!(snapshot.errors, 1);
    assert_eq!(snapshot.bad_quality, 1);
    assert_eq!(snapshot.latency_p50_ms, Some(20));
    assert_eq!(snapshot.latency_p95_ms, Some(30));
    assert_eq!(snapshot.latency_max_ms, Some(30));
    assert!(!snapshot.last_error);
}

#[test]
fn foreground_health_failures_expire_without_a_follow_up_operation() {
    let recorded_at = MOMENT;
    let mut metrics = ForegroundMetricState::default();
    metrics.record_health_at(recorded_at, 10, true, true, true);
    assert!(metrics.recent_health_failure(
        recorded_at.plus(Duration::from_secs(1)),
        Duration::from_secs(2)
    ));
    assert!(!metrics.recent_health_failure(
        recorded_at.plus(Duration::from_secs(3)),
        Duration::from_secs(2)
    ));
}

#[test]
fn foreground_bad_quality_expires_without_a_follow_up_operation() {
    let recorded_at = MOMENT;
    let mut metrics = ForegroundMetricState::default();
    metrics.record_health_at(recorded_at, 10, false, true, false);
    assert!(metrics.recent_bad_quality(
        recorded_at.plus(Duration::from_secs(1)),
        Duration::from_secs(2)
    ));
    assert!(!metrics.recent_bad_quality(
        recorded_at.plus(Duration::from_secs(3)),
        Duration::from_secs(2)
    ));
}

#[test]
fn storage_diagnostics_add_up_the_files() {
    let storage = StorageDiagnostics::of_files(Some(5), Some(7), Some(11), Some(1));
    assert_eq!(storage.wal_bytes, 7);
    assert_eq!(storage.shm_bytes, 11);
    assert!(storage.free_bytes.is_some());
    assert_eq!(storage.database_bytes(), 23);
    let missing = StorageDiagnostics::of_files(None, None, None, None);
    assert_eq!(missing.main_bytes, 0);
    assert_eq!(missing.free_bytes, None);
}

#[test]
fn sqlite_sidecars_append_to_custom_database_names() {
    let path = "/tmp/custom-index.db";
    assert_eq!(
        sqlite_sidecar_path(path, "-wal"),
        "/tmp/custom-index.db-wal"
    );
    assert_eq!(
        sqlite_sidecar_path(path, "-shm"),
        "/tmp/custom-index.db-shm"
    );
}

#[test]
fn free_space_counts_where_the_database_stands() {
    assert_eq!(storage_directory(Some("/data".into())), "/data");
    assert_eq!(storage_directory(Some(String::new())), ".");
    assert_eq!(storage_directory(None), ".");
    assert!(is_memory_database(":memory:"));
    assert!(!is_memory_database("memory.sqlite3"));
}

#[test]
fn retry_state_round_trips_through_index_meta() {
    let stored = RetryState {
        retry_after: Some(SystemTime {
            nanos: 1_700_000_030_123_000_000,
        }),
        consecutive_failures: 3,
        circuit_open: true,
    };
    let record = retry_record(&stored);
    let read = retry_state(
        Some(record.retry_after.as_str()),
        Some(record.failures.as_str()),
        Some(record.circuit.as_str()),
    );
    assert_eq!(read.consecutive_failures, 3);
    assert!(read.circuit_open);
    assert_eq!(read, stored);
    let nothing = retry_state(None, None, None);
    assert_eq!(
        nothing,
        RetryState {
            retry_after: None,
            consecutive_failures: 0,
            circuit_open: false
        }
    );
    assert_eq!(retry_key("failures", "S"), "failures:S");
}

#[test]
fn lock_attempts_tell_who_holds_the_lock() {
    assert_eq!(lock_is_held(LockAttempt::Acquired), Ok(false));
    assert_eq!(lock_is_held(LockAttempt::Missing), Ok(false));
    assert_eq!(lock_is_held(LockAttempt::Conflict), Ok(true));
    assert_eq!(
        lock_is_held(LockAttempt::Failed("denied".into())),
        Err("denied".to_string())
    );
    let message = lock_held_message("/data/x.lock", " process_id=7\nserver=S\n ", "busy");
    assert!(message.contains("build lock is already held"));
    assert_eq!(
        message,
        "namespace index build lock is already held at /data/x.lock (process_id=7\nserver=S)"
    );
    assert_eq!(
        lock_held_message("/data/x.lock", " \n", "busy"),
        "namespace index build lock is already held at /data/x.lock (busy)"
    );
    assert_eq!(lock_metadata(7, "S"), "process_id=7\nserver=S\n");
    assert!(is_lock_conflict(true, None));
    assert!(is_lock_conflict(false, Some(32)));
    assert!(is_lock_conflict(false, Some(33)));
    assert!(!is_lock_conflict(false, Some(2)));
}

#[test]
fn only_corrupt_or_incompatible_index_errors_are_quarantinable() {
    assert!(is_quarantinable_index_error(
        "unsupported namespace index schema version 99"
    ));
    assert!(is_quarantinable_index_error(
        "invalid namespace index schema version \"corrupt\""
    ));
    assert!(is_quarantinable_index_error(
        "SQLite error: file is not a database"
    ));
    assert!(!is_quarantinable_index_error(
        "FOREIGN KEY constraint failed"
    ));
    assert!(!is_quarantinable_index_error("database is locked"));
    assert_eq!(
        parse_namespace("hierarchical"),
        NamespaceOrganization::Hierarchical
    );
    assert_eq!(
        parse_namespace("unknown"),
        NamespaceOrganization::Unspecified
    );
    assert_eq!(source_string(BrowseSource::Unspecified), "unspecified");
    assert_eq!(source_string(BrowseSource::Da3), "da3");
    assert_eq!(source_string(BrowseSource::Derived), "derived");
    assert_eq!(parse_source("unknown"), BrowseSource::Unspecified);
    assert_eq!(node_kind_number(InventoryNodeKind::Item), 1);
    assert_eq!(node_kind_number(InventoryNodeKind::BranchAndItem), 2);
}

#[test]
fn unusable_databases_are_set_aside_under_a_random_name() {
    assert_eq!(recover_open("/data/index.sqlite3", "database is locked"), None);
    let aside = recover_open(
        "/data/index.sqlite3",
        "Database disk image is MALFORMED",
    )
    .unwrap();
    assert!(aside.starts_with("/data/index.quarantine-"));
    assert_eq!(aside.len(), "/data/index.quarantine-".len() + 36);
    assert_ne!(
        quarantine_path("/data/index.sqlite3"),
        quarantine_path("/data/index.sqlite3")
    );
    assert_eq!(quarantine_extension("x"), "quarantine-x");
}

#[test]
fn setting_aside_moves() {
    for (path, front) in [
        (r"C:\data\index.sqlite3", r"C:\data\index"),
        (r"\\?\C:\data\index.sqlite3", r"\\?\C:\data\index"),
        (r"\\server\share\index.db", r"\\server\share\index"),
        (r"C:\data\index", r"C:\data\index"),
        ("/index", "/index"),
        ("../.index", "../.index"),
        (".hidden/index.tar.gz", ".hidden/index.tar"),
    ] {
        let aside = quarantine_path(path);
        assert!(aside.starts_with(&format!("{front}.quarantine-")));
        assert_eq!(aside.len(), front.len() + ".quarantine-".len() + 36);
        assert_ne!(aside, path);
    }
    assert_eq!(quarantine_path("/"), "/");
}

#[test]
fn schema_versions_decide_what_to_migrate() {
    assert_eq!(schema_action(None), Ok(SchemaAction::Stamp));
    assert_eq!(schema_action(Some("3")), Ok(SchemaAction::Stamp));
    assert_eq!(
        schema_action(Some("2")),
        Ok(SchemaAction::AddCompatibilityFallback)
    );
    let unsupported = schema_action(Some("999")).unwrap_err();
    assert_eq!(unsupported, SchemaError::Unsupported(999));
    assert_eq!(
        unsupported.message(),
        "unsupported namespace index schema version 999"
    );
    let invalid = schema_action(Some("cor\"rupt")).unwrap_err();
    assert_eq!(
        invalid.message(),
        "invalid namespace index schema version \"cor\\\"rupt\""
    );
    assert!(is_quarantinable_index_error(invalid.message().as_str()));
}

#[test]
fn inconsistent_full_text_data_is_quarantined() {
    assert!(require_consistent(true, true).is_ok());
    assert!(require_consistent(false, false).is_ok());
    let error = require_consistent(true, false).unwrap_err();
    assert_eq!(
        error.message(),
        "namespace index relational and full-text data are inconsistent"
    );
    assert!(recover_open("/data/fts.sqlite3", error.message().as_str())
        .unwrap()
        .contains("quarantine-"));
    assert!(require_consistent(false, true).is_err());
}

#[test]
fn scheduled_refresh_jitter_is_deterministic_and_bounded() {
    assert_eq!(deterministic_jitter("S", 0), Duration::zero());
    assert_eq!(
        deterministic_jitter("S", 3600),
        deterministic_jitter("S", 3600)
    );
    assert!(deterministic_jitter("S", 3600).nanos <= Duration::from_secs(3600).nanos);
}

#[test]
fn profile_compatibility_preserves_negotiated_da2_fallbacks() {
    assert!(index_profile_is_compatible(
        NamespaceOrganization::Hierarchical,
        BrowseSource::Da2,
        true,
        NamespaceOrganization::Hierarchical,
        BrowseSource::Da3,
    ));
    assert!(!index_profile_is_compatible(
        NamespaceOrganization::Hierarchical,
        BrowseSource::Da2,
        false,
        NamespaceOrganization::Hierarchical,
        BrowseSource::Da3,
    ));
    assert!(!index_profile_is_compatible(
        NamespaceOrganization::Hierarchical,
        BrowseSource::Da3,
        false,
        NamespaceOrganization::Hierarchical,
        BrowseSource::Da2,
    ));
    assert!(!index_profile_is_compatible(
        NamespaceOrganization::Hierarchical,
        BrowseSource::Da2,
        true,
        NamespaceOrganization::Flat,
        BrowseSource::Da2,
    ));
}

#[test]
fn maintenance_windows_parse_and_match_day_boundaries() {
    let daytime = MaintenanceWindow::parse("08:30-17:00").unwrap();
    assert!(daytime.contains(8 * 60 + 30));
    assert!(!daytime.contains(17 * 60));

    let overnight = MaintenanceWindow::parse("22:00-06:00").unwrap();
    assert!(overnight.contains(23 * 60));
    assert!(overnight.contains(5 * 60 + 59));
    assert!(!overnight.contains(12 * 60));

    let all_day = MaintenanceWindow::parse("00:00-00:00").unwrap();
    assert!(all_day.contains(12 * 60));

    assert!(MaintenanceWindow::parse("bad").is_err());
    assert!(MaintenanceWindow::parse("aa:00-01:00").is_err());
    assert!(MaintenanceWindow::parse("01:aa-02:00").is_err());
    assert!(MaintenanceWindow::parse("25:00-01:00").is_err());
    assert!(MaintenanceWindow::parse("01:60-02:00").is_err());
    assert!(parse_maintenance_windows(&vec!["08:00-09:00".into()]).is_ok());

    assert!(maintenance_window_active(&vec![daytime], 9, 0));
    assert!(!maintenance_window_active(&Vec::new(), 9, 0));
}

#[test]
fn maintenance_window_errors_say_what_is_wrong() {
    let errors = [
        ("bad", MaintenanceWindowError::MissingRange),
        ("0800-09:00", MaintenanceWindowError::MissingColon),
        ("aa:00-01:00", MaintenanceWindowError::InvalidHour),
        ("01:aa-02:00", MaintenanceWindowError::InvalidMinute),
        ("24:00-01:00", MaintenanceWindowError::OutOfRange),
    ];
    for (text, error) in errors {
        assert_eq!(MaintenanceWindow::parse(text), Err(error));
    }
    assert_eq!(
        MaintenanceWindowError::MissingRange.message(),
        "maintenance window must use HH:MM-HH:MM"
    );
    assert_eq!(
        MaintenanceWindowError::OutOfRange.message(),
        "maintenance window clock is outside 00:00-23:59"
    );
    assert_eq!(
        parse_maintenance_windows(&vec!["08:00-09:00".into(), "bad".into()]),
        Err(MaintenanceWindowError::MissingRange)
    );
}

#[test]
fn query_cache_evicts_oldest_and_clears_by_server() {
    let key = |server: &str| CacheKey {
        server: server.into(),
        generation: 1,
        query: "query".into(),
        mode: 3,
        limit: 10,
    };
    let mut cache: QueryCache<String> = QueryCache::new(1);
    cache.insert(key("first"), "first".to_string());
    assert!(cache.get(&key("first")).is_some());
    cache.insert(key("second"), "second".to_string());
    assert!(cache.get(&key("first")).is_none());
    assert!(cache.get(&key("second")).is_some());
    cache.clear_server("second");
    assert!(cache.get(&key("second")).is_none());
}

#[test]
fn query_cache_drops_what_was_not_asked_for_longest() {
    let key = |query: &str| CacheKey {
        server: "S".into(),
        generation: 1,
        query: query.into(),
        mode: 3,
        limit: 10,
    };
    let mut cache: QueryCache<u32> = QueryCache::new(2);
    cache.insert(key("a"), 1);
    cache.insert(key("b"), 2);
    assert_eq!(cache.get(&key("a")), Some(&1));
    cache.insert(key("c"), 3);
    assert_eq!(cache.get(&key("b")), None);
    assert_eq!(cache.get(&key("a")), Some(&1));
    assert_eq!(cache.get(&key("c")), Some(&3));
}

#[test]
fn helper_edge_cases_cover_window_time_and_retry_rollback() {
    let mut metrics = ForegroundMetricState::default();
    for latency in 0..129 {
        metrics.record_health_at(MOMENT, latency, false, false, false);
    }
    assert_eq!(metrics.latencies_ms.len(), 128);
    assert_eq!(metrics.latencies_ms.front(), Some(&1));
    assert_eq!(percentile(&Vec::new(), 50), None);
    let wall = SystemTime {
        nanos: 1_700_000_000_000_000_000,
    };
    assert!(!instant_timestamp(MOMENT, MOMENT, wall).is_empty());
    assert!(
        deterministic_jitter("S", u64::MAX).nanos <= Duration::from_secs(u64::MAX).nanos
    );
}

#[test]
fn timestamps_are_read_back_to_the_millisecond() {
    let wall = SystemTime {
        nanos: 1_700_000_000_123_456_789,
    };
    assert_eq!(timestamp_now(wall), "1700000000123");
    assert_eq!(system_time_timestamp(wall), "1700000000123");
    assert_eq!(
        parse_timestamp("1700000000123"),
        Some(SystemTime {
            nanos: 1_700_000_000_123_000_000
        })
    );
    let later = MOMENT.plus(Duration::from_secs(2));
    assert_eq!(instant_timestamp(later, MOMENT, wall), "1700000002123");
}

#[test]
fn retries_wait_longer_with_every_failure() {
    let first = retry_delay("S", 1, false, 300);
    let second = retry_delay("S", 2, false, 300);
    assert!(first.nanos < second.nanos);
    assert!(retry_delay("S", 40, false, 300).nanos <= Duration::from_secs(86_400).nanos);
    assert!(retry_delay("S", 1, true, 300).nanos >= Duration::from_secs(300).nanos);
}

#[test]
fn unreadable_windows_are_never_open() {
    assert!(!maintenance_window_is_open(
        &vec!["not-a-window".into()],
        9,
        0
    ));
    assert!(maintenance_window_is_open(
        &vec!["08:00-10:00".into()],
        9,
        0
    ));
}

#[test]
fn free_space_is_compared_with_minimum_and_headroom() {
    assert!(lacks_space(Some(9), 5, 5));
    assert!(!lacks_space(Some(10), 5, 5));
    assert!(!lacks_space(None, 5, 5));
    assert!(lacks_space(Some(u64::MAX - 1), u64::MAX, 1));
    assert_eq!(
        insufficient_space_message(9, 5, 5),
        "insufficient free space for namespace index (9 bytes available, 10 required)"
    );
}

#[test]
fn breadcrumbs_are_stored_as_json() {
    let breadcrumbs = vec!["Area \"1\"".to_string(), "Unit\\2".to_string()];
    let json = breadcrumbs_json(&breadcrumbs);
    assert_eq!(json, r#"["Area \"1\"","Unit\\2"]"#);
    assert_eq!(parse_indexed_breadcrumbs(json.as_str()).unwrap(), breadcrumbs);
    assert_eq!(
        parse_indexed_kind(7).unwrap_err().message(),
        rusqlite::Error::InvalidParameterName("unknown indexed node kind 7".into()).to_string()
    );
    assert!(matches!(
        parse_indexed_breadcrumbs("{}"),
        Err(RowError::Breadcrumbs { column: 2, .. })
    ));
    let reason = serde_json::from_str::<Vec<String>>("not-json").unwrap_err();
    assert_eq!(
        parse_indexed_breadcrumbs("not-json").unwrap_err().message(),
        rusqlite::Error::FromSqlConversionFailure(
            2,
            rusqlite::types::Type::Text,
            Box::new(reason)
        )
        .to_string()
    );
}

#[test]
fn completion_event_shape_is_typed() {
    let event = InventoryEvent::Completed(InventoryCompleted {
        complete: true,
        cancelled: false,
        truncated: false,
        warning: None,
        organization: NamespaceOrganization::Flat,
        source: BrowseSource::Flat,
    });
    assert!(matches!(event, InventoryEvent::Completed(_)));
}

struct DefaultInventoryControl;

impl InventoryControl for DefaultInventoryControl {
    fn pause(&self) {
        std::hint::black_box(());
    }

    fn resume(&self) {
        std::hint::black_box(());
    }

    fn cancel(&self) {
        std::hint::black_box(());
    }
}

#[test]
fn inventory_control_is_not_cancelled_by_default() {
    let control = DefaultInventoryControl;
    control.pause();
    control.resume();
    control.cancel();
    assert!(!control.is_cancelled());
    assert!(control.set_pacing(InventoryPacing::default()).is_ok());
}
