use opcda_bridge_gateway::config::{
    config_path_from_exe, index_path_from, malformed_config, resolve_index_config, resolve_port,
    unreadable_config, ConfigReadFailure, GatewayConfig, IndexConfig, InitialBuildPolicy,
    LogConfig, DEFAULT_BRIDGE_PORT,
};

#[test]
fn test_config_path_from_exe_with_parent() {
    let path = config_path_from_exe("/usr/local/bin/opcda-bridge-gateway");
    assert_eq!(path, "/usr/local/bin/opcda-bridge-gateway.toml");
}

#[test]
fn test_config_path_from_exe_no_parent() {
    // The root has no parent, unlike a bare relative file name, whose parent
    // is the empty path.
    let path = config_path_from_exe("/");
    assert_eq!(path, "./opcda-bridge-gateway.toml");
}

#[test]
fn test_load_config_file_malformed() {
    let message = malformed_config("gateway.toml", "invalid type: string");
    assert!(message.contains("failed to parse config file"));
    assert_eq!(
        message,
        "failed to parse config file gateway.toml: invalid type: string"
    );
}

#[test]
fn test_load_config_file_missing_not_error() {
    let config = unreadable_config(
        "/nonexistent/opcda-bridge-gateway.toml",
        ConfigReadFailure::NotFound,
        false,
    )
    .unwrap();
    assert_eq!(config, GatewayConfig::default());
}

#[test]
fn test_load_config_file_missing_is_error() {
    let err = unreadable_config(
        "/nonexistent/opcda-bridge-gateway.toml",
        ConfigReadFailure::NotFound,
        true,
    )
    .unwrap_err();
    assert!(err.contains("config file not found"));
    assert_eq!(
        err,
        "config file not found: /nonexistent/opcda-bridge-gateway.toml"
    );
}

#[test]
fn test_load_config_file_generic_io_error() {
    for missing_is_error in [false, true] {
        let err = unreadable_config(
            "/some/directory",
            ConfigReadFailure::Other("Is a directory".into()),
            missing_is_error,
        )
        .unwrap_err();
        assert!(err.contains("failed to read config file"));
        assert_eq!(
            err,
            "failed to read config file /some/directory: Is a directory"
        );
    }
}

#[test]
fn test_resolve_port_cli_wins() {
    let config = GatewayConfig {
        port: Some(1111),
        log: LogConfig::default(),
        index: IndexConfig::default(),
    };
    assert_eq!(resolve_port(Some(2222), &config), 2222);
}

#[test]
fn test_resolve_port_config_wins_over_default() {
    let config = GatewayConfig {
        port: Some(1111),
        log: LogConfig::default(),
        index: IndexConfig::default(),
    };
    assert_eq!(resolve_port(None, &config), 1111);
}

#[test]
fn test_resolve_port_default() {
    assert_eq!(
        resolve_port(None, &GatewayConfig::default()),
        DEFAULT_BRIDGE_PORT
    );
}

#[test]
fn test_index_path_discovery_covers_platform_precedence() {
    assert_eq!(
        index_path_from(
            Some("/xdg"),
            Some("/home/mike"),
            Some("/program-data"),
            false
        ),
        Some("/xdg/opcda-bridge/index.sqlite3".to_string())
    );
    assert_eq!(
        index_path_from(None, Some("/home/mike"), Some("/program-data"), false),
        Some("/home/mike/.local/share/opcda-bridge/index.sqlite3".to_string())
    );
    assert_eq!(
        index_path_from(None, None, Some("/program-data"), true),
        Some("/program-data/opcda-bridge/index.sqlite3".to_string())
    );
    assert_eq!(index_path_from(None, None, None, true), None);
    assert_eq!(index_path_from(None, None, None, false), None);
}

#[test]
fn test_resolve_index_config_applies_defaults_and_safe_bounds() {
    let config = IndexConfig {
        database_path: Some("custom.sqlite3".into()),
        servers: vec!["S".into()],
        enabled: Some(false),
        refresh_interval_seconds: Some(12),
        batch_size: Some(0),
        item_rate_limit: Some(0),
        burst_size: Some(0),
        duty_cycle_percent: Some(0),
        quiet_period_seconds: Some(3),
        health_probe_interval_seconds: Some(0),
        health_latency_threshold_ms: Some(4),
        maintenance_windows: vec!["22:00-06:00".into()],
        concurrency: Some(0),
        query_cache_capacity: Some(0),
        paused: Some(true),
        max_results: Some(0),
    };
    let resolved = resolve_index_config(&config, None, None, None, false);
    assert_eq!(resolved.database_path, "custom.sqlite3");
    assert_eq!(resolved.servers, vec!["S".to_string()]);
    assert!(!resolved.enabled);
    assert_eq!(resolved.refresh_interval_seconds, 12);
    assert_eq!(resolved.batch_size, 1);
    assert_eq!(resolved.item_rate_limit, 0);
    assert_eq!(resolved.burst_size, 1);
    assert_eq!(resolved.duty_cycle_percent, 1);
    assert_eq!(resolved.quiet_period_seconds, 3);
    assert_eq!(resolved.health_probe_interval_seconds, 1);
    assert_eq!(resolved.health_latency_threshold_ms, 4);
    assert_eq!(resolved.maintenance_windows, vec!["22:00-06:00"]);
    assert_eq!(resolved.concurrency, 1);
    assert_eq!(resolved.query_cache_capacity, 1);
    assert!(resolved.paused);
    assert_eq!(resolved.max_results, 1);
}

#[test]
fn empty_index_config_takes_the_built_in_settings() {
    let resolved = resolve_index_config(&IndexConfig::default(), None, None, None, false);
    assert_eq!(resolved.database_path, "opcda-bridge-index.sqlite3");
    assert!(resolved.servers.is_empty());
    assert!(resolved.enabled);
    assert!(!resolved.paused);
    assert_eq!(resolved.refresh_interval_seconds, 86_400);
    assert_eq!(resolved.max_results, 50);
    let at_home = resolve_index_config(
        &IndexConfig::default(),
        Some("/data"),
        Some("/home/x"),
        None,
        false,
    );
    assert_eq!(at_home.database_path, "/data/opcda-bridge/index.sqlite3");
    assert_eq!(at_home.initial_build_policy, InitialBuildPolicy::Immediate);
}
