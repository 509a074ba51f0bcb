use opcda_bridge_gateway::config::LogConfig;
use opcda_bridge_gateway::logging::{
    build_env_filter, choose_filter, filter_can_be_cut, log_dir_from_exe, parse_log_format,
    parse_rotation, resolve_log_settings, LogFormat, Rotation,
};

#[test]
fn test_parse_log_format_json() {
    assert_eq!(parse_log_format(Some("json")), LogFormat::Json);
    assert_eq!(parse_log_format(Some("JSON")), LogFormat::Json);
}

#[test]
fn test_parse_log_format_pretty() {
    assert_eq!(parse_log_format(Some("pretty")), LogFormat::Pretty);
}

#[test]
fn test_parse_log_format_unknown_defaults_to_pretty() {
    assert_eq!(parse_log_format(Some("yaml")), LogFormat::Pretty);
}

#[test]
fn test_parse_log_format_none_defaults_to_pretty() {
    assert_eq!(parse_log_format(None), LogFormat::Pretty);
}

#[test]
fn test_parse_rotation_hourly() {
    assert_eq!(parse_rotation(Some("hourly")), Rotation::Hourly);
    assert_eq!(parse_rotation(Some("HOURLY")), Rotation::Hourly);
}

#[test]
fn test_parse_rotation_never() {
    assert_eq!(parse_rotation(Some("never")), Rotation::Never);
}

#[test]
fn test_parse_rotation_daily() {
    assert_eq!(parse_rotation(Some("daily")), Rotation::Daily);
}

#[test]
fn test_parse_rotation_unknown_defaults_to_daily() {
    assert_eq!(parse_rotation(Some("weekly")), Rotation::Daily);
}

#[test]
fn test_parse_rotation_none_defaults_to_daily() {
    assert_eq!(parse_rotation(None), Rotation::Daily);
}

#[test]
fn test_log_dir_from_exe_with_parent() {
    let dir = log_dir_from_exe("/usr/local/bin/opcda-bridge-gateway");
    assert_eq!(dir, "/usr/local/bin/logs");
}

#[test]
fn test_log_dir_from_exe_no_parent() {
    let dir = log_dir_from_exe("/");
    assert_eq!(dir, "./logs");
}

#[test]
fn test_build_env_filter_explicit_level() {
    let filter = build_env_filter(Some("debug"));
    assert!(filter.contains("debug"));
}

#[test]
fn test_build_env_filter_invalid_falls_back_to_info() {
    // "notalevel" is not one of the recognized level names or numbers, so this
    // is a genuine parse failure.
    let filter = build_env_filter(Some("level=notalevel"));
    assert!(filter.contains("info"));
    assert!(!filter.contains("notalevel"));
}

#[test]
fn test_build_env_filter_none_defaults_to_info() {
    let filter = build_env_filter(None);
    assert!(filter.contains("info"));
}

#[test]
fn chosen_filter_follows_its_validity() {
    assert_eq!(choose_filter(Some("warn"), true), "warn");
    assert_eq!(choose_filter(Some("warn"), false), "info");
    assert_eq!(choose_filter(None, true), "info");
}

#[test]
fn test_resolve_log_settings_cli_wins() {
    let config = LogConfig {
        level: Some("warn".to_string()),
        dir: Some("/config/dir".to_string()),
        format: Some("json".to_string()),
        rotation: Some("hourly".to_string()),
    };
    let settings = resolve_log_settings(
        Some("debug".to_string()),
        Some("/cli/dir".to_string()),
        Some("pretty".to_string()),
        Some("never".to_string()),
        &config,
        "/default/dir",
    );
    assert_eq!(settings.level, Some("debug".to_string()));
    assert_eq!(settings.dir, "/cli/dir");
    assert_eq!(settings.format, LogFormat::Pretty);
    assert_eq!(settings.rotation, Rotation::Never);
}

#[test]
fn test_resolve_log_settings_config_wins_over_default() {
    let config = LogConfig {
        level: Some("warn".to_string()),
        dir: Some("/config/dir".to_string()),
        format: Some("json".to_string()),
        rotation: Some("hourly".to_string()),
    };
    let settings = resolve_log_settings(None, None, None, None, &config, "/default/dir");
    assert_eq!(settings.level, Some("warn".to_string()));
    assert_eq!(settings.dir, "/config/dir");
    assert_eq!(settings.format, LogFormat::Json);
    assert_eq!(settings.rotation, Rotation::Hourly);
}

#[test]
fn test_resolve_log_settings_defaults() {
    let settings = resolve_log_settings(
        None,
        None,
        None,
        None,
        &LogConfig::default(),
        "/default/dir",
    );
    assert_eq!(settings.level, None);
    assert_eq!(settings.dir, "/default/dir");
    assert_eq!(settings.format, LogFormat::Pretty);
    assert_eq!(settings.rotation, Rotation::Daily);
}

#[test]
fn filters_that_cannot_be_cut_fall_back_to_info() {
    for spec in [
        "\u{a0}a=info",
        " a\u{e9}=info",
        "debug, caf\u{e9}=info",
        " [a\u{e9}]",
        " [a{b\u{e9}}]",
    ] {
        assert!(!filter_can_be_cut(spec));
        assert_eq!(build_env_filter(Some(spec)), "info");
    }
}

#[test]
fn ordinary_filters_can_be_cut() {
    for spec in [
        "debug",
        "a=info, b=debug",
        "caf\u{e9}=info,[span{field=\u{e9}}]=debug",
        " caf\u{e9}",
        " a\u{e9}]",
        " [\u{e9}=]",
        "",
    ] {
        assert!(filter_can_be_cut(spec));
    }
    let spec = "caf\u{e9}=debug,tower=warn";
    assert_eq!(build_env_filter(Some(spec)), spec);
    for spec in [" caf\u{e9}", " a\u{e9}]", " [\u{e9}=]"] {
        assert_eq!(build_env_filter(Some(spec)), spec);
    }
}
