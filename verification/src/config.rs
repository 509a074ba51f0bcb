//! Command line, configuration file and the settings that they resolve to.

use crate::paths::{directory_or_here, join_path, parent_path};
use crate::text::{copy_texts, push_text};
use vstd::prelude::*;

verus! {

/// The port that the bridge listens on unless told otherwise.
pub const DEFAULT_BRIDGE_PORT: u16 = 7600;

/// Windows service management subcommands. Give flags such as `--port` or
/// `--log-dir` *before* the subcommand: they are only meaningful on `install`,
/// where they become launch arguments of the registered service.
///
/// Running the executable with no subcommand auto-detects whether it was
/// launched by the Service Control Manager or interactively.
#[derive(Debug, Clone, Copy, PartialEq, Eq, Structural)]
pub enum ServiceCommand {
    /// Register the gateway as a Windows service (does not start it)
    Install,
    /// Remove the registered Windows service
    Uninstall,
    /// Start the registered Windows service
    Start,
    /// Stop the running Windows service
    Stop,
    /// Report the Windows service's current status
    Status,
    /// Open the index database once, so that it exists in its current schema
    IndexPrepare,
}

/// Command-line interface for the gateway.
#[derive(Debug, PartialEq, Eq)]
pub struct Cli {
    /// Service management command; absent to run the gateway itself.
    pub command: Option<ServiceCommand>,
    /// Path to a TOML config file (default: opcda-bridge-gateway.toml next to the executable)
    pub config: Option<String>,
    /// Port to listen on (default: 7600)
    pub port: Option<u16>,
    /// Log level / directive spec (default: info)
    pub log_level: Option<String>,
    /// Directory to write log files to (default: a "logs" directory next to the executable)
    pub log_dir: Option<String>,
    /// Log output format: "pretty" or "json" (default: pretty)
    pub log_format: Option<String>,
    /// Log file rotation: "hourly", "daily", or "never" (default: daily)
    pub log_rotation: Option<String>,
}

/// Gateway configuration loaded from an optional TOML file. Every field is
/// optional; a value missing from the file (or the file itself missing)
/// falls back to the env var / CLI flag / built-in default resolution.
#[derive(Debug, PartialEq, Eq)]
pub struct GatewayConfig {
    pub port: Option<u16>,
    pub log: LogConfig,
    pub index: IndexConfig,
}

/// Logging configuration keys.
#[derive(Debug, PartialEq, Eq)]
pub struct LogConfig {
    pub level: Option<String>,
    pub dir: Option<String>,
    pub format: Option<String>,
    pub rotation: Option<String>,
}

/// Persistent namespace-index settings.
#[derive(Debug, PartialEq, Eq)]
pub struct IndexConfig {
    /// Service-writable SQLite path. If omitted, the platform data directory
    /// is used.
    pub database_path: Option<String>,
    /// Only these OPC DA ProgIDs may be indexed automatically.
    pub servers: Vec<String>,
    /// Set false to disable automatic indexing while retaining manual APIs.
    pub enabled: Option<bool>,
    pub refresh_interval_seconds: Option<u64>,
    pub batch_size: Option<u32>,
    pub item_rate_limit: Option<u32>,
    pub burst_size: Option<u32>,
    pub duty_cycle_percent: Option<u8>,
    pub quiet_period_seconds: Option<u64>,
    pub health_probe_interval_seconds: Option<u64>,
    pub health_latency_threshold_ms: Option<u64>,
    pub maintenance_windows: Vec<String>,
    pub concurrency: Option<u32>,
    pub query_cache_capacity: Option<usize>,
    pub paused: Option<bool>,
    pub max_results: Option<u32>,
}

impl LogConfig {
    pub open spec fn is_empty(self) -> bool {
        self.level is None && self.dir is None && self.format is None && self.rotation is None
    }
}

impl Default for LogConfig {
    fn default() -> (config: Self)
        ensures
            config.is_empty(),
    {
        LogConfig { level: None, dir: None, format: None, rotation: None }
    }
}

impl IndexConfig {
    pub open spec fn is_empty(self) -> bool {
        &&& self.database_path is None
        &&& self.servers@.len() == 0
        &&& self.enabled is None
        &&& self.refresh_interval_seconds is None
        &&& self.batch_size is None
        &&& self.item_rate_limit is None
        &&& self.burst_size is None
        &&& self.duty_cycle_percent is None
        &&& self.quiet_period_seconds is None
        &&& self.health_probe_interval_seconds is None
        &&& self.health_latency_threshold_ms is None
        &&& self.maintenance_windows@.len() == 0
        &&& self.concurrency is None
        &&& self.query_cache_capacity is None
        &&& self.paused is None
        &&& self.max_results is None
    }
}

impl Default for IndexConfig {
    fn default() -> (config: Self)
        ensures
            config.is_empty(),
    {
        IndexConfig {
            database_path: None,
            servers: Vec::new(),
            enabled: None,
            refresh_interval_seconds: None,
            batch_size: None,
            item_rate_limit: None,
            burst_size: None,
            duty_cycle_percent: None,
            quiet_period_seconds: None,
            health_probe_interval_seconds: None,
            health_latency_threshold_ms: None,
            maintenance_windows: Vec::new(),
            concurrency: None,
            query_cache_capacity: None,
            paused: None,
            max_results: None,
        }
    }
}

impl GatewayConfig {
    pub open spec fn is_empty(self) -> bool {
        self.port is None && self.log.is_empty() && self.index.is_empty()
    }
}

impl Default for GatewayConfig {
    fn default() -> (config: Self)
        ensures
            config.is_empty(),
    {
        GatewayConfig { port: None, log: LogConfig::default(), index: IndexConfig::default() }
    }
}

/// When a server without an index is indexed for the first time.
#[derive(Debug, Clone, Copy, PartialEq, Eq, Structural)]
pub enum InitialBuildPolicy {
    Immediate,
    MaintenanceWindow,
    Manual,
}

/// Resolved index settings used by the gateway runtime.
#[derive(Debug, PartialEq, Eq)]
pub struct ResolvedIndexConfig {
    pub database_path: String,
    pub servers: Vec<String>,
    pub enabled: bool,
    pub refresh_interval_seconds: u64,
    pub initial_build_policy: InitialBuildPolicy,
    pub startup_grace_period_seconds: u64,
    pub schedule_jitter_seconds: u64,
    pub inventory_batch_size: u32,
    pub commit_batch_size: u32,
    pub commit_interval_ms: u64,
    pub batch_size: u32,
    pub item_rate_limit: u32,
    pub burst_size: u32,
    pub duty_cycle_percent: u8,
    pub adaptive: bool,
    pub minimum_item_rate: u32,
    pub minimum_batch_size: u32,
    pub minimum_duty_cycle_percent: u8,
    pub canary_item_rate: u32,
    pub canary_batch_size: u32,
    pub canary_duty_cycle_percent: u8,
    pub adaptive_healthy_window_seconds: u64,
    pub adaptive_recovery_delay_seconds: u64,
    pub adaptive_max_recovery_delay_seconds: u64,
    pub sentinel_tag: Option<String>,
    pub sentinel_probe_interval_seconds: u64,
    pub minimum_free_space_bytes: u64,
    pub storage_headroom_bytes: u64,
    pub circuit_failure_threshold: u32,
    pub circuit_open_seconds: u64,
    pub quiet_period_seconds: u64,
    pub health_probe_interval_seconds: u64,
    pub health_latency_threshold_ms: u64,
    pub operation_timeout_seconds: u64,
    pub maintenance_windows: Vec<String>,
    pub concurrency: u32,
    pub query_cache_capacity: usize,
    pub paused: bool,
    pub max_results: u32,
}

pub const DEFAULT_INDEX_REFRESH_INTERVAL_SECONDS: u64 = 86_400;

pub const DEFAULT_INDEX_BATCH_SIZE: u32 = 100;

pub const DEFAULT_INDEX_ITEM_RATE: u32 = 250;

pub const DEFAULT_INDEX_BURST_SIZE: u32 = 100;

pub const DEFAULT_INDEX_DUTY_CYCLE_PERCENT: u8 = 20;

pub const DEFAULT_INDEX_QUIET_PERIOD_SECONDS: u64 = 2;

pub const DEFAULT_INDEX_HEALTH_PROBE_INTERVAL_SECONDS: u64 = 30;

pub const DEFAULT_INDEX_HEALTH_LATENCY_THRESHOLD_MS: u64 = 500;

pub const DEFAULT_INDEX_CONCURRENCY: u32 = 1;

pub const DEFAULT_INDEX_QUERY_CACHE_CAPACITY: usize = 256;

pub const DEFAULT_INDEX_MAX_RESULTS: u32 = 50;

pub const DEFAULT_INDEX_COMMIT_INTERVAL_MS: u64 = 1_000;

pub const DEFAULT_INDEX_OPERATION_TIMEOUT_SECONDS: u64 = 30;

pub const DEFAULT_INDEX_CIRCUIT_FAILURE_THRESHOLD: u32 = 3;

pub const DEFAULT_INDEX_CIRCUIT_OPEN_SECONDS: u64 = 300;

/// A directory of the user or the platform, and the path of the index in it.
pub open spec fn index_under(directory: Seq<char>, path: Seq<char>) -> bool {
    exists|inner: Seq<char>|
        #[trigger] crate::paths::lies_in(directory, "opcda-bridge"@, inner)
            && crate::paths::lies_in(inner, "index.sqlite3"@, path)
}

/// The data directory below a home directory.
pub open spec fn index_under_home(home: Seq<char>, path: Seq<char>) -> bool {
    exists|local: Seq<char>, share: Seq<char>|
        #[trigger] crate::paths::lies_in(home, ".local"@, local)
            && #[trigger] crate::paths::lies_in(local, "share"@, share) && index_under(share, path)
}

fn index_in(directory: &str) -> (path: String)
    ensures
        index_under(directory@, path@),
{
    proof {
        reveal_strlit("opcda-bridge");
        reveal_strlit("index.sqlite3");
    }
    let inner = join_path(directory, "opcda-bridge");
    let path = join_path(inner.as_str(), "index.sqlite3");
    assert(crate::paths::lies_in(directory@, "opcda-bridge"@, inner@));
    path
}

/// Return the platform data path used for the gateway-owned index: below the
/// program data on Windows, elsewhere below the XDG data home or, without one,
/// below the home directory. Separators depend on the platform.
pub fn index_path_from(
    xdg_data_home: Option<&str>,
    home: Option<&str>,
    program_data: Option<&str>,
    is_windows: bool,
) -> (path: Option<String>)
    ensures
        is_windows ==> (path is Some <==> program_data is Some),
        is_windows ==> (path matches Some(p) ==> index_under(program_data->0@, p@)),
        !is_windows ==> (path is Some <==> xdg_data_home is Some || home is Some),
        !is_windows && xdg_data_home is Some ==> index_under(xdg_data_home->0@, path->0@),
        !is_windows && xdg_data_home is None && home is Some ==> index_under_home(
            home->0@,
            path->0@,
        ),
{
    if is_windows {
        return match program_data {
            Some(directory) => Some(index_in(directory)),
            None => None,
        };
    }
    if let Some(directory) = xdg_data_home {
        return Some(index_in(directory));
    }
    match home {
        Some(directory) => {
            proof {
                reveal_strlit(".local");
                reveal_strlit("share");
            }
            let local = join_path(directory, ".local");
            let share = join_path(local.as_str(), "share");
            let path = index_in(share.as_str());
            assert(crate::paths::lies_in(directory@, ".local"@, local@));
            assert(crate::paths::lies_in(local@, "share"@, share@));
            Some(path)
        },
        None => None,
    }
}

pub open spec fn or_default<T>(value: Option<T>, default: T) -> T {
    match value {
        Some(v) => v,
        None => default,
    }
}

pub open spec fn positive(n: int) -> int {
    if n < 1 {
        1
    } else {
        n
    }
}

fn positive_u32(value: Option<u32>, default: u32) -> (n: u32)
    ensures
        n == positive(or_default(value, default) as int),
{
    let n: u32 = match value {
        Some(v) => v,
        None => default,
    };
    if n < 1 {
        1
    } else {
        n
    }
}

fn positive_u64(value: Option<u64>, default: u64) -> (n: u64)
    ensures
        n == positive(or_default(value, default) as int),
{
    let n: u64 = match value {
        Some(v) => v,
        None => default,
    };
    if n < 1 {
        1
    } else {
        n
    }
}

impl ResolvedIndexConfig {
    /// What the settings of a configuration are, but for the database path.
    pub open spec fn resolves(self, config: IndexConfig) -> bool {
        &&& self.servers@ == config.servers@
        &&& self.enabled == or_default(config.enabled, true)
        &&& self.refresh_interval_seconds == or_default(
            config.refresh_interval_seconds,
            DEFAULT_INDEX_REFRESH_INTERVAL_SECONDS,
        )
        &&& self.batch_size == positive(
            or_default(config.batch_size, DEFAULT_INDEX_BATCH_SIZE) as int,
        )
        &&& self.inventory_batch_size == self.batch_size
        &&& self.commit_batch_size == self.batch_size
        &&& self.item_rate_limit == or_default(config.item_rate_limit, DEFAULT_INDEX_ITEM_RATE)
        &&& self.burst_size == positive(
            or_default(config.burst_size, DEFAULT_INDEX_BURST_SIZE) as int,
        )
        &&& self.duty_cycle_percent == crate::controller::clamped(
            or_default(config.duty_cycle_percent, DEFAULT_INDEX_DUTY_CYCLE_PERCENT) as int,
            1,
            100,
        )
        &&& self.quiet_period_seconds == or_default(
            config.quiet_period_seconds,
            DEFAULT_INDEX_QUIET_PERIOD_SECONDS,
        )
        &&& self.health_probe_interval_seconds == positive(
            or_default(
                config.health_probe_interval_seconds,
                DEFAULT_INDEX_HEALTH_PROBE_INTERVAL_SECONDS,
            ) as int,
        )
        &&& self.health_latency_threshold_ms == positive(
            or_default(
                config.health_latency_threshold_ms,
                DEFAULT_INDEX_HEALTH_LATENCY_THRESHOLD_MS,
            ) as int,
        )
        &&& self.maintenance_windows@ == config.maintenance_windows@
        &&& self.concurrency == positive(
            or_default(config.concurrency, DEFAULT_INDEX_CONCURRENCY) as int,
        )
        &&& self.query_cache_capacity == positive(
            or_default(config.query_cache_capacity, DEFAULT_INDEX_QUERY_CACHE_CAPACITY) as int,
        )
        &&& self.paused == or_default(config.paused, false)
        &&& self.max_results == positive(
            or_default(config.max_results, DEFAULT_INDEX_MAX_RESULTS) as int,
        )
    }

    /// The settings that no configuration key changes.
    pub open spec fn has_built_in_settings(self) -> bool {
        &&& self.initial_build_policy == InitialBuildPolicy::Immediate
        &&& self.startup_grace_period_seconds == 0
        &&& self.schedule_jitter_seconds == 0
        &&& self.commit_interval_ms == DEFAULT_INDEX_COMMIT_INTERVAL_MS
        &&& !self.adaptive
        &&& self.minimum_item_rate == 10
        &&& self.minimum_batch_size == 1
        &&& self.minimum_duty_cycle_percent == 1
        &&& self.canary_item_rate == 50
        &&& self.canary_batch_size == 25
        &&& self.canary_duty_cycle_percent == 5
        &&& self.adaptive_healthy_window_seconds == 30
        &&& self.adaptive_recovery_delay_seconds == 30
        &&& self.adaptive_max_recovery_delay_seconds == 300
        &&& self.sentinel_tag is None
        &&& self.sentinel_probe_interval_seconds == 30
        &&& self.minimum_free_space_bytes == 0
        &&& self.storage_headroom_bytes == 0
        &&& self.circuit_failure_threshold == DEFAULT_INDEX_CIRCUIT_FAILURE_THRESHOLD
        &&& self.circuit_open_seconds == DEFAULT_INDEX_CIRCUIT_OPEN_SECONDS
        &&& self.operation_timeout_seconds == DEFAULT_INDEX_OPERATION_TIMEOUT_SECONDS
    }
}

/// The settings of a configuration. `platform_path` is where the platform keeps
/// the index.
pub fn resolve_index_config_at(
    config: &IndexConfig,
    platform_path: Option<String>,
) -> (resolved: ResolvedIndexConfig)
    ensures
        resolved.database_path@ == (match config.database_path {
            Some(path) => path@,
            None => match platform_path {
                Some(path) => path@,
                None => "opcda-bridge-index.sqlite3"@,
            },
        }),
        resolved.resolves(*config),
        resolved.has_built_in_settings(),
{
    let database_path = match &config.database_path {
        Some(path) => path.clone(),
        None => match platform_path {
            Some(path) => path,
            None => "opcda-bridge-index.sqlite3".to_owned(),
        },
    };
    let batch_size: u32 = positive_u32(config.batch_size, DEFAULT_INDEX_BATCH_SIZE);
    let duty: u8 = match config.duty_cycle_percent {
        Some(percent) => percent,
        None => DEFAULT_INDEX_DUTY_CYCLE_PERCENT,
    };
    let capacity: usize = match config.query_cache_capacity {
        Some(n) => n,
        None => DEFAULT_INDEX_QUERY_CACHE_CAPACITY,
    };
    ResolvedIndexConfig {
        database_path,
        servers: copy_texts(&config.servers),
        enabled: match config.enabled {
            Some(enabled) => enabled,
            None => true,
        },
        refresh_interval_seconds: match config.refresh_interval_seconds {
            Some(seconds) => seconds,
            None => DEFAULT_INDEX_REFRESH_INTERVAL_SECONDS,
        },
        initial_build_policy: InitialBuildPolicy::Immediate,
        startup_grace_period_seconds: 0,
        schedule_jitter_seconds: 0,
        inventory_batch_size: batch_size,
        commit_batch_size: batch_size,
        commit_interval_ms: DEFAULT_INDEX_COMMIT_INTERVAL_MS,
        batch_size,
        item_rate_limit: match config.item_rate_limit {
            Some(rate) => rate,
            None => DEFAULT_INDEX_ITEM_RATE,
        },
        burst_size: positive_u32(config.burst_size, DEFAULT_INDEX_BURST_SIZE),
        duty_cycle_percent: if duty < 1 {
            1
        } else if duty > 100 {
            100
        } else {
            duty
        },
        adaptive: false,
        minimum_item_rate: 10,
        minimum_batch_size: 1,
        minimum_duty_cycle_percent: 1,
        canary_item_rate: 50,
        canary_batch_size: 25,
        canary_duty_cycle_percent: 5,
        adaptive_healthy_window_seconds: 30,
        adaptive_recovery_delay_seconds: 30,
        adaptive_max_recovery_delay_seconds: 300,
        sentinel_tag: None,
        sentinel_probe_interval_seconds: 30,
        minimum_free_space_bytes: 0,
        storage_headroom_bytes: 0,
        circuit_failure_threshold: DEFAULT_INDEX_CIRCUIT_FAILURE_THRESHOLD,
        circuit_open_seconds: DEFAULT_INDEX_CIRCUIT_OPEN_SECONDS,
        quiet_period_seconds: match config.quiet_period_seconds {
            Some(seconds) => seconds,
            None => DEFAULT_INDEX_QUIET_PERIOD_SECONDS,
        },
        health_probe_interval_seconds: positive_u64(
            config.health_probe_interval_seconds,
            DEFAULT_INDEX_HEALTH_PROBE_INTERVAL_SECONDS,
        ),
        health_latency_threshold_ms: positive_u64(
            config.health_latency_threshold_ms,
            DEFAULT_INDEX_HEALTH_LATENCY_THRESHOLD_MS,
        ),
        operation_timeout_seconds: DEFAULT_INDEX_OPERATION_TIMEOUT_SECONDS,
        maintenance_windows: copy_texts(&config.maintenance_windows),
        concurrency: positive_u32(config.concurrency, DEFAULT_INDEX_CONCURRENCY),
        query_cache_capacity: if capacity < 1 {
            1
        } else {
            capacity
        },
        paused: match config.paused {
            Some(paused) => paused,
            None => false,
        },
        max_results: positive_u32(config.max_results, DEFAULT_INDEX_MAX_RESULTS),
    }
}

/// The settings of a configuration on a platform with the given directories.
pub fn resolve_index_config(
    config: &IndexConfig,
    xdg_data_home: Option<&str>,
    home: Option<&str>,
    program_data: Option<&str>,
    is_windows: bool,
) -> (resolved: ResolvedIndexConfig)
    ensures
        config.database_path matches Some(path) ==> resolved.database_path@ == path@,
        config.database_path is None && is_windows && program_data is Some ==> index_under(
            program_data->0@,
            resolved.database_path@,
        ),
        config.database_path is None && !is_windows && xdg_data_home is Some ==> index_under(
            xdg_data_home->0@,
            resolved.database_path@,
        ),
        config.database_path is None && !is_windows && xdg_data_home is None && home is Some
            ==> index_under_home(home->0@, resolved.database_path@),
        config.database_path is None && (if is_windows {
            program_data is None
        } else {
            xdg_data_home is None && home is None
        }) ==> resolved.database_path@ == "opcda-bridge-index.sqlite3"@,
        resolved.resolves(*config),
        resolved.has_built_in_settings(),
{
    let platform_path = index_path_from(xdg_data_home, home, program_data, is_windows);
    resolve_index_config_at(config, platform_path)
}

/// The configuration file in a directory; `.` stands for a missing one.
pub fn config_path_in(parent: Option<String>) -> (path: String)
    ensures
        crate::paths::lies_in(
            crate::paths::directory_text(parent),
            "opcda-bridge-gateway.toml"@,
            path@,
        ),
{
    proof {
        reveal_strlit("opcda-bridge-gateway.toml");
    }
    let directory = directory_or_here(parent);
    join_path(directory.as_str(), "opcda-bridge-gateway.toml")
}

/// Derive the gateway's default config path from its own executable path:
/// `opcda-bridge-gateway.toml` next to the `.exe`. Where a path has no slash, what
/// its directory is depends on the platform: it is what stands before the last
/// backslash, or empty. A path that names no file may have none, and `.` stands
/// for it.
pub fn config_path_from_exe(exe_path: &str) -> (path: String)
    ensures
        forall|directory: Seq<char>, name: Seq<char>| #[trigger]
            crate::paths::splits(exe_path@, directory, name) ==> crate::paths::lies_in(
                directory,
                "opcda-bridge-gateway.toml"@,
                path@,
            ),
        forall|directory: Seq<char>, name: Seq<char>| #[trigger]
            crate::paths::splits_at_backslash(
                exe_path@,
                directory,
                name,
            ) ==> crate::paths::stands_in(directory, "opcda-bridge-gateway.toml"@, path@),
        crate::paths::plain_component(exe_path@) ==> path@ == "opcda-bridge-gateway.toml"@,
        exe_path@.len() == 0 || exe_path@ == seq!['/'] ==> crate::paths::lies_in(
            "."@,
            "opcda-bridge-gateway.toml"@,
            path@,
        ),
        exists|directory: Seq<char>|
            #[trigger] crate::paths::lies_in(directory, "opcda-bridge-gateway.toml"@, path@) && (directory
                == "."@ && !crate::paths::names_file(exe_path@) || (directory.len() < exe_path@.len() && crate::text::has_prefix(
                exe_path@,
                directory,
            ))),
        crate::text::has_suffix(path@, "opcda-bridge-gateway.toml"@),
{
    let parent = parent_path(exe_path);
    let ghost directory = crate::paths::directory_text(parent);
    let path = config_path_in(parent);
    assert(crate::paths::lies_in(directory, "opcda-bridge-gateway.toml"@, path@));
    proof {
        reveal_strlit("opcda-bridge-gateway.toml");
        assert("opcda-bridge-gateway.toml"@.len() == 25);
        assert(crate::paths::plain_component("opcda-bridge-gateway.toml"@));
        if crate::paths::plain_component(exe_path@) {
            assert(directory =~= Seq::<char>::empty());
            assert(path@ =~= "opcda-bridge-gateway.toml"@);
        }
    }
    path
}

/// Why a configuration file could not be read.
#[derive(Debug, PartialEq, Eq)]
pub enum ConfigReadFailure {
    NotFound,
    Other(String),
}

/// What an unreadable configuration file amounts to.
///
/// A missing file stands for the empty configuration unless
/// `missing_is_error` (the auto-discovered path may legitimately not exist
/// yet, an explicitly given one must). Any other failure is an error.
pub fn unreadable_config(
    path: &str,
    failure: ConfigReadFailure,
    missing_is_error: bool,
) -> (config: Result<GatewayConfig, String>)
    ensures
        config is Ok <==> failure is NotFound && !missing_is_error,
        config matches Ok(c) ==> c.is_empty(),
        failure is NotFound && missing_is_error ==> config->Err_0@ == "config file not found: "@
            + path@,
        failure matches ConfigReadFailure::Other(reason) ==> config->Err_0@
            == "failed to read config file "@ + path@ + ": "@ + reason@,
{
    match failure {
        ConfigReadFailure::NotFound => {
            if missing_is_error {
                Err(crate::text::joined("config file not found: ", path))
            } else {
                Ok(GatewayConfig::default())
            }
        },
        ConfigReadFailure::Other(reason) => {
            let mut message = crate::text::joined("failed to read config file ", path);
            push_text(&mut message, ": ");
            push_text(&mut message, reason.as_str());
            Err(message)
        },
    }
}

/// The error of a configuration file that is not valid. A typo in it is never
/// ignored silently.
pub fn malformed_config(path: &str, reason: &str) -> (message: String)
    ensures
        message@ == "failed to parse config file "@ + path@ + ": "@ + reason@,
{
    let mut message = crate::text::joined("failed to parse config file ", path);
    push_text(&mut message, ": ");
    push_text(&mut message, reason);
    message
}

/// Resolve the listen port with `CLI flag > env var > config file >
/// default` precedence. The env var is already folded into `cli_port`.
pub fn resolve_port(cli_port: Option<u16>, config: &GatewayConfig) -> (port: u16)
    ensures
        port == (match cli_port {
            Some(p) => p,
            None => match config.port {
                Some(p) => p,
                None => DEFAULT_BRIDGE_PORT,
            },
        }),
        cli_port is None && config.port is None ==> port == 7_600,
{
    match cli_port {
        Some(port) => port,
        None => match config.port {
            Some(port) => port,
            None => DEFAULT_BRIDGE_PORT,
        },
    }
}

/// What is configured counts, and what is not has its default. A count of zero
/// where something is needed counts as one, and a duty cycle as the nearest that
/// there is.
pub proof fn settings_are_what_is_configured(resolved: ResolvedIndexConfig, config: IndexConfig)
    requires
        resolved.resolves(config),
    ensures
        resolved.servers@ == config.servers@,
        resolved.maintenance_windows@ == config.maintenance_windows@,
        config.enabled matches Some(enabled) ==> resolved.enabled == enabled,
        config.paused matches Some(paused) ==> resolved.paused == paused,
        config.refresh_interval_seconds matches Some(n) ==> resolved.refresh_interval_seconds == n,
        config.item_rate_limit matches Some(n) ==> resolved.item_rate_limit == n,
        config.quiet_period_seconds matches Some(n) ==> resolved.quiet_period_seconds == n,
        config.batch_size matches Some(n) ==> n >= 1 ==> resolved.batch_size == n
            && resolved.inventory_batch_size == n && resolved.commit_batch_size == n,
        config.burst_size matches Some(n) ==> n >= 1 ==> resolved.burst_size == n,
        config.duty_cycle_percent matches Some(n) ==> 1 <= n <= 100 ==> resolved.duty_cycle_percent
            == n,
        config.duty_cycle_percent matches Some(n) ==> n > 100 ==> resolved.duty_cycle_percent
            == 100,
        config.health_probe_interval_seconds matches Some(n) ==> n >= 1
            ==> resolved.health_probe_interval_seconds == n,
        config.health_latency_threshold_ms matches Some(n) ==> n >= 1
            ==> resolved.health_latency_threshold_ms == n,
        config.concurrency matches Some(n) ==> n >= 1 ==> resolved.concurrency == n,
        config.query_cache_capacity matches Some(n) ==> n >= 1 ==> resolved.query_cache_capacity
            == n,
        config.max_results matches Some(n) ==> n >= 1 ==> resolved.max_results == n,
        resolved.batch_size >= 1 && resolved.burst_size >= 1 && resolved.duty_cycle_percent >= 1,
        resolved.health_probe_interval_seconds >= 1 && resolved.health_latency_threshold_ms >= 1,
        resolved.concurrency >= 1 && resolved.query_cache_capacity >= 1 && resolved.max_results
            >= 1,
{
}

/// The defaults: indexing is on, once a day, a hundred entries at a time and 250
/// a second, for a fifth of the time, one server after the other. It keeps quiet
/// for two seconds, probes twice a minute and expects an answer in half a
/// second, keeps 256 answers and gives 50 results.
pub proof fn defaults_are_moderate(resolved: ResolvedIndexConfig, config: IndexConfig)
    requires
        resolved.resolves(config),
    ensures
        config.enabled is None ==> resolved.enabled,
        config.paused is None ==> !resolved.paused,
        config.refresh_interval_seconds is None ==> resolved.refresh_interval_seconds == 86_400,
        config.batch_size is None ==> resolved.batch_size == 100,
        config.item_rate_limit is None ==> resolved.item_rate_limit == 250,
        config.burst_size is None ==> resolved.burst_size == 100,
        config.duty_cycle_percent is None ==> resolved.duty_cycle_percent == 20,
        config.quiet_period_seconds is None ==> resolved.quiet_period_seconds == 2,
        config.health_probe_interval_seconds is None ==> resolved.health_probe_interval_seconds
            == 30,
        config.health_latency_threshold_ms is None ==> resolved.health_latency_threshold_ms == 500,
        config.concurrency is None ==> resolved.concurrency == 1,
        config.query_cache_capacity is None ==> resolved.query_cache_capacity == 256,
        config.max_results is None ==> resolved.max_results == 50,
{
}

/// What cannot be configured: commits come once a second, an operation may take
/// half a minute, and after three failures in a row the circuit opens for five
/// minutes.
pub proof fn built_in_settings_are_fixed(resolved: ResolvedIndexConfig)
    requires
        resolved.has_built_in_settings(),
    ensures
        resolved.initial_build_policy is Immediate,
        resolved.commit_interval_ms == 1_000,
        resolved.operation_timeout_seconds == 30,
        resolved.circuit_failure_threshold == 3,
        resolved.circuit_open_seconds == 300,
        resolved.schedule_jitter_seconds == 0,
        resolved.startup_grace_period_seconds == 0,
        resolved.sentinel_tag is None,
        resolved.sentinel_probe_interval_seconds == 30,
        resolved.minimum_free_space_bytes == 0,
        resolved.storage_headroom_bytes == 0,
        !resolved.adaptive,
        resolved.minimum_item_rate == 10 && resolved.canary_item_rate == 50,
        resolved.minimum_batch_size == 1 && resolved.canary_batch_size == 25,
        resolved.minimum_duty_cycle_percent == 1 && resolved.canary_duty_cycle_percent == 5,
        resolved.adaptive_healthy_window_seconds == 30,
        resolved.adaptive_recovery_delay_seconds == 30,
        resolved.adaptive_max_recovery_delay_seconds == 300,
{
}

/// A configuration that is missing sets nothing, so that everything has its
/// default.
pub proof fn missing_configurations_leave_the_defaults(
    config: GatewayConfig,
    resolved: ResolvedIndexConfig,
)
    requires
        config.is_empty(),
        resolved.resolves(config.index),
    ensures
        config.port is None,
        config.log.level is None && config.log.dir is None,
        config.log.format is None && config.log.rotation is None,
        config.index.database_path is None,
        resolved.servers@.len() == 0 && resolved.maintenance_windows@.len() == 0,
        resolved.enabled && !resolved.paused,
        resolved.refresh_interval_seconds == 86_400 && resolved.batch_size == 100,
        resolved.item_rate_limit == 250 && resolved.burst_size == 100,
        resolved.duty_cycle_percent == 20 && resolved.quiet_period_seconds == 2,
        resolved.health_probe_interval_seconds == 30,
        resolved.health_latency_threshold_ms == 500,
        resolved.concurrency == 1 && resolved.query_cache_capacity == 256,
        resolved.max_results == 50,
{
}

} // verus!
