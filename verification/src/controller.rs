//! Adaptive control of the inventory load: additive increase while everything
//! is healthy, multiplicative decrease under pressure, and pauses with
//! exponential recovery when a guardrail is crossed.

use crate::measurement::Measurement;
use crate::opc::MAX_NATIVE_INVENTORY_BATCH_SIZE;
use crate::time::{Duration, Instant};
use vstd::prelude::*;

verus! {

/// The reason an inventory controller is not admitting another native slice.
#[derive(Debug, Clone, Copy, PartialEq, Eq, Structural)]
pub enum PauseReason {
    Foreground,
    OpcHealth,
    HostCpu,
    Memory,
    Disk,
    Database,
    Operator,
    Circuit,
    Maintenance,
}

impl PauseReason {
    /// The name under which the reason is reported.
    pub open spec fn name(self) -> Seq<char> {
        match self {
            PauseReason::Foreground => "foreground"@,
            PauseReason::OpcHealth => "opc_health"@,
            PauseReason::HostCpu => "host_cpu"@,
            PauseReason::Memory => "memory"@,
            PauseReason::Disk => "disk"@,
            PauseReason::Database => "database"@,
            PauseReason::Operator => "operator"@,
            PauseReason::Circuit => "circuit"@,
            PauseReason::Maintenance => "maintenance"@,
        }
    }

    pub fn as_str(self) -> (name: &'static str)
        ensures
            name@ == self.name(),
    {
        match self {
            PauseReason::Foreground => "foreground",
            PauseReason::OpcHealth => "opc_health",
            PauseReason::HostCpu => "host_cpu",
            PauseReason::Memory => "memory",
            PauseReason::Disk => "disk",
            PauseReason::Database => "database",
            PauseReason::Operator => "operator",
            PauseReason::Circuit => "circuit",
            PauseReason::Maintenance => "maintenance",
        }
    }
}

/// The adaptive controller's current operating state.
#[derive(Debug, Clone, Copy, PartialEq, Eq, Structural)]
pub enum ControllerState {
    Ramping,
    Steady,
    Throttled,
    Paused(PauseReason),
}

/// The effective limits sent to the inventory worker.
#[derive(Debug, Clone, Copy, PartialEq, Eq, Structural)]
pub struct InventoryLimits {
    pub item_rate_per_second: u32,
    pub batch_size: u32,
    pub duty_cycle_percent: u8,
}

impl InventoryLimits {
    /// Whether no limit exceeds its counterpart in `other`.
    pub open spec fn within(self, other: Self) -> bool {
        &&& self.item_rate_per_second <= other.item_rate_per_second
        &&& self.batch_size <= other.batch_size
        &&& self.duty_cycle_percent <= other.duty_cycle_percent
    }
}

pub open spec fn at_least(x: int, low: int) -> int {
    if x < low {
        low
    } else {
        x
    }
}

pub open spec fn at_most(x: int, high: int) -> int {
    if x > high {
        high
    } else {
        x
    }
}

/// The point of the range `low..=high` that is nearest to `x`.
pub open spec fn clamped(x: int, low: int, high: int) -> int {
    at_most(at_least(x, low), high)
}

fn clamp_u32(x: u32, low: u32, high: u32) -> (y: u32)
    requires
        low <= high,
    ensures
        y == clamped(x as int, low as int, high as int),
{
    if x < low {
        low
    } else if x > high {
        high
    } else {
        x
    }
}

fn clamp_u8(x: u8, low: u8, high: u8) -> (y: u8)
    requires
        low <= high,
    ensures
        y == clamped(x as int, low as int, high as int),
{
    if x < low {
        low
    } else if x > high {
        high
    } else {
        x
    }
}

fn max_u32(a: u32, b: u32) -> (m: u32)
    ensures
        m == at_least(a as int, b as int),
{
    if a < b {
        b
    } else {
        a
    }
}

fn max_u8(a: u8, b: u8) -> (m: u8)
    ensures
        m == at_least(a as int, b as int),
{
    if a < b {
        b
    } else {
        a
    }
}

/// Configurable floors, ceilings, and recovery timing for AIMD control.
#[derive(Debug, Clone, Copy, PartialEq, Eq, Structural)]
pub struct ControllerConfig {
    pub floor: InventoryLimits,
    pub canary: InventoryLimits,
    pub ceiling: InventoryLimits,
    pub unlimited_item_rate: bool,
    pub healthy_window: Duration,
    pub recovery_delay: Duration,
    pub maximum_recovery_delay: Duration,
    pub foreground_latency_absolute_ms: u64,
}

impl ControllerConfig {
    /// The configured limits, each moved into `low..=high`; the item rate is
    /// zero when it is unlimited.
    pub open spec fn fitted(
        self,
        limits: InventoryLimits,
        low: InventoryLimits,
        high: InventoryLimits,
    ) -> InventoryLimits {
        InventoryLimits {
            item_rate_per_second: if self.unlimited_item_rate {
                0
            } else {
                clamped(
                    limits.item_rate_per_second as int,
                    low.item_rate_per_second as int,
                    high.item_rate_per_second as int,
                ) as u32
            },
            batch_size: clamped(
                limits.batch_size as int,
                low.batch_size as int,
                high.batch_size as int,
            ) as u32,
            duty_cycle_percent: clamped(
                limits.duty_cycle_percent as int,
                low.duty_cycle_percent as int,
                high.duty_cycle_percent as int,
            ) as u8,
        }
    }

    /// The smallest limits that make progress.
    pub open spec fn least() -> InventoryLimits {
        InventoryLimits { item_rate_per_second: 1, batch_size: 1, duty_cycle_percent: 1 }
    }

    /// The largest limits that the native boundary accepts.
    pub open spec fn greatest() -> InventoryLimits {
        InventoryLimits {
            item_rate_per_second: u32::MAX,
            batch_size: MAX_NATIVE_INVENTORY_BATCH_SIZE,
            duty_cycle_percent: 100,
        }
    }

    pub open spec fn normal_form(self) -> Self {
        let floor = self.fitted(self.floor, Self::least(), Self::greatest());
        let ceiling = self.fitted(self.ceiling, floor, Self::greatest());
        let recovery_delay = self.recovery_delay.longest(Duration::of_millis(1));
        ControllerConfig {
            floor,
            canary: self.fitted(self.canary, floor, ceiling),
            ceiling,
            unlimited_item_rate: self.unlimited_item_rate,
            healthy_window: self.healthy_window.longest(Duration::of_millis(1)),
            recovery_delay,
            maximum_recovery_delay: self.maximum_recovery_delay.longest(recovery_delay),
            foreground_latency_absolute_ms: at_least(
                self.foreground_latency_absolute_ms as int,
                1,
            ) as u64,
        }
    }

    /// A configuration that the controller can run with.
    pub open spec fn ordered(self) -> bool {
        &&& self.floor.within(self.canary)
        &&& self.canary.within(self.ceiling)
        &&& self.ceiling.within(Self::greatest())
        &&& self.floor.batch_size >= 1
        &&& self.floor.duty_cycle_percent >= 1
        &&& !self.unlimited_item_rate ==> self.floor.item_rate_per_second >= 1
        &&& self.unlimited_item_rate ==> self.ceiling.item_rate_per_second == 0
        &&& self.healthy_window.nanos >= 1_000_000
        &&& self.recovery_delay.nanos >= 1_000_000
        &&& self.recovery_delay.nanos <= self.maximum_recovery_delay.nanos
        &&& self.foreground_latency_absolute_ms >= 1
    }

    pub fn normalized(self) -> (config: Self)
        ensures
            config == self.normal_form(),
            config.ordered(),
    {
        let floor = InventoryLimits {
            item_rate_per_second: if self.unlimited_item_rate {
                0
            } else {
                max_u32(self.floor.item_rate_per_second, 1)
            },
            batch_size: clamp_u32(self.floor.batch_size, 1, MAX_NATIVE_INVENTORY_BATCH_SIZE),
            duty_cycle_percent: clamp_u8(self.floor.duty_cycle_percent, 1, 100),
        };
        let ceiling = InventoryLimits {
            item_rate_per_second: if self.unlimited_item_rate {
                0
            } else {
                max_u32(self.ceiling.item_rate_per_second, floor.item_rate_per_second)
            },
            batch_size: clamp_u32(
                self.ceiling.batch_size,
                floor.batch_size,
                MAX_NATIVE_INVENTORY_BATCH_SIZE,
            ),
            duty_cycle_percent: clamp_u8(
                self.ceiling.duty_cycle_percent,
                floor.duty_cycle_percent,
                100,
            ),
        };
        let canary = InventoryLimits {
            item_rate_per_second: if self.unlimited_item_rate {
                0
            } else {
                clamp_u32(
                    self.canary.item_rate_per_second,
                    floor.item_rate_per_second,
                    ceiling.item_rate_per_second,
                )
            },
            batch_size: clamp_u32(self.canary.batch_size, floor.batch_size, ceiling.batch_size),
            duty_cycle_percent: clamp_u8(
                self.canary.duty_cycle_percent,
                floor.duty_cycle_percent,
                ceiling.duty_cycle_percent,
            ),
        };
        let recovery_delay = self.recovery_delay.max(Duration::from_millis(1));
        ControllerConfig {
            floor,
            canary,
            ceiling,
            unlimited_item_rate: self.unlimited_item_rate,
            healthy_window: self.healthy_window.max(Duration::from_millis(1)),
            recovery_delay,
            maximum_recovery_delay: self.maximum_recovery_delay.max(recovery_delay),
            foreground_latency_absolute_ms: if self.foreground_latency_absolute_ms < 1 {
                1
            } else {
                self.foreground_latency_absolute_ms
            },
        }
    }
}

impl Default for ControllerConfig {
    fn default() -> (config: Self)
        ensures
            config == (ControllerConfig {
                floor: InventoryLimits {
                    item_rate_per_second: 10,
                    batch_size: 1,
                    duty_cycle_percent: 1,
                },
                canary: InventoryLimits {
                    item_rate_per_second: 50,
                    batch_size: 25,
                    duty_cycle_percent: 5,
                },
                ceiling: InventoryLimits {
                    item_rate_per_second: 250,
                    batch_size: 100,
                    duty_cycle_percent: 20,
                },
                unlimited_item_rate: false,
                healthy_window: Duration::of_secs(30),
                recovery_delay: Duration::of_secs(30),
                maximum_recovery_delay: Duration::of_secs(300),
                foreground_latency_absolute_ms: 2_000,
            }),
    {
        ControllerConfig {
            floor: InventoryLimits {
                item_rate_per_second: 10,
                batch_size: 1,
                duty_cycle_percent: 1,
            },
            canary: InventoryLimits {
                item_rate_per_second: 50,
                batch_size: 25,
                duty_cycle_percent: 5,
            },
            ceiling: InventoryLimits {
                item_rate_per_second: 250,
                batch_size: 100,
                duty_cycle_percent: 20,
            },
            unlimited_item_rate: false,
            healthy_window: Duration::from_secs(30),
            recovery_delay: Duration::from_secs(30),
            maximum_recovery_delay: Duration::from_secs(300),
            foreground_latency_absolute_ms: 2_000,
        }
    }
}

/// Normalizing a configuration twice changes nothing more.
pub proof fn normal_form_is_stable(config: ControllerConfig)
    ensures
        config.normal_form().ordered(),
        config.normal_form().normal_form() == config.normal_form(),
{
}

/// A configuration that is already in order is left as it is.
pub proof fn ordered_configuration_is_kept(config: ControllerConfig)
    requires
        config.ordered(),
    ensures
        config.normal_form() == config,
{
}

/// A snapshot of foreground, OPC, host, and storage health.
#[derive(Debug, Clone, Copy, PartialEq, Eq)]
pub struct ControllerObservation {
    pub foreground_active: bool,
    pub foreground_error: bool,
    pub foreground_bad_quality: bool,
    pub foreground_latency_ms: Option<u64>,
    pub baseline_latency_ms: Option<u64>,
    pub inventory_error: bool,
    pub host_cpu_percent: Option<Measurement>,
    pub available_memory_percent: Option<Measurement>,
    pub disk_active_percent: Option<Measurement>,
    pub disk_queue: Option<Measurement>,
    pub database_commit_p95_ms: Option<u64>,
    pub insufficient_disk_space: bool,
}

impl Default for ControllerObservation {
    fn default() -> (observation: Self)
        ensures
            observation == (ControllerObservation {
                foreground_active: false,
                foreground_error: false,
                foreground_bad_quality: false,
                foreground_latency_ms: None,
                baseline_latency_ms: None,
                inventory_error: false,
                host_cpu_percent: None,
                available_memory_percent: None,
                disk_active_percent: None,
                disk_queue: None,
                database_commit_p95_ms: None,
                insufficient_disk_space: false,
            }),
    {
        ControllerObservation {
            foreground_active: false,
            foreground_error: false,
            foreground_bad_quality: false,
            foreground_latency_ms: None,
            baseline_latency_ms: None,
            inventory_error: false,
            host_cpu_percent: None,
            available_memory_percent: None,
            disk_active_percent: None,
            disk_queue: None,
            database_commit_p95_ms: None,
            insufficient_disk_space: false,
        }
    }
}

/// Host resource measurements used by the adaptive controller.
///
/// `None` is explicit unavailability, not a zero reading.
#[derive(Debug, Clone, Copy, PartialEq, Eq)]
pub struct HostMetrics {
    pub cpu_percent: Option<Measurement>,
    pub available_memory_percent: Option<Measurement>,
    pub disk_active_percent: Option<Measurement>,
    pub disk_queue: Option<Measurement>,
    pub process_working_set_bytes: Option<u64>,
    pub process_private_bytes: Option<u64>,
    pub process_read_bytes_per_second: Option<u64>,
    pub process_write_bytes_per_second: Option<u64>,
    pub disk_free_bytes: Option<u64>,
}

impl HostMetrics {
    /// No reading at all.
    pub open spec fn unavailable() -> Self {
        HostMetrics {
            cpu_percent: None,
            available_memory_percent: None,
            disk_active_percent: None,
            disk_queue: None,
            process_working_set_bytes: None,
            process_private_bytes: None,
            process_read_bytes_per_second: None,
            process_write_bytes_per_second: None,
            disk_free_bytes: None,
        }
    }
}

impl Default for HostMetrics {
    fn default() -> (metrics: Self)
        ensures
            metrics == HostMetrics::unavailable(),
    {
        HostMetrics {
            cpu_percent: None,
            available_memory_percent: None,
            disk_active_percent: None,
            disk_queue: None,
            process_working_set_bytes: None,
            process_private_bytes: None,
            process_read_bytes_per_second: None,
            process_write_bytes_per_second: None,
            disk_free_bytes: None,
        }
    }
}

pub trait HostMetricsProvider: Send + Sync {
    fn snapshot(&self) -> HostMetrics;
}

#[derive(Debug, Default)]
pub struct UnavailableHostMetrics;

impl HostMetricsProvider for UnavailableHostMetrics {
    fn snapshot(&self) -> (metrics: HostMetrics)
        ensures
            metrics == HostMetrics::unavailable(),
    {
        HostMetrics::default()
    }
}

/// A reasoned controller output, suitable for both logging and worker control.
#[derive(Debug, Clone, Copy, PartialEq, Eq)]
pub struct ControllerDecision {
    pub state: ControllerState,
    pub limits: InventoryLimits,
    pub paused: bool,
    pub reason: Option<PauseReason>,
    pub recovery_at: Option<Instant>,
    pub transitioned: bool,
}

pub struct AdaptiveIndexController {
    pub config: ControllerConfig,
    pub state: ControllerState,
    pub limits: InventoryLimits,
    pub hold_until: Option<Instant>,
    pub recovery_at: Option<Instant>,
    pub recovery_exponent: u32,
    pub last_reason: Option<PauseReason>,
}

pub open spec fn reached(value: Option<Measurement>, threshold: nat) -> bool {
    value matches Some(m) && m.reaches(threshold)
}

pub open spec fn not_above(value: Option<Measurement>, threshold: nat) -> bool {
    value matches Some(m) && m.stays_within(threshold)
}

pub open spec fn latency_reached(value: Option<u64>, threshold: int) -> bool {
    value matches Some(ms) && ms >= threshold
}

/// A product of a latency, capped at the largest 64-bit count.
pub open spec fn scaled_latency(ms: u64, factor: int) -> int {
    at_most(ms * factor, u64::MAX as int)
}

/// The guardrail, if any, that an observation crosses: the first in the order
/// OPC health, processor, memory, disk, database.
pub open spec fn crossed_guardrail(
    config: ControllerConfig,
    seen: ControllerObservation,
) -> Option<PauseReason> {
    let baseline = match seen.baseline_latency_ms {
        Some(ms) => ms,
        None => config.foreground_latency_absolute_ms,
    };
    let latency_limit = at_least(
        config.foreground_latency_absolute_ms as int,
        scaled_latency(baseline, 4),
    );
    if seen.foreground_error || seen.foreground_bad_quality || seen.inventory_error
        || latency_reached(seen.foreground_latency_ms, latency_limit) {
        Some(PauseReason::OpcHealth)
    } else if reached(seen.host_cpu_percent, 85) {
        Some(PauseReason::HostCpu)
    } else if not_above(seen.available_memory_percent, 8) {
        Some(PauseReason::Memory)
    } else if reached(seen.disk_active_percent, 90) || reached(seen.disk_queue, 5) {
        Some(PauseReason::Disk)
    } else if latency_reached(seen.database_commit_p95_ms, 1_000) || seen.insufficient_disk_space {
        Some(PauseReason::Database)
    } else {
        None
    }
}

/// The pressure, if any, that calls for smaller limits.
pub open spec fn felt_pressure(seen: ControllerObservation) -> Option<PauseReason> {
    if seen.baseline_latency_ms matches Some(baseline) && latency_reached(
        seen.foreground_latency_ms,
        scaled_latency(baseline, 2),
    ) {
        Some(PauseReason::OpcHealth)
    } else if reached(seen.host_cpu_percent, 70) {
        Some(PauseReason::HostCpu)
    } else if not_above(seen.available_memory_percent, 15) {
        Some(PauseReason::Memory)
    } else if reached(seen.disk_active_percent, 70) || reached(seen.disk_queue, 2) {
        Some(PauseReason::Disk)
    } else if latency_reached(seen.database_commit_p95_ms, 250) {
        Some(PauseReason::Database)
    } else {
        None
    }
}

pub open spec fn power_of_two(exponent: nat) -> nat
    decreases exponent,
{
    if exponent == 0 {
        1
    } else {
        2 * power_of_two((exponent - 1) as nat)
    }
}

impl AdaptiveIndexController {
    /// What holds of a controller between observations.
    pub open spec fn wf(self) -> bool {
        &&& self.config.ordered()
        &&& self.config.floor.within(self.limits)
        &&& self.limits.within(self.config.ceiling)
        &&& self.is_coherent()
    }

    /// Whether the reason and the recovery time fit the state: a paused or
    /// throttled controller has a reason, one that works freely has none, and
    /// a recovery time is set exactly for pauses that end by themselves.
    pub open spec fn is_coherent(self) -> bool {
        &&& match self.state {
            ControllerState::Paused(reason) => self.last_reason == Some(reason),
            ControllerState::Throttled => self.last_reason is Some,
            ControllerState::Ramping | ControllerState::Steady => self.last_reason is None,
        }
        &&& self.recovery_at is Some <==> (self.state is Paused && self.state
            != ControllerState::Paused(PauseReason::Foreground))
    }

    /// Whether the clock can represent the deadlines set at `now`.
    pub open spec fn clock_fits(self, now: Instant) -> bool {
        now.can_add(self.config.healthy_window) && now.can_add(self.config.maximum_recovery_delay)
    }

    pub open spec fn started(config: ControllerConfig, now: Instant) -> Self {
        let config = config.normal_form();
        AdaptiveIndexController {
            config,
            state: ControllerState::Ramping,
            limits: config.canary,
            hold_until: Some(now.after(config.healthy_window)),
            recovery_at: None,
            recovery_exponent: 0,
            last_reason: None,
        }
    }

    pub fn new(config: ControllerConfig, now: Instant) -> (controller: Self)
        requires
            now.can_add(config.normal_form().healthy_window),
        ensures
            controller == Self::started(config, now),
            controller.wf(),
    {
        let config = config.normalized();
        AdaptiveIndexController {
            config,
            state: ControllerState::Ramping,
            limits: config.canary,
            hold_until: Some(now.plus(config.healthy_window)),
            recovery_at: None,
            recovery_exponent: 0,
            last_reason: None,
        }
    }

    pub fn state(&self) -> (state: ControllerState)
        ensures
            state == self.state,
    {
        self.state
    }

    pub fn limits(&self) -> (limits: InventoryLimits)
        ensures
            limits == self.limits,
    {
        self.limits
    }

    pub fn recovery_at(&self) -> (at: Option<Instant>)
        ensures
            at == self.recovery_at,
    {
        self.recovery_at
    }

    /// The pause after the current run of guardrail crossings: the recovery
    /// delay doubled once per crossing, at most 1024-fold and never beyond the
    /// maximum.
    pub open spec fn backoff(self) -> Duration {
        let factor = power_of_two(at_most(self.recovery_exponent as int, 10) as nat);
        let product = self.config.recovery_delay.nanos * factor;
        if product < self.config.maximum_recovery_delay.nanos {
            Duration { nanos: product as u128 }
        } else {
            self.config.maximum_recovery_delay
        }
    }

    pub open spec fn paused_for(self, now: Instant, reason: PauseReason) -> Self {
        AdaptiveIndexController {
            state: ControllerState::Paused(reason),
            limits: self.config.canary,
            recovery_at: Some(now.after(self.backoff())),
            recovery_exponent: at_most(self.recovery_exponent + 1, u32::MAX as int) as u32,
            hold_until: None,
            last_reason: Some(reason),
            ..self
        }
    }

    pub open spec fn throttled(self, now: Instant, reason: PauseReason) -> Self {
        AdaptiveIndexController {
            state: ControllerState::Throttled,
            limits: InventoryLimits {
                item_rate_per_second: at_least(
                    (self.limits.item_rate_per_second / 2) as int,
                    self.config.floor.item_rate_per_second as int,
                ) as u32,
                batch_size: at_least(
                    (self.limits.batch_size / 2) as int,
                    self.config.floor.batch_size as int,
                ) as u32,
                duty_cycle_percent: at_least(
                    (self.limits.duty_cycle_percent / 2) as int,
                    self.config.floor.duty_cycle_percent as int,
                ) as u8,
            },
            hold_until: Some(now.after(self.config.healthy_window)),
            recovery_at: None,
            last_reason: Some(reason),
            ..self
        }
    }

    /// A limit raised by a tenth, by at least one, and at most to `ceiling`.
    pub open spec fn raised(limit: u32, ceiling: u32) -> u32 {
        at_most(limit + at_least((limit / 10) as int, 1), ceiling as int) as u32
    }

    pub open spec fn increased(self, now: Instant) -> Self {
        let limits = InventoryLimits {
            item_rate_per_second: if self.config.unlimited_item_rate {
                self.limits.item_rate_per_second
            } else {
                Self::raised(
                    self.limits.item_rate_per_second,
                    self.config.ceiling.item_rate_per_second,
                )
            },
            batch_size: Self::raised(self.limits.batch_size, self.config.ceiling.batch_size),
            duty_cycle_percent: at_most(
                self.limits.duty_cycle_percent + 1,
                self.config.ceiling.duty_cycle_percent as int,
            ) as u8,
        };
        AdaptiveIndexController {
            limits,
            state: if limits == self.config.ceiling {
                ControllerState::Steady
            } else {
                ControllerState::Ramping
            },
            hold_until: Some(now.after(self.config.healthy_window)),
            recovery_exponent: 0,
            last_reason: None,
            ..self
        }
    }

    /// The controller back at work after foreground work has ended.
    pub open spec fn after_foreground(self, now: Instant) -> Self {
        if self.state == ControllerState::Paused(PauseReason::Foreground) {
            AdaptiveIndexController {
                state: ControllerState::Ramping,
                hold_until: Some(now.after(self.config.healthy_window)),
                last_reason: None,
                ..self
            }
        } else {
            self
        }
    }

    /// The controller ramping up again from the canary limits.
    pub open spec fn recovered(self, now: Instant) -> Self {
        AdaptiveIndexController {
            state: ControllerState::Ramping,
            limits: self.config.canary,
            recovery_at: None,
            hold_until: Some(now.after(self.config.healthy_window)),
            last_reason: None,
            ..self
        }
    }

    /// The controller at work, when no guardrail is crossed.
    pub open spec fn worked(self, now: Instant, seen: ControllerObservation) -> Self {
        let hold_expired = self.hold_until matches Some(until) && now.nanos >= until.nanos;
        match felt_pressure(seen) {
            Some(reason) => if self.state != ControllerState::Throttled || self.hold_until is None
                || hold_expired {
                self.throttled(now, reason)
            } else {
                self
            },
            None => if hold_expired {
                self.increased(now)
            } else {
                self
            },
        }
    }

    /// The controller after an observation.
    pub open spec fn observed(self, now: Instant, seen: ControllerObservation) -> Self {
        if seen.foreground_active {
            AdaptiveIndexController {
                state: ControllerState::Paused(PauseReason::Foreground),
                recovery_at: None,
                last_reason: Some(PauseReason::Foreground),
                ..self
            }
        } else {
            let ready = self.after_foreground(now);
            match crossed_guardrail(self.config, seen) {
                Some(reason) => ready.paused_for(now, reason),
                None => if !(ready.state is Paused) {
                    ready.worked(now, seen)
                } else if ready.recovery_at matches Some(at) && now.nanos < at.nanos {
                    ready
                } else {
                    ready.recovered(now).worked(now, seen)
                },
            }
        }
    }

    /// The report on a controller that stood at `before` a moment ago.
    pub open spec fn report(self, before: Self) -> ControllerDecision {
        ControllerDecision {
            state: self.state,
            limits: self.limits,
            paused: self.state is Paused,
            reason: self.last_reason,
            recovery_at: self.recovery_at,
            transitioned: !(self.state == before.state && self.limits == before.limits
                && self.recovery_at == before.recovery_at),
        }
    }

    pub fn observe(&mut self, now: Instant, observation: ControllerObservation) -> (decision:
        ControllerDecision)
        requires
            old(self).wf(),
            old(self).clock_fits(now),
        ensures
            *final(self) == old(self).observed(now, observation),
            final(self).wf(),
            decision == final(self).report(*old(self)),
    {
        let previous = (self.state, self.limits, self.recovery_at);
        if observation.foreground_active {
            self.state = ControllerState::Paused(PauseReason::Foreground);
            self.recovery_at = None;
            self.last_reason = Some(PauseReason::Foreground);
            return self.decision(previous);
        }
        if matches!(self.state, ControllerState::Paused(PauseReason::Foreground)) {
            self.state = ControllerState::Ramping;
            self.hold_until = Some(now.plus(self.config.healthy_window));
            self.last_reason = None;
        }
        if let Some(reason) = self.hard_reason(observation) {
            self.pause_for(now, reason);
            return self.decision(previous);
        }
        if matches!(self.state, ControllerState::Paused(_)) {
            if let Some(recovery_at) = self.recovery_at {
                if now.nanos < recovery_at.nanos {
                    return self.decision(previous);
                }
            }
            self.state = ControllerState::Ramping;
            self.limits = self.config.canary;
            self.recovery_at = None;
            self.hold_until = Some(now.plus(self.config.healthy_window));
            self.last_reason = None;
        }
        let hold_expired = match self.hold_until {
            Some(hold_until) => now.nanos >= hold_until.nanos,
            None => false,
        };
        if let Some(reason) = self.soft_reason(observation) {
            let throttled = matches!(self.state, ControllerState::Throttled);
            if !throttled || self.hold_until.is_none() || hold_expired {
                self.throttle(now, reason);
            }
            return self.decision(previous);
        }
        if hold_expired {
            self.increase_limits(now);
        }
        self.decision(previous)
    }

    /// Why an observation pauses the controller, if it does.
    pub fn hard_reason(&self, observation: ControllerObservation) -> (reason: Option<PauseReason>)
        ensures
            reason == crossed_guardrail(self.config, observation),
    {
        if observation.foreground_error || observation.foreground_bad_quality
            || observation.inventory_error {
            return Some(PauseReason::OpcHealth);
        }
        if let Some(latency) = observation.foreground_latency_ms {
            let baseline: u64 = match observation.baseline_latency_ms {
                Some(ms) => ms,
                None => self.config.foreground_latency_absolute_ms,
            };
            let scaled: u64 = scale_latency(baseline, 4);
            let hard_limit: u64 = if self.config.foreground_latency_absolute_ms < scaled {
                scaled
            } else {
                self.config.foreground_latency_absolute_ms
            };
            if latency >= hard_limit {
                return Some(PauseReason::OpcHealth);
            }
        }
        if measured_at_least(observation.host_cpu_percent, 85) {
            return Some(PauseReason::HostCpu);
        }
        if measured_at_most(observation.available_memory_percent, 8) {
            return Some(PauseReason::Memory);
        }
        if measured_at_least(observation.disk_active_percent, 90) || measured_at_least(
            observation.disk_queue,
            5,
        ) {
            return Some(PauseReason::Disk);
        }
        if took_at_least(observation.database_commit_p95_ms, 1_000)
            || observation.insufficient_disk_space {
            return Some(PauseReason::Database);
        }
        None
    }

    /// Why an observation calls for smaller limits, if it does.
    pub fn soft_reason(&self, observation: ControllerObservation) -> (reason: Option<PauseReason>)
        ensures
            reason == felt_pressure(observation),
    {
        if let Some(baseline) = observation.baseline_latency_ms {
            if took_at_least(observation.foreground_latency_ms, scale_latency(baseline, 2)) {
                return Some(PauseReason::OpcHealth);
            }
        }
        if measured_at_least(observation.host_cpu_percent, 70) {
            return Some(PauseReason::HostCpu);
        }
        if measured_at_most(observation.available_memory_percent, 15) {
            return Some(PauseReason::Memory);
        }
        if measured_at_least(observation.disk_active_percent, 70) || measured_at_least(
            observation.disk_queue,
            2,
        ) {
            return Some(PauseReason::Disk);
        }
        if took_at_least(observation.database_commit_p95_ms, 250) {
            return Some(PauseReason::Database);
        }
        None
    }

    fn throttle(&mut self, now: Instant, reason: PauseReason)
        requires
            old(self).wf(),
            now.can_add(old(self).config.healthy_window),
        ensures
            *final(self) == old(self).throttled(now, reason),
            final(self).wf(),
    {
        self.state = ControllerState::Throttled;
        self.limits = InventoryLimits {
            item_rate_per_second: max_u32(
                self.limits.item_rate_per_second / 2,
                self.config.floor.item_rate_per_second,
            ),
            batch_size: max_u32(self.limits.batch_size / 2, self.config.floor.batch_size),
            duty_cycle_percent: max_u8(
                self.limits.duty_cycle_percent / 2,
                self.config.floor.duty_cycle_percent,
            ),
        };
        self.hold_until = Some(now.plus(self.config.healthy_window));
        self.recovery_at = None;
        self.last_reason = Some(reason);
    }

    fn pause_for(&mut self, now: Instant, reason: PauseReason)
        requires
            old(self).wf(),
            reason != PauseReason::Foreground,
            now.can_add(old(self).config.maximum_recovery_delay),
        ensures
            *final(self) == old(self).paused_for(now, reason),
            final(self).wf(),
    {
        self.state = ControllerState::Paused(reason);
        self.limits = self.config.canary;
        let steps: u32 = if self.recovery_exponent > 10 {
            10
        } else {
            self.recovery_exponent
        };
        let multiplier: u32 = doubled(steps);
        let delay = match self.config.recovery_delay.checked_mul(multiplier) {
            Some(delay) => delay.min(self.config.maximum_recovery_delay),
            None => self.config.maximum_recovery_delay,
        };
        self.recovery_at = Some(now.plus(delay));
        self.recovery_exponent = self.recovery_exponent.saturating_add(1);
        self.hold_until = None;
        self.last_reason = Some(reason);
    }

    fn increase_limits(&mut self, now: Instant)
        requires
            old(self).wf(),
            !(old(self).state is Paused),
            now.can_add(old(self).config.healthy_window),
        ensures
            *final(self) == old(self).increased(now),
            final(self).wf(),
    {
        if !self.config.unlimited_item_rate {
            self.limits.item_rate_per_second = raise(
                self.limits.item_rate_per_second,
                self.config.ceiling.item_rate_per_second,
            );
        }
        self.limits.batch_size = raise(self.limits.batch_size, self.config.ceiling.batch_size);
        self.limits.duty_cycle_percent = if self.limits.duty_cycle_percent
            < self.config.ceiling.duty_cycle_percent {
            self.limits.duty_cycle_percent + 1
        } else {
            self.config.ceiling.duty_cycle_percent
        };
        self.state = if self.limits == self.config.ceiling {
            ControllerState::Steady
        } else {
            ControllerState::Ramping
        };
        self.hold_until = Some(now.plus(self.config.healthy_window));
        self.recovery_exponent = 0;
        self.last_reason = None;
    }

    fn decision(
        &self,
        previous: (ControllerState, InventoryLimits, Option<Instant>),
    ) -> (decision: ControllerDecision)
        ensures
            decision == (ControllerDecision {
                state: self.state,
                limits: self.limits,
                paused: self.state is Paused,
                reason: self.last_reason,
                recovery_at: self.recovery_at,
                transitioned: previous != (self.state, self.limits, self.recovery_at),
            }),
    {
        let same_recovery = match (previous.2, self.recovery_at) {
            (Some(before), Some(after)) => before.nanos == after.nanos,
            (None, None) => true,
            _ => false,
        };
        ControllerDecision {
            state: self.state,
            limits: self.limits,
            paused: matches!(self.state, ControllerState::Paused(_)),
            reason: self.last_reason,
            recovery_at: self.recovery_at,
            transitioned: !(previous.0 == self.state && previous.1 == self.limits
                && same_recovery),
        }
    }
}

fn measured_at_least(value: Option<Measurement>, threshold: u32) -> (b: bool)
    ensures
        b == reached(value, threshold as nat),
{
    match value {
        Some(m) => m.at_least(threshold),
        None => false,
    }
}

fn measured_at_most(value: Option<Measurement>, threshold: u32) -> (b: bool)
    ensures
        b == not_above(value, threshold as nat),
{
    match value {
        Some(m) => m.at_most(threshold),
        None => false,
    }
}

fn took_at_least(value: Option<u64>, threshold: u64) -> (b: bool)
    ensures
        b == latency_reached(value, threshold as int),
{
    match value {
        Some(ms) => ms >= threshold,
        None => false,
    }
}

fn scale_latency(ms: u64, factor: u8) -> (scaled: u64)
    ensures
        scaled == scaled_latency(ms, factor as int),
{
    proof {
        assert(ms * factor <= u64::MAX * 255) by (nonlinear_arith)
            requires
                ms <= u64::MAX,
                factor <= 255,
        ;
    }
    let product: u128 = ms as u128 * factor as u128;
    if product > u64::MAX as u128 {
        u64::MAX
    } else {
        product as u64
    }
}

fn raise(limit: u32, ceiling: u32) -> (next: u32)
    ensures
        next == AdaptiveIndexController::raised(limit, ceiling),
{
    let step: u32 = max_u32(limit / 10, 1);
    let sum: u32 = limit.saturating_add(step);
    if sum > ceiling {
        ceiling
    } else {
        sum
    }
}

fn doubled(steps: u32) -> (factor: u32)
    requires
        steps <= 10,
    ensures
        factor == power_of_two(steps as nat),
        1 <= factor <= 1024,
{
    let mut factor: u32 = 1;
    let mut i: u32 = 0;
    while i < steps
        invariant
            i <= steps <= 10,
            factor == power_of_two(i as nat),
            1 <= factor <= 1024,
        decreases steps - i,
    {
        proof {
            power_of_two_grows((i + 1) as nat, 10);
            reveal_with_fuel(power_of_two, 11);
        }
        factor = factor * 2;
        i += 1;
    }
    factor
}

proof fn power_of_two_grows(low: nat, high: nat)
    requires
        low <= high,
    ensures
        1 <= power_of_two(low) <= power_of_two(high),
    decreases high,
{
    if low < high {
        power_of_two_grows(low, (high - 1) as nat);
    } else if low > 0 {
        power_of_two_grows((low - 1) as nat, (low - 1) as nat);
    }
}

/// A freshly started controller is well-formed and works at the canary limits.
pub proof fn start_is_well_formed(config: ControllerConfig, now: Instant)
    ensures
        AdaptiveIndexController::started(config, now).wf(),
        AdaptiveIndexController::started(config, now).limits == config.normal_form().canary,
{
}

/// Whatever is observed, the limits stay between the floor and the ceiling and
/// the configuration stays as it was.
pub proof fn limits_stay_in_range(
    controller: AdaptiveIndexController,
    now: Instant,
    seen: ControllerObservation,
)
    requires
        controller.wf(),
    ensures
        controller.observed(now, seen).wf(),
        controller.observed(now, seen).config == controller.config,
        controller.config.floor.within(controller.observed(now, seen).limits),
        controller.observed(now, seen).limits.within(controller.config.ceiling),
        controller.config.unlimited_item_rate ==> controller.observed(
            now,
            seen,
        ).limits.item_rate_per_second == 0,
{
}

/// Foreground work pauses the controller at once, whatever else is observed,
/// and touches neither its limits nor its health backoff.
pub proof fn foreground_work_pauses(
    controller: AdaptiveIndexController,
    now: Instant,
    seen: ControllerObservation,
)
    requires
        seen.foreground_active,
    ensures
        ({
            let after = controller.observed(now, seen);
            let decision = after.report(controller);
            &&& decision.state == ControllerState::Paused(PauseReason::Foreground)
            &&& decision.paused
            &&& decision.reason == Some(PauseReason::Foreground)
            &&& decision.recovery_at is None
            &&& decision.limits == controller.limits
            &&& after.recovery_exponent == controller.recovery_exponent
        }),
{
}

/// Once foreground work has ended and nothing else is wrong, the controller
/// ramps up again, from the limits it had.
pub proof fn work_resumes_after_the_foreground(
    controller: AdaptiveIndexController,
    now: Instant,
    seen: ControllerObservation,
    later: Instant,
    then: ControllerObservation,
)
    requires
        controller.wf(),
        controller.clock_fits(later),
        seen.foreground_active,
        !then.foreground_active,
        crossed_guardrail(controller.config, then) is None,
        felt_pressure(then) is None,
    ensures
        ({
            let resumed = controller.observed(now, seen).observed(later, then);
            &&& resumed.state == ControllerState::Ramping
            &&& resumed.recovery_at is None
            &&& resumed.last_reason is None
            &&& resumed.limits == controller.limits
        }),
{
}

/// A controller after some observations, one after the other.
pub open spec fn observed_all(
    controller: AdaptiveIndexController,
    seen: Seq<(Instant, ControllerObservation)>,
) -> AdaptiveIndexController
    decreases seen.len(),
{
    if seen.len() == 0 {
        controller
    } else {
        observed_all(controller, seen.drop_last()).observed(seen.last().0, seen.last().1)
    }
}

proof fn observing_keeps_controllers_well_formed(
    config: ControllerConfig,
    start: Instant,
    seen: Seq<(Instant, ControllerObservation)>,
)
    ensures
        observed_all(AdaptiveIndexController::started(config, start), seen).wf(),
        observed_all(AdaptiveIndexController::started(config, start), seen).config
            == config.normal_form(),
    decreases seen.len(),
{
    let started = AdaptiveIndexController::started(config, start);
    start_is_well_formed(config, start);
    if seen.len() > 0 {
        observing_keeps_controllers_well_formed(config, start, seen.drop_last());
        limits_stay_in_range(
            observed_all(started, seen.drop_last()),
            seen.last().0,
            seen.last().1,
        );
    }
}

/// After any observations, the decision of the last one keeps the limits
/// between floor and ceiling, its reason and its recovery time fit its state,
/// and it tells whether state, limits or recovery time have changed.
pub proof fn decisions_are_coherent(
    config: ControllerConfig,
    start: Instant,
    seen: Seq<(Instant, ControllerObservation)>,
)
    requires
        seen.len() > 0,
    ensures
        ({
            let started = AdaptiveIndexController::started(config, start);
            let before = observed_all(started, seen.drop_last());
            let after = observed_all(started, seen);
            let decision = after.report(before);
            &&& config.normal_form().floor.within(decision.limits)
            &&& decision.limits.within(config.normal_form().ceiling)
            &&& decision.paused <==> decision.state is Paused
            &&& decision.state matches ControllerState::Paused(reason) ==> decision.reason == Some(
                reason,
            )
            &&& decision.state is Throttled ==> decision.reason is Some
            &&& decision.state is Ramping || decision.state is Steady ==> decision.reason is None
            &&& decision.recovery_at is Some <==> (decision.state is Paused && decision.state
                != ControllerState::Paused(PauseReason::Foreground))
            &&& decision.transitioned <==> (before.state, before.limits, before.recovery_at) != (
                after.state,
                after.limits,
                after.recovery_at,
            )
        }),
{
    observing_keeps_controllers_well_formed(config, start, seen);
}

/// A host that crosses the guardrail of its processor, memory or disk is under
/// pressure as well, and so is a database whose commits take as long as its
/// guardrail allows. Whether there is pressure rests on what is measured alone:
/// without a measurement there is none.
pub proof fn guardrails_lie_beyond_pressure(
    config: ControllerConfig,
    seen: ControllerObservation,
    other: ControllerObservation,
)
    ensures
        ({
            let crossed = crossed_guardrail(config, seen);
            crossed == Some(PauseReason::HostCpu) || crossed == Some(PauseReason::Memory)
                || crossed == Some(PauseReason::Disk) ==> felt_pressure(seen) is Some
        }),
        latency_reached(seen.database_commit_p95_ms, 1_000) ==> felt_pressure(seen) is Some,
        other == (ControllerObservation {
            foreground_active: other.foreground_active,
            foreground_error: other.foreground_error,
            foreground_bad_quality: other.foreground_bad_quality,
            inventory_error: other.inventory_error,
            insufficient_disk_space: other.insufficient_disk_space,
            ..seen
        }) ==> felt_pressure(other) == felt_pressure(seen),
        seen.foreground_latency_ms is None && seen.baseline_latency_ms is None
            && seen.host_cpu_percent is None && seen.available_memory_percent is None
            && seen.disk_active_percent is None && seen.disk_queue is None
            && seen.database_commit_p95_ms is None ==> felt_pressure(seen) is None,
{
    if let Some(m) = seen.host_cpu_percent {
        if m.reaches(85) {
            crate::measurement::reaching_is_monotone(m, 85, 70);
        }
    }
    if let Some(m) = seen.available_memory_percent {
        if m.stays_within(8) {
            crate::measurement::staying_within_is_monotone(m, 8, 15);
        }
    }
    if let Some(m) = seen.disk_active_percent {
        if m.reaches(90) {
            crate::measurement::reaching_is_monotone(m, 90, 70);
        }
    }
    if let Some(m) = seen.disk_queue {
        if m.reaches(5) {
            crate::measurement::reaching_is_monotone(m, 5, 2);
        }
    }
}

/// A crossed guardrail always pauses the controller, resets it to the canary
/// limits, and sets a recovery time no later than the maximum delay from now.
pub proof fn crossed_guardrail_pauses(
    controller: AdaptiveIndexController,
    now: Instant,
    seen: ControllerObservation,
)
    requires
        controller.wf(),
        controller.clock_fits(now),
        !seen.foreground_active,
        crossed_guardrail(controller.config, seen) is Some,
    ensures
        ({
            let after = controller.observed(now, seen);
            &&& after.state == ControllerState::Paused(
                crossed_guardrail(controller.config, seen)->0,
            )
            &&& after.limits == controller.config.canary
            &&& after.recovery_at matches Some(at) && now.nanos <= at.nanos <= now.nanos
                + controller.config.maximum_recovery_delay.nanos
        }),
{
}

/// Until the recovery time a paused controller holds, whatever pressure
/// short of a guardrail is observed.
pub proof fn pause_holds_until_recovery(
    controller: AdaptiveIndexController,
    now: Instant,
    seen: ControllerObservation,
)
    requires
        controller.state is Paused,
        controller.state != ControllerState::Paused(PauseReason::Foreground),
        controller.recovery_at matches Some(at) && now.nanos < at.nanos,
        !seen.foreground_active,
        crossed_guardrail(controller.config, seen) is None,
    ensures
        controller.observed(now, seen) == controller,
{
}

/// Once the recovery time has come and nothing presses, the controller ramps
/// up again from the canary limits.
pub proof fn recovery_restarts_at_canary(
    controller: AdaptiveIndexController,
    now: Instant,
    seen: ControllerObservation,
)
    requires
        controller.wf(),
        controller.clock_fits(now),
        controller.state is Paused,
        controller.state != ControllerState::Paused(PauseReason::Foreground),
        controller.recovery_at matches Some(at) ==> now.nanos >= at.nanos,
        !seen.foreground_active,
        crossed_guardrail(controller.config, seen) is None,
        felt_pressure(seen) is None,
    ensures
        controller.observed(now, seen) == controller.recovered(now),
        controller.observed(now, seen).limits == controller.config.canary,
{
}

/// Pressure never raises a limit, and never pauses a controller at work.
pub proof fn pressure_never_raises_limits(
    controller: AdaptiveIndexController,
    now: Instant,
    seen: ControllerObservation,
)
    requires
        controller.wf(),
        !(controller.state is Paused),
        !seen.foreground_active,
        crossed_guardrail(controller.config, seen) is None,
        felt_pressure(seen) is Some,
    ensures
        controller.observed(now, seen).limits.within(controller.limits),
        controller.observed(now, seen).state == ControllerState::Throttled,
{
}

/// The backoff grows with every crossing in a row and never exceeds the
/// maximum.
pub proof fn backoff_grows_to_the_maximum(controller: AdaptiveIndexController)
    requires
        controller.wf(),
        controller.recovery_exponent < u32::MAX,
    ensures
        ({
            let later = AdaptiveIndexController {
                recovery_exponent: (controller.recovery_exponent + 1) as u32,
                ..controller
            };
            controller.backoff().nanos <= later.backoff().nanos
                <= controller.config.maximum_recovery_delay.nanos
        }),
{
    let low = at_most(controller.recovery_exponent as int, 10) as nat;
    let high = at_most(controller.recovery_exponent + 1, 10) as nat;
    power_of_two_grows(low, high);
    assert(controller.config.recovery_delay.nanos * power_of_two(low)
        <= controller.config.recovery_delay.nanos * power_of_two(high)) by (nonlinear_arith)
        requires
            power_of_two(low) <= power_of_two(high),
    ;
}

/// Whether an observation shows an OPC server in trouble: an error, a value of
/// bad quality, an inventory that fails, or foreground work that takes as long
/// as the absolute limit and four times the baseline. Without a baseline the
/// absolute limit stands for it.
pub open spec fn opc_in_trouble(config: ControllerConfig, seen: ControllerObservation) -> bool {
    ||| seen.foreground_error
    ||| seen.foreground_bad_quality
    ||| seen.inventory_error
    ||| seen.foreground_latency_ms matches Some(latency) && latency
        >= config.foreground_latency_absolute_ms && (latency == u64::MAX || latency >= 4
        * match seen.baseline_latency_ms {
        Some(baseline) => baseline,
        None => config.foreground_latency_absolute_ms,
    })
}

/// Whether an optional measurement was made and is at least a number.
pub open spec fn measures_at_least(value: Option<Measurement>, number: nat) -> bool {
    value is Some && value->0.reaches(number)
}

/// Whether an optional measurement was made and is at most a number.
pub open spec fn measures_at_most(value: Option<Measurement>, number: nat) -> bool {
    value is Some && value->0.stays_within(number)
}

/// Whether an observation shows nothing that stops the inventory.
pub open spec fn is_bearable(config: ControllerConfig, seen: ControllerObservation) -> bool {
    &&& !opc_in_trouble(config, seen)
    &&& !measures_at_least(seen.host_cpu_percent, 85)
    &&& !measures_at_most(seen.available_memory_percent, 8)
    &&& !measures_at_least(seen.disk_active_percent, 90)
    &&& !measures_at_least(seen.disk_queue, 5)
    &&& !(seen.database_commit_p95_ms is Some && seen.database_commit_p95_ms->0 >= 1_000)
    &&& !seen.insufficient_disk_space
}

/// Whether an observation shows that the server, the host and the database
/// have time to spare.
pub open spec fn is_easy(seen: ControllerObservation) -> bool {
    &&& !(seen.foreground_latency_ms is Some && seen.baseline_latency_ms is Some && (
    seen.foreground_latency_ms->0 == u64::MAX || seen.foreground_latency_ms->0 >= 2
        * seen.baseline_latency_ms->0))
    &&& !measures_at_least(seen.host_cpu_percent, 70)
    &&& !measures_at_most(seen.available_memory_percent, 15)
    &&& !measures_at_least(seen.disk_active_percent, 70)
    &&& !measures_at_least(seen.disk_queue, 2)
    &&& !(seen.database_commit_p95_ms is Some && seen.database_commit_p95_ms->0 >= 250)
}

/// Whatever the controller was at, it pauses for an OPC server in trouble; if
/// there is none, for a processor that is busy for 85 percent of its time; then
/// for a memory of which 8 percent or less is free; then for a disk that is
/// busy for 90 percent of its time or has five requests waiting; then for a
/// database that takes a second to commit or has no space left. A pause takes
/// the limits back to the canary's and sets the time of the recovery.
pub proof fn every_guardrail_pauses(
    controller: AdaptiveIndexController,
    now: Instant,
    seen: ControllerObservation,
)
    requires
        controller.wf(),
        controller.clock_fits(now),
        !seen.foreground_active,
    ensures
        ({
            let after = controller.observed(now, seen);
            let opc = opc_in_trouble(controller.config, seen);
            let cpu = measures_at_least(seen.host_cpu_percent, 85);
            let memory = measures_at_most(seen.available_memory_percent, 8);
            let disk = measures_at_least(seen.disk_active_percent, 90) || measures_at_least(
                seen.disk_queue,
                5,
            );
            let database = seen.insufficient_disk_space || (seen.database_commit_p95_ms is Some
                && seen.database_commit_p95_ms->0 >= 1_000);
            &&& opc ==> after.state == ControllerState::Paused(PauseReason::OpcHealth)
            &&& !opc && cpu ==> after.state == ControllerState::Paused(PauseReason::HostCpu)
            &&& !opc && !cpu && memory ==> after.state == ControllerState::Paused(
                PauseReason::Memory,
            )
            &&& !opc && !cpu && !memory && disk ==> after.state == ControllerState::Paused(
                PauseReason::Disk,
            )
            &&& !opc && !cpu && !memory && !disk && database ==> after.state
                == ControllerState::Paused(PauseReason::Database)
            &&& opc || cpu || memory || disk || database ==> {
                &&& after.limits == controller.config.canary
                &&& after.recovery_at is Some
                &&& after.report(controller).paused
                &&& after.report(controller).reason is Some
                &&& after.recovery_exponent == controller.recovery_exponent + 1
                    || controller.recovery_exponent == u32::MAX
            }
        }),
{
}

/// Without a crossed guardrail nothing pauses a controller at work, and
/// nothing makes the next pause longer.
pub proof fn bearable_load_never_pauses(
    controller: AdaptiveIndexController,
    now: Instant,
    seen: ControllerObservation,
)
    requires
        controller.wf(),
        !seen.foreground_active,
        is_bearable(controller.config, seen),
        !(controller.state is Paused) || controller.state == ControllerState::Paused(
            PauseReason::Foreground,
        ),
    ensures
        !(controller.observed(now, seen).state is Paused),
        controller.observed(now, seen).recovery_at is None,
        controller.observed(now, seen).recovery_exponent <= controller.recovery_exponent,
{
}

/// A controller at work on which there is pressure is throttled: on the server,
/// on the processor from 70 percent on, on the memory from 15 percent down, on
/// the disk from 70 percent or two waiting requests on, or on the database from
/// a quarter of a second on. Unless it was throttled a moment ago, its limits
/// are halved, though not below the floor, and stay so for the healthy window.
pub proof fn pressure_halves_the_limits(
    controller: AdaptiveIndexController,
    now: Instant,
    seen: ControllerObservation,
)
    requires
        controller.wf(),
        controller.clock_fits(now),
        !(controller.state is Paused),
        !seen.foreground_active,
        is_bearable(controller.config, seen),
        !is_easy(seen),
    ensures
        ({
            let after = controller.observed(now, seen);
            let floor = controller.config.floor;
            let held = controller.state == ControllerState::Throttled && (
            controller.hold_until matches Some(until) && now.nanos < until.nanos);
            &&& after.state == ControllerState::Throttled
            &&& held ==> after == controller
            &&& !held ==> {
                &&& after.limits.item_rate_per_second == if controller.limits.item_rate_per_second
                    / 2 >= floor.item_rate_per_second {
                    controller.limits.item_rate_per_second / 2
                } else {
                    floor.item_rate_per_second
                }
                &&& after.limits.batch_size == if controller.limits.batch_size / 2
                    >= floor.batch_size {
                    controller.limits.batch_size / 2
                } else {
                    floor.batch_size
                }
                &&& after.limits.duty_cycle_percent == if controller.limits.duty_cycle_percent / 2
                    >= floor.duty_cycle_percent {
                    controller.limits.duty_cycle_percent / 2
                } else {
                    floor.duty_cycle_percent
                }
                &&& after.hold_until matches Some(until) && until.nanos == now.nanos
                    + controller.config.healthy_window.nanos
                &&& after.recovery_exponent == controller.recovery_exponent
            }
        }),
{
}

/// What a controller is throttled for: the server before the processor, that
/// before the memory, that before the disk, that before the database.
pub proof fn pressure_is_named(
    controller: AdaptiveIndexController,
    now: Instant,
    seen: ControllerObservation,
)
    requires
        controller.wf(),
        !(controller.state is Paused),
        controller.state != ControllerState::Throttled,
        !seen.foreground_active,
        is_bearable(controller.config, seen),
    ensures
        ({
            let reason = controller.observed(now, seen).last_reason;
            let opc = seen.foreground_latency_ms is Some && seen.baseline_latency_ms is Some && (
            seen.foreground_latency_ms->0 == u64::MAX || seen.foreground_latency_ms->0 >= 2
                * seen.baseline_latency_ms->0);
            let cpu = measures_at_least(seen.host_cpu_percent, 70);
            let memory = measures_at_most(seen.available_memory_percent, 15);
            let disk = measures_at_least(seen.disk_active_percent, 70) || measures_at_least(
                seen.disk_queue,
                2,
            );
            let database = seen.database_commit_p95_ms is Some && seen.database_commit_p95_ms->0
                >= 250;
            &&& opc ==> reason == Some(PauseReason::OpcHealth)
            &&& !opc && cpu ==> reason == Some(PauseReason::HostCpu)
            &&& !opc && !cpu && memory ==> reason == Some(PauseReason::Memory)
            &&& !opc && !cpu && !memory && disk ==> reason == Some(PauseReason::Disk)
            &&& !opc && !cpu && !memory && !disk && database ==> reason == Some(
                PauseReason::Database,
            )
            &&& !opc && !cpu && !memory && !disk && !database ==> reason is None
        }),
{
}

/// A controller at work on which there is no pressure keeps its limits for the
/// healthy window, and then raises each of them by a tenth or by one, up to the
/// ceiling; at the ceiling it is steady. Raising them makes the next pause a
/// short one again.
pub proof fn ease_raises_the_limits(
    controller: AdaptiveIndexController,
    now: Instant,
    seen: ControllerObservation,
)
    requires
        controller.wf(),
        controller.clock_fits(now),
        !(controller.state is Paused),
        !seen.foreground_active,
        is_bearable(controller.config, seen),
        is_easy(seen),
    ensures
        ({
            let after = controller.observed(now, seen);
            let before = controller.limits;
            let ceiling = controller.config.ceiling;
            let over = controller.hold_until matches Some(until) && now.nanos >= until.nanos;
            &&& !over ==> after == controller
            &&& over ==> {
                &&& after.limits.batch_size == ceiling.batch_size || (after.limits.batch_size
                    > before.batch_size && after.limits.batch_size - before.batch_size == if before.batch_size
                    >= 20 {
                    before.batch_size / 10
                } else {
                    1
                })
                &&& after.limits.duty_cycle_percent == ceiling.duty_cycle_percent
                    || after.limits.duty_cycle_percent == before.duty_cycle_percent + 1
                &&& !controller.config.unlimited_item_rate ==> (
                after.limits.item_rate_per_second == ceiling.item_rate_per_second || (
                after.limits.item_rate_per_second > before.item_rate_per_second
                    && after.limits.item_rate_per_second - before.item_rate_per_second == if before.item_rate_per_second
                    >= 20 {
                    before.item_rate_per_second / 10
                } else {
                    1
                }))
                &&& before.within(after.limits)
                &&& after.limits.batch_size - before.batch_size <= 1 + before.batch_size / 10
                &&& after.limits.item_rate_per_second - before.item_rate_per_second <= 1
                    + before.item_rate_per_second / 10
                &&& after.limits.duty_cycle_percent - before.duty_cycle_percent <= 1
                &&& after.state == if after.limits == ceiling {
                    ControllerState::Steady
                } else {
                    ControllerState::Ramping
                }
                &&& after.last_reason is None
                &&& after.recovery_exponent == 0
                &&& after.hold_until matches Some(until) && until.nanos == now.nanos
                    + controller.config.healthy_window.nanos
            }
        }),
{
}

/// The first pause lasts as long as configured, and each further one in a row
/// twice as long as the one before, up to the maximum; after the eleventh in a
/// row nothing is added.
pub proof fn pauses_double_in_a_row(
    controller: AdaptiveIndexController,
    now: Instant,
    seen: ControllerObservation,
    later: Instant,
    then: ControllerObservation,
)
    requires
        controller.wf(),
        controller.clock_fits(now),
        controller.clock_fits(later),
        controller.recovery_exponent < u32::MAX,
        !seen.foreground_active && !is_bearable(controller.config, seen),
        !then.foreground_active && !is_bearable(controller.config, then),
    ensures
        ({
            let first = controller.observed(now, seen);
            let second = first.observed(later, then);
            let pause = first.recovery_at->0.nanos - now.nanos;
            let next = second.recovery_at->0.nanos - later.nanos;
            let most = controller.config.maximum_recovery_delay.nanos;
            &&& first.recovery_at is Some && second.recovery_at is Some
            &&& controller.recovery_exponent == 0 ==> pause
                == controller.config.recovery_delay.nanos
            &&& next == if controller.recovery_exponent >= 10 {
                pause
            } else if 2 * pause < most {
                2 * pause
            } else {
                most as int
            }
            &&& pause <= most
        }),
{
    let low = at_most(controller.recovery_exponent as int, 10) as nat;
    let high = at_most(controller.recovery_exponent + 1, 10) as nat;
    let delay = controller.config.recovery_delay.nanos as int;
    power_of_two_grows(low, high);
    assert(power_of_two(0) == 1);
    assert(delay * 1 == delay) by (nonlinear_arith);
    if controller.recovery_exponent < 10 {
        assert(power_of_two(high) == 2 * power_of_two(low));
        assert(delay * (2 * power_of_two(low)) == 2 * (delay * power_of_two(low)))
            by (nonlinear_arith);
    }
    every_guardrail_pauses(controller, now, seen);
    let first = controller.observed(now, seen);
    assert(first.config == controller.config);
    every_guardrail_pauses(first, later, then);
}

/// A pause for a crossed guardrail lasts until its recovery time, whatever is
/// observed short of a guardrail. Then the controller works again, from the
/// canary's limits on: freely if there is no pressure, throttled otherwise.
pub proof fn pauses_end_at_their_time(
    controller: AdaptiveIndexController,
    now: Instant,
    seen: ControllerObservation,
)
    requires
        controller.wf(),
        controller.clock_fits(now),
        controller.state is Paused,
        controller.state != ControllerState::Paused(PauseReason::Foreground),
        !seen.foreground_active,
        is_bearable(controller.config, seen),
    ensures
        ({
            let after = controller.observed(now, seen);
            let at = controller.recovery_at->0;
            &&& controller.recovery_at is Some
            &&& now.nanos < at.nanos ==> after == controller
            &&& now.nanos >= at.nanos ==> {
                &&& after.recovery_at is None
                &&& is_easy(seen) ==> after.state == ControllerState::Ramping && after.limits
                    == controller.config.canary && after.last_reason is None
                &&& !is_easy(seen) ==> after.state == ControllerState::Throttled
                    && after.limits.within(controller.config.canary)
                &&& after.hold_until matches Some(until) && until.nanos == now.nanos
                    + controller.config.healthy_window.nanos
                &&& after.recovery_exponent == controller.recovery_exponent
            }
        }),
{
}

/// A controller starts at the canary's limits, holds them for the healthy
/// window, and is paused for nothing.
pub proof fn controllers_start_carefully(config: ControllerConfig, now: Instant)
    requires
        now.can_add(config.normal_form().healthy_window),
    ensures
        ({
            let started = AdaptiveIndexController::started(config, now);
            &&& started.state == ControllerState::Ramping
            &&& started.limits == started.config.canary
            &&& started.hold_until matches Some(until) && until.nanos == now.nanos
                + started.config.healthy_window.nanos
            &&& started.recovery_at is None && started.last_reason is None
            &&& started.recovery_exponent == 0
            &&& started.config == config.normal_form()
        }),
{
}

/// Whether a number is what is nearest to another one in a range.
pub open spec fn is_nearest(n: int, wanted: int, low: int, high: int) -> bool {
    &&& low <= n <= high
    &&& low <= wanted <= high ==> n == wanted
    &&& wanted < low ==> n == low
    &&& wanted > high ==> n == high
}

/// Normalizing changes a configuration no more than it has to: every limit is
/// the nearest one to what was configured that lies between the smallest and
/// the largest allowed, the ceiling above the floor and the canary between
/// both; times are at least a millisecond. An unlimited item rate is zero.
pub proof fn normalizing_changes_little(config: ControllerConfig)
    ensures
        ({
            let n = config.normal_form();
            let largest = MAX_NATIVE_INVENTORY_BATCH_SIZE as int;
            &&& is_nearest(n.floor.batch_size as int, config.floor.batch_size as int, 1, largest)
            &&& is_nearest(
                n.ceiling.batch_size as int,
                config.ceiling.batch_size as int,
                n.floor.batch_size as int,
                largest,
            )
            &&& is_nearest(
                n.canary.batch_size as int,
                config.canary.batch_size as int,
                n.floor.batch_size as int,
                n.ceiling.batch_size as int,
            )
            &&& is_nearest(
                n.floor.duty_cycle_percent as int,
                config.floor.duty_cycle_percent as int,
                1,
                100,
            )
            &&& is_nearest(
                n.ceiling.duty_cycle_percent as int,
                config.ceiling.duty_cycle_percent as int,
                n.floor.duty_cycle_percent as int,
                100,
            )
            &&& is_nearest(
                n.canary.duty_cycle_percent as int,
                config.canary.duty_cycle_percent as int,
                n.floor.duty_cycle_percent as int,
                n.ceiling.duty_cycle_percent as int,
            )
            &&& config.unlimited_item_rate ==> n.floor.item_rate_per_second == 0
                && n.canary.item_rate_per_second == 0 && n.ceiling.item_rate_per_second == 0
            &&& !config.unlimited_item_rate ==> {
                &&& is_nearest(
                    n.floor.item_rate_per_second as int,
                    config.floor.item_rate_per_second as int,
                    1,
                    u32::MAX as int,
                )
                &&& is_nearest(
                    n.ceiling.item_rate_per_second as int,
                    config.ceiling.item_rate_per_second as int,
                    n.floor.item_rate_per_second as int,
                    u32::MAX as int,
                )
                &&& is_nearest(
                    n.canary.item_rate_per_second as int,
                    config.canary.item_rate_per_second as int,
                    n.floor.item_rate_per_second as int,
                    n.ceiling.item_rate_per_second as int,
                )
            }
            &&& n.unlimited_item_rate == config.unlimited_item_rate
            &&& is_nearest(
                n.healthy_window.nanos as int,
                config.healthy_window.nanos as int,
                1_000_000,
                u128::MAX as int,
            )
            &&& is_nearest(
                n.recovery_delay.nanos as int,
                config.recovery_delay.nanos as int,
                1_000_000,
                u128::MAX as int,
            )
            &&& is_nearest(
                n.maximum_recovery_delay.nanos as int,
                config.maximum_recovery_delay.nanos as int,
                n.recovery_delay.nanos as int,
                u128::MAX as int,
            )
            &&& is_nearest(
                n.foreground_latency_absolute_ms as int,
                config.foreground_latency_absolute_ms as int,
                1,
                u64::MAX as int,
            )
        }),
{
}

/// A decision shows the controller as it is, and tells whether its state, its
/// limits or its deadline have changed.
pub proof fn decisions_show_the_controller(
    before: AdaptiveIndexController,
    after: AdaptiveIndexController,
)
    ensures
        ({
            let decision = after.report(before);
            &&& decision.state == after.state
            &&& decision.limits == after.limits
            &&& decision.paused <==> after.state is Paused
            &&& decision.reason == after.last_reason
            &&& decision.recovery_at == after.recovery_at
            &&& !decision.transitioned <==> after.state == before.state && after.limits
                == before.limits && after.recovery_at == before.recovery_at
        }),
{
}

/// Of a host that cannot be measured nothing is known.
pub proof fn unmeasured_hosts_tell_nothing()
    ensures
        HostMetrics::unavailable().cpu_percent is None,
        HostMetrics::unavailable().available_memory_percent is None,
        HostMetrics::unavailable().disk_active_percent is None,
        HostMetrics::unavailable().disk_queue is None,
{
}

} // verus!
