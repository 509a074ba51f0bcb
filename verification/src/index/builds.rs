//! Reserving, starting and finishing builds.

use crate::config::ResolvedIndexConfig;
use crate::controller::{
    ControllerConfig, ControllerObservation, HostMetrics, InventoryLimits,
};
use crate::index::manager::IndexManager;
use crate::index::runtime::{BuildCoordination, HealthProbeState, RuntimeBuild, RuntimeState};
use crate::index::schedule::{retry_delay, timestamp_now};
use crate::index::storage::{lacks_space, RetryState};
use crate::opc::InventorySliceObservation;
use crate::numerals::push_decimal;
use crate::text::{joined, push_text};
use crate::time::{Duration, Instant, SystemTime};
use vstd::prelude::*;

verus! {

/// Whether a build may be started.
#[derive(Debug, PartialEq, Eq)]
pub enum BuildAdmission {
    /// There is a build already, or the server has to wait.
    NotNow,
    Refused(String),
    /// The build may go ahead once its lock file is held.
    AcquireLock,
}

/// Whether a server waits before it is tried again.
pub open spec fn backing_off(retry: RetryState, wall: SystemTime) -> bool {
    retry.circuit_open || (retry.retry_after matches Some(at) && wall.nanos < at.nanos)
}

/// How many builds may run at once.
pub open spec fn build_slots(settings: ResolvedIndexConfig) -> int {
    crate::config::positive(settings.concurrency as int)
}

/// Whether the finisher of a build is its owner: its token is the registered
/// one and, where a control is named, no other control has taken the build
/// over. Without a token the build itself decides.
pub open spec fn owns_build(
    runtime: Map<Seq<char>, RuntimeState>,
    owners: Map<Seq<char>, u64>,
    server: Seq<char>,
    control: Option<u64>,
    ownership: Option<u64>,
) -> bool {
    let built = crate::index::manager::has_build(runtime, server);
    let current = crate::index::manager::build_of(runtime, server).control;
    match ownership {
        Some(token) => {
            &&& owners.contains_key(server) && owners[server] == token
            &&& control is Some && built ==> current == control
        },
        None => built && (control is Some ==> current == control),
    }
}

/// The retry state after another failure.
pub open spec fn failed_retry(
    retry: RetryState,
    server: Seq<char>,
    settings: ResolvedIndexConfig,
    wall: SystemTime,
) -> RetryState {
    let failures = crate::controller::at_most(
        retry.consecutive_failures + 1,
        u32::MAX as int,
    ) as u32;
    let circuit_open = failures >= settings.circuit_failure_threshold;
    let delay = crate::index::schedule::retry_seconds(
        server,
        failures,
        circuit_open,
        settings.circuit_open_seconds,
    );
    RetryState {
        retry_after: Some(
            SystemTime {
                nanos: (wall.nanos + delay * crate::time::NANOS_PER_SEC) as i128,
            },
        ),
        consecutive_failures: failures,
        circuit_open,
    }
}

/// The retry state without failures.
pub open spec fn clear_retry() -> RetryState {
    RetryState { retry_after: None, consecutive_failures: 0, circuit_open: false }
}

/// The state of a server whose build is over.
pub open spec fn settled(
    state: RuntimeState,
    server: Seq<char>,
    error: Option<String>,
    settings: ResolvedIndexConfig,
    wall: SystemTime,
) -> RuntimeState {
    RuntimeState {
        build: None,
        last_error: error,
        retry: if error is Some {
            failed_retry(state.retry, server, settings, wall)
        } else {
            clear_retry()
        },
        ..state
    }
}

/// What finishing a build makes of a manager and the shared coordination.
pub open spec fn finished(
    before: IndexManager,
    after: IndexManager,
    shared_before: BuildCoordination,
    shared_after: BuildCoordination,
    server: Seq<char>,
    error: Option<String>,
    wall: SystemTime,
) -> bool {
    &&& after == (IndexManager {
        runtime: after.runtime,
        build_locks: after.build_locks,
        pending_cancels: after.pending_cancels,
        pause_overlays: after.pause_overlays,
        ..before
    })
    &&& after.runtime@ == (if before.runtime@.contains_key(server) {
        before.runtime@.insert(
            server,
            settled(before.runtime@[server], server, error, before.settings, wall),
        )
    } else {
        before.runtime@
    })
    &&& after.pause_overlays@ == before.pause_overlays@.remove(server)
    &&& after.build_locks@ == before.build_locks@.remove(server)
    &&& after.pending_cancels@ == before.pending_cancels@.remove(server)
    &&& shared_after.active_builds@ == shared_before.active_builds@.remove(server)
    &&& shared_after.build_owners@ == shared_before.build_owners@.remove(server)
}

/// Whether the wall clock can represent the latest retry set at a moment.
pub open spec fn retry_fits(wall: SystemTime) -> bool {
    wall.nanos + crate::index::schedule::RETRY_MAX_BACKOFF_SECONDS * crate::time::NANOS_PER_SEC
        <= i128::MAX
}

/// What reserving a build makes of a manager and the shared coordination.
pub open spec fn reserved(
    before: IndexManager,
    after: IndexManager,
    shared_before: BuildCoordination,
    shared_after: BuildCoordination,
    server: Seq<char>,
    ownership: u64,
    wall: SystemTime,
) -> bool {
    &&& after == (IndexManager {
        runtime: after.runtime,
        build_locks: after.build_locks,
        ..before
    })
    &&& after.build_locks@ == before.build_locks@.insert(server)
    &&& shared_after.active_builds@ == shared_before.active_builds@.insert(server)
    &&& shared_after.build_owners@ == shared_before.build_owners@.insert(server, ownership)
    &&& exists|started_at: String|
        started_at@ == crate::index::schedule::stamp_now(wall) && after.runtime@
            == before.runtime@.insert(
            server,
            RuntimeState {
                build: Some(
                    #[trigger] RuntimeBuild::reserved(
                        started_at,
                        crate::index::manager::users_of(before.foreground_users@, server),
                    ),
                ),
                last_error: None,
                ..crate::index::manager::state_of(before.runtime@, server)
            },
        )
}

/// Whether a server's build runs under a control.
pub open spec fn steered_by(
    runtime: Map<Seq<char>, RuntimeState>,
    server: Seq<char>,
    control: u64,
) -> bool {
    crate::index::manager::has_build(runtime, server) && crate::index::manager::build_of(
        runtime,
        server,
    ).control == Some(control)
}

/// Whether some build runs under a control.
pub open spec fn is_steering(runtime: Map<Seq<char>, RuntimeState>, control: u64) -> bool {
    exists|server: Seq<char>| #[trigger] steered_by(runtime, server, control)
}

pub open spec fn timeout_text(operation: Seq<char>, seconds: u64) -> Seq<char> {
    "OPC namespace index "@ + operation + " timed out after "@ + crate::numerals::decimal(
        seconds as nat,
    ) + " seconds"@
}

/// What is said of an operation of the OPC server that took too long.
pub fn timeout_message(operation: &str, seconds: u64) -> (message: String)
    ensures
        message@ == timeout_text(operation@, seconds),
{
    let mut message = joined("OPC namespace index ", operation);
    push_text(&mut message, " timed out after ");
    push_decimal(&mut message, seconds as u128);
    push_text(&mut message, " seconds");
    message
}

/// In which proportion a build rests and works under a duty cycle; without
/// rest there is none.
pub fn duty_shares(duty_cycle_percent: u8) -> (shares: Option<(u32, u32)>)
    ensures
        ({
            let duty = crate::controller::clamped(duty_cycle_percent as int, 1, 100);
            &&& shares is None == (duty == 100)
            &&& shares matches Some((rest, work)) ==> work == duty && rest == 100 - duty
        }),
{
    let duty: u32 = if duty_cycle_percent < 1 {
        1
    } else if duty_cycle_percent > 100 {
        100
    } else {
        duty_cycle_percent as u32
    };
    if duty >= 100 {
        None
    } else {
        Some((100 - duty, duty))
    }
}

impl IndexManager {
    fn slots(&self) -> (slots: usize)
        ensures
            slots as int == build_slots(self.settings) || (slots == usize::MAX && build_slots(
                self.settings,
            ) >= usize::MAX),
    {
        let concurrency: u32 = if self.settings.concurrency < 1 {
            1
        } else {
            self.settings.concurrency
        };
        concurrency as usize
    }

    /// Decides whether a build of a server may start.
    pub fn admit_build(
        &self,
        coordination: &BuildCoordination,
        server: &str,
        force: bool,
        wall: SystemTime,
    ) -> (admission: BuildAdmission)
        requires
            coordination.wf(),
        ensures
            ({
                let state = crate::index::manager::state_of(self.runtime@, server@);
                let busy = state.build is Some || (!force && backing_off(state.retry, wall));
                let full = coordination.active_builds@.len() >= build_slots(self.settings);
                let locked = self.build_locks@.contains(server@);
                &&& busy <==> admission is NotNow
                &&& !busy && !full && !locked <==> admission is AcquireLock
                &&& admission matches BuildAdmission::Refused(message) ==> message@ == (if full {
                    "namespace index build concurrency limit reached"@
                } else {
                    "namespace index build lock is already held in this process for server "@
                        + server@
                })
            }),
    {
        let (built, waiting) = match self.runtime.get(server) {
            Some(state) => {
                let retry_ahead = match state.retry.retry_after {
                    Some(retry) => wall.nanos < retry.nanos,
                    None => false,
                };
                (state.build.is_some(), state.retry.circuit_open || retry_ahead)
            },
            None => (false, false),
        };
        if built || (!force && waiting) {
            return BuildAdmission::NotNow;
        }
        if coordination.active_builds.len() >= self.slots() {
            return BuildAdmission::Refused(
                "namespace index build concurrency limit reached".to_owned(),
            );
        }
        if self.build_locks.contains(server) {
            return BuildAdmission::Refused(
                joined(
                    "namespace index build lock is already held in this process for server ",
                    server,
                ),
            );
        }
        BuildAdmission::AcquireLock
    }

    /// Reserves a build under a token. Its lock file is held already.
    pub fn reserve_build(
        &mut self,
        coordination: &mut BuildCoordination,
        server: &str,
        ownership: u64,
        wall: SystemTime,
    ) -> (result: Result<(), String>)
        requires
            old(self).wf(),
            old(coordination).wf(),
            !crate::index::manager::has_build(old(self).runtime@, server@),
        ensures
            final(self).wf(),
            final(coordination).wf(),
            ({
                let owned = old(coordination).build_owners@.contains_key(server@);
                let full = old(coordination).active_builds@.len() >= build_slots(
                    old(self).settings,
                );
                &&& result is Ok <==> !owned && !full
                &&& result matches Err(message) ==> message@ == (if owned {
                    "index build owner is already registered in this process for server "@
                        + server@
                } else {
                    "namespace index build concurrency limit reached"@
                })
            }),
            result is Ok ==> reserved(
                *old(self),
                *final(self),
                *old(coordination),
                *final(coordination),
                server@,
                ownership,
                wall,
            ),
            result is Err ==> *final(self) == *old(self) && *final(coordination) == *old(
                coordination,
            ),
    {
        if coordination.build_owners.contains_key(server) {
            return Err(
                joined(
                    "index build owner is already registered in this process for server ",
                    server,
                ),
            );
        }
        if coordination.active_builds.len() >= self.slots() {
            return Err("namespace index build concurrency limit reached".to_owned());
        }
        let foreground_users: usize = self.foreground_count(server);
        coordination.build_owners.insert(server, ownership);
        coordination.active_builds.insert(server);
        self.build_locks.insert(server);
        let mut state = match self.runtime.take(server) {
            Some(state) => state,
            None => RuntimeState::default(),
        };
        let started_at = timestamp_now(wall);
        let ghost reservation = RuntimeBuild::reserved(started_at, foreground_users);
        state.build = Some(RuntimeBuild::reserve(started_at, foreground_users));
        state.last_error = None;
        self.runtime.insert(server, state);
        proof {
            assert(self.runtime@ =~= old(self).runtime@.insert(server@, state));
            assert(state.build == Some(reservation));
        }
        Ok(())
    }

    /// Names the control of a reserved build.
    pub fn attach_control(&mut self, server: &str, control: u64) -> (result: Result<(), String>)
        ensures
            *final(self) == (IndexManager { runtime: final(self).runtime, ..*old(self) }),
            final(self).runtime@ == crate::index::manager::with_build(
                old(self).runtime@,
                server@,
                |build: RuntimeBuild| RuntimeBuild { control: Some(control), ..build },
            ),
            result is Ok <==> crate::index::manager::has_build(old(self).runtime@, server@),
            result matches Err(message) ==> message@ == "index build disappeared before start"@,
    {
        match self.runtime.take(server) {
            Some(state) => {
                let mut state = state;
                let result = match &mut state.build {
                    Some(build) => {
                        build.control = Some(control);
                        Ok(())
                    },
                    None => Err("index build disappeared before start".to_owned()),
                };
                self.runtime.insert(server, state);
                assert(self.runtime@ =~= crate::index::manager::with_build(
                    old(self).runtime@,
                    server@,
                    |build: RuntimeBuild| RuntimeBuild { control: Some(control), ..build },
                ));
                result
            },
            None => {
                assert(self.runtime@ =~= old(self).runtime@);
                Err("index build disappeared before start".to_owned())
            },
        }
    }

    /// Checks that a build is still under the control that it started with.
    pub fn require_control(&self, server: &str, control: u64) -> (result: Result<(), String>)
        ensures
            result is Ok <==> crate::index::manager::has_build(self.runtime@, server@)
                && crate::index::manager::build_of(self.runtime@, server@).control == Some(
                control,
            ),
            result matches Err(message) ==> message@ == "index build disappeared before start"@,
    {
        let current: Option<u64> = match self.runtime.get(server) {
            Some(state) => match &state.build {
                Some(build) => build.control,
                None => None,
            },
            None => None,
        };
        match current {
            Some(id) => if id == control {
                Ok(())
            } else {
                Err("index build disappeared before start".to_owned())
            },
            None => Err("index build disappeared before start".to_owned()),
        }
    }

    fn owns(
        &self,
        coordination: &BuildCoordination,
        server: &str,
        control: Option<u64>,
        ownership: Option<u64>,
    ) -> (owns: bool)
        ensures
            owns == owns_build(
                self.runtime@,
                coordination.build_owners@,
                server@,
                control,
                ownership,
            ),
    {
        let (built, current) = match self.runtime.get(server) {
            Some(state) => match &state.build {
                Some(build) => (true, build.control),
                None => (false, None),
            },
            None => (false, None),
        };
        let same_control = match (control, current) {
            (Some(named), Some(running)) => named == running,
            (Some(_), None) => false,
            (None, _) => true,
        };
        match ownership {
            Some(token) => {
                let registered = match coordination.build_owners.get(server) {
                    Some(current_token) => *current_token == token,
                    None => false,
                };
                registered && (!built || same_control)
            },
            None => built && same_control,
        }
    }

    /// Ends a server's build, if the finisher owns it: its outcome is recorded
    /// and everything that it held is released. A failure sets the next retry.
    /// Tells whether it did.
    pub fn finish_build(
        &mut self,
        coordination: &mut BuildCoordination,
        server: &str,
        control: Option<u64>,
        ownership: Option<u64>,
        error: Option<String>,
        wall: SystemTime,
    ) -> (owned: bool)
        requires
            old(self).wf(),
            old(coordination).wf(),
            retry_fits(wall),
        ensures
            final(self).wf(),
            final(coordination).wf(),
            owned == owns_build(
                old(self).runtime@,
                old(coordination).build_owners@,
                server@,
                control,
                ownership,
            ),
            owned ==> finished(
                *old(self),
                *final(self),
                *old(coordination),
                *final(coordination),
                server@,
                error,
                wall,
            ),
            !owned ==> *final(self) == *old(self) && *final(coordination) == *old(coordination),
    {
        if !self.owns(coordination, server, control, ownership) {
            return false;
        }
        match self.runtime.take(server) {
            Some(state) => {
                let mut state = state;
                let ghost had = state;
                if error.is_some() {
                    let failures: u32 = state.retry.consecutive_failures.saturating_add(1);
                    let circuit_open = failures >= self.settings.circuit_failure_threshold;
                    let delay = retry_delay(
                        server,
                        failures,
                        circuit_open,
                        self.settings.circuit_open_seconds,
                    );
                    proof {
                        crate::index::schedule::retry_delay_is_bounded(
                            server@,
                            failures,
                            circuit_open,
                            self.settings.circuit_open_seconds,
                        );
                    }
                    state.retry =
                    RetryState {
                        retry_after: wall.checked_add(delay),
                        consecutive_failures: failures,
                        circuit_open,
                    };
                } else {
                    state.retry =
                    RetryState { retry_after: None, consecutive_failures: 0, circuit_open: false };
                }
                state.last_error = error;
                state.build = None;
                self.runtime.insert(server, state);
                proof {
                    assert(state == settled(had, server@, error, old(self).settings, wall));
                    assert(self.runtime@ =~= old(self).runtime@.insert(server@, state));
                }
            },
            None => {
                assert(self.runtime@ =~= old(self).runtime@);
            },
        }
        self.pause_overlays.remove(server);
        coordination.build_owners.remove(server);
        let _ = coordination.active_builds.remove(server);
        let _ = self.build_locks.remove(server);
        let _ = self.pending_cancels.remove(server);
        true
    }

    /// The controls of all running builds, which a shutdown cancels.
    pub fn running_controls(&self) -> (controls: Vec<u64>)
        ensures
            forall|control: u64| #[trigger]
                controls@.contains(control) <==> is_steering(self.runtime@, control),
    {
        let keys = self.runtime.keys();
        let ghost names = crate::text::texts(keys@);
        let mut controls: Vec<u64> = Vec::new();
        let mut i: usize = 0;
        while i < keys.len()
            invariant
                i <= keys.len(),
                forall|k: int|
                    0 <= k < controls@.len() ==> is_steering(
                        self.runtime@,
                        #[trigger] controls@[k],
                    ),
                forall|j: int, control: u64|
                    0 <= j < i && #[trigger] steered_by(
                        self.runtime@,
                        (#[trigger] keys@[j])@,
                        control,
                    ) ==> controls@.contains(control),
            decreases keys.len() - i,
        {
            let control: Option<u64> = match self.runtime.get(keys[i].as_str()) {
                Some(state) => match &state.build {
                    Some(build) => build.control,
                    None => None,
                },
                None => None,
            };
            let ghost before = controls@;
            if let Some(control) = control {
                assert(steered_by(self.runtime@, keys@[i as int]@, control));
                controls.push(control);
                assert(controls@[before.len() as int] == control);
            }
            proof {
                assert forall|k: int| 0 <= k < controls@.len() implies is_steering(
                    self.runtime@,
                    #[trigger] controls@[k],
                ) by {
                    if k < before.len() {
                        assert(controls@[k] == before[k]);
                    }
                }
                assert forall|j: int, steer: u64|
                    0 <= j < i + 1 && #[trigger] steered_by(
                        self.runtime@,
                        (#[trigger] keys@[j])@,
                        steer,
                    ) implies controls@.contains(steer) by {
                    if j < i {
                        assert(before.contains(steer));
                        let k = choose|k: int| 0 <= k < before.len() && before[k] == steer;
                        assert(controls@[k] == steer);
                    }
                }
            }
            i += 1;
        }
        proof {
            assert forall|control: u64| #[trigger]
                controls@.contains(control) <==> is_steering(self.runtime@, control) by {
                if is_steering(self.runtime@, control) {
                    let server = choose|server: Seq<char>| #[trigger]
                        steered_by(self.runtime@, server, control);
                    assert(names.contains(server));
                    let j = choose|j: int| 0 <= j < names.len() && names[j] == server;
                    assert(keys@[j]@ == server);
                    assert(steered_by(self.runtime@, keys@[j]@, control));
                }
            }
        }
        controls
    }

    /// How long an operation of the OPC server may take, in seconds.
    pub fn operation_timeout_seconds(&self) -> (seconds: u64)
        ensures
            seconds == crate::controller::at_least(
                self.settings.operation_timeout_seconds as int,
                1,
            ),
    {
        at_least_one(self.settings.operation_timeout_seconds)
    }

    /// The retry state to store for a server.
    pub fn retry_state_of(&self, server: &str) -> (retry: RetryState)
        ensures
            retry == crate::index::manager::state_of(self.runtime@, server@).retry,
    {
        match self.runtime.get(server) {
            Some(state) => state.retry,
            None => RetryState { retry_after: None, consecutive_failures: 0, circuit_open: false },
        }
    }

    /// The controller settings of the index.
    pub open spec fn steering(self) -> ControllerConfig {
        ControllerConfig {
            floor: InventoryLimits {
                item_rate_per_second: self.settings.minimum_item_rate,
                batch_size: self.settings.minimum_batch_size,
                duty_cycle_percent: self.settings.minimum_duty_cycle_percent,
            },
            canary: InventoryLimits {
                item_rate_per_second: self.settings.canary_item_rate,
                batch_size: self.settings.canary_batch_size,
                duty_cycle_percent: self.settings.canary_duty_cycle_percent,
            },
            ceiling: InventoryLimits {
                item_rate_per_second: self.settings.item_rate_limit,
                batch_size: self.settings.inventory_batch_size,
                duty_cycle_percent: self.settings.duty_cycle_percent,
            },
            unlimited_item_rate: self.settings.item_rate_limit == 0,
            healthy_window: Duration::of_secs(
                crate::config::positive(
                    self.settings.adaptive_healthy_window_seconds as int,
                ) as u64,
            ),
            recovery_delay: Duration::of_secs(
                crate::config::positive(
                    self.settings.adaptive_recovery_delay_seconds as int,
                ) as u64,
            ),
            maximum_recovery_delay: Duration::of_secs(
                crate::config::positive(
                    self.settings.adaptive_max_recovery_delay_seconds as int,
                ) as u64,
            ),
            foreground_latency_absolute_ms: crate::config::positive(
                self.settings.health_latency_threshold_ms as int,
            ) as u64,
        }
    }

    pub fn controller_config(&self) -> (config: ControllerConfig)
        ensures
            config == self.steering(),
    {
        ControllerConfig {
            floor: InventoryLimits {
                item_rate_per_second: self.settings.minimum_item_rate,
                batch_size: self.settings.minimum_batch_size,
                duty_cycle_percent: self.settings.minimum_duty_cycle_percent,
            },
            canary: InventoryLimits {
                item_rate_per_second: self.settings.canary_item_rate,
                batch_size: self.settings.canary_batch_size,
                duty_cycle_percent: self.settings.canary_duty_cycle_percent,
            },
            ceiling: InventoryLimits {
                item_rate_per_second: self.settings.item_rate_limit,
                batch_size: self.settings.inventory_batch_size,
                duty_cycle_percent: self.settings.duty_cycle_percent,
            },
            unlimited_item_rate: self.settings.item_rate_limit == 0,
            healthy_window: Duration::from_secs(
                at_least_one(self.settings.adaptive_healthy_window_seconds),
            ),
            recovery_delay: Duration::from_secs(
                at_least_one(self.settings.adaptive_recovery_delay_seconds),
            ),
            maximum_recovery_delay: Duration::from_secs(
                at_least_one(self.settings.adaptive_max_recovery_delay_seconds),
            ),
            foreground_latency_absolute_ms: at_least_one(
                self.settings.health_latency_threshold_ms,
            ),
        }
    }

    /// The limits that a build starts with.
    pub open spec fn starting_limits(self) -> InventoryLimits {
        if self.settings.adaptive {
            self.steering().normal_form().canary
        } else {
            InventoryLimits {
                item_rate_per_second: self.settings.item_rate_limit,
                batch_size: self.settings.inventory_batch_size,
                duty_cycle_percent: self.settings.duty_cycle_percent,
            }
        }
    }

    pub fn initial_inventory_limits(&self) -> (limits: InventoryLimits)
        ensures
            limits == self.starting_limits(),
    {
        if !self.settings.adaptive {
            return InventoryLimits {
                item_rate_per_second: self.settings.item_rate_limit,
                batch_size: self.settings.inventory_batch_size,
                duty_cycle_percent: self.settings.duty_cycle_percent,
            };
        }
        self.controller_config().normalized().canary
    }

    /// How long a recorded failure of foreground work counts.
    pub open spec fn failure_window(self) -> Duration {
        Duration::of_secs(
            crate::config::positive(self.settings.health_probe_interval_seconds as int) as u64,
        )
    }

    /// What the controller is shown of a server.
    pub open spec fn observation(
        self,
        server: Seq<char>,
        inventory_error: bool,
        free_bytes: Option<u64>,
        host: HostMetrics,
        now: Instant,
    ) -> ControllerObservation {
        let state = crate::index::manager::state_of(self.runtime@, server);
        let metrics = self.metrics_of(server);
        ControllerObservation {
            foreground_active: crate::index::manager::users_of(self.foreground_users@, server) > 0,
            foreground_error: metrics matches Some(m) && crate::index::metrics::recent(
                m.last_health_failure_at,
                now,
                self.failure_window(),
            ),
            foreground_bad_quality: metrics matches Some(m) && crate::index::metrics::recent(
                m.last_bad_quality_at,
                now,
                self.failure_window(),
            ),
            foreground_latency_ms: match metrics {
                Some(m) => m.summary(0).latency_p95_ms,
                None => None,
            },
            baseline_latency_ms: Some(self.settings.health_latency_threshold_ms),
            inventory_error: inventory_error || state.health == HealthProbeState::Unhealthy,
            host_cpu_percent: host.cpu_percent,
            available_memory_percent: host.available_memory_percent,
            disk_active_percent: host.disk_active_percent,
            disk_queue: host.disk_queue,
            database_commit_p95_ms: match state.build {
                Some(build) => build.last_commit_latency_ms,
                None => None,
            },
            insufficient_disk_space: crate::index::storage::space_lacks(
                free_bytes,
                self.settings.minimum_free_space_bytes,
                self.settings.storage_headroom_bytes,
            ),
        }
    }

    pub fn controller_observation(
        &self,
        server: &str,
        inventory_error: bool,
        free_bytes: Option<u64>,
        host: HostMetrics,
        now: Instant,
    ) -> (observation: ControllerObservation)
        requires
            self.wf(),
        ensures
            observation == self.observation(server@, inventory_error, free_bytes, host, now),
    {
        let window = Duration::from_secs(
            at_least_one(self.settings.health_probe_interval_seconds),
        );
        let (latency, failed, bad) = match self.foreground_metrics.get(server) {
            Some(metrics) => (
                metrics.snapshot(0).latency_p95_ms,
                metrics.recent_health_failure(now, window),
                metrics.recent_bad_quality(now, window),
            ),
            None => (None, false, false),
        };
        let (unhealthy, commit) = match self.runtime.get(server) {
            Some(state) => (
                state.health == HealthProbeState::Unhealthy,
                match &state.build {
                    Some(build) => build.last_commit_latency_ms,
                    None => None,
                },
            ),
            None => (false, None),
        };
        ControllerObservation {
            foreground_active: self.foreground_active(server),
            foreground_error: failed,
            foreground_bad_quality: bad,
            foreground_latency_ms: latency,
            baseline_latency_ms: Some(self.settings.health_latency_threshold_ms),
            inventory_error: inventory_error || unhealthy,
            host_cpu_percent: host.cpu_percent,
            available_memory_percent: host.available_memory_percent,
            disk_active_percent: host.disk_active_percent,
            disk_queue: host.disk_queue,
            database_commit_p95_ms: commit,
            insufficient_disk_space: lacks_space(
                free_bytes,
                self.settings.minimum_free_space_bytes,
                self.settings.storage_headroom_bytes,
            ),
        }
    }

    /// What the controller is shown after a slice: one without native
    /// operations counts as an inventory error.
    pub fn controller_observation_for_slice(
        &self,
        server: &str,
        slice: &InventorySliceObservation,
        free_bytes: Option<u64>,
        host: HostMetrics,
        now: Instant,
    ) -> (observation: ControllerObservation)
        requires
            self.wf(),
        ensures
            observation == self.observation(
                server@,
                slice.native_operations == 0,
                free_bytes,
                host,
                now,
            ),
    {
        self.controller_observation(server, slice.native_operations == 0, free_bytes, host, now)
    }
}

pub fn at_least_one(n: u64) -> (m: u64)
    ensures
        m == crate::config::positive(n as int),
{
    if n < 1 {
        1
    } else {
        n
    }
}

/// Once its owner has finished a build, nothing of it is left: the server has
/// no build, holds no slot and no lock, and is owned by nobody.
pub proof fn finishing_releases_everything(
    before: IndexManager,
    after: IndexManager,
    shared_before: BuildCoordination,
    shared_after: BuildCoordination,
    server: Seq<char>,
    error: Option<String>,
    wall: SystemTime,
)
    requires
        finished(before, after, shared_before, shared_after, server, error, wall),
    ensures
        !crate::index::manager::has_build(after.runtime@, server),
        !shared_after.active_builds@.contains(server),
        !shared_after.build_owners@.contains_key(server),
        !after.build_locks@.contains(server),
        !after.pending_cancels@.contains(server),
        !after.pause_overlays@.contains_key(server),
{
}

/// A build that is reserved and finished leaves the slots and the owners of
/// all servers as they were.
pub proof fn reserving_and_finishing_restores_the_slots(
    before: IndexManager,
    during: IndexManager,
    after: IndexManager,
    shared_before: BuildCoordination,
    shared_during: BuildCoordination,
    shared_after: BuildCoordination,
    server: Seq<char>,
    ownership: u64,
    error: Option<String>,
    wall: SystemTime,
    end: SystemTime,
)
    requires
        !shared_before.active_builds@.contains(server),
        !shared_before.build_owners@.contains_key(server),
        reserved(before, during, shared_before, shared_during, server, ownership, wall),
        finished(during, after, shared_during, shared_after, server, error, end),
    ensures
        shared_after.active_builds@ == shared_before.active_builds@,
        shared_after.build_owners@ == shared_before.build_owners@,
{
    assert(shared_after.active_builds@ =~= shared_before.active_builds@);
    assert(shared_after.build_owners@ =~= shared_before.build_owners@);
}

/// Reserving a build never takes more slots than there are.
pub proof fn reserving_keeps_within_the_slots(
    before: IndexManager,
    after: IndexManager,
    shared_before: BuildCoordination,
    shared_after: BuildCoordination,
    server: Seq<char>,
    ownership: u64,
    wall: SystemTime,
)
    requires
        shared_before.active_builds@.finite(),
        shared_before.active_builds@.len() < build_slots(before.settings),
        reserved(before, after, shared_before, shared_after, server, ownership, wall),
    ensures
        shared_after.active_builds@.len() <= build_slots(before.settings),
{
}

/// A failure always schedules a retry between five minutes and a day ahead;
/// the circuit is open from the configured number of failures on.
pub proof fn failure_schedules_a_retry(
    retry: RetryState,
    server: Seq<char>,
    settings: ResolvedIndexConfig,
    wall: SystemTime,
)
    requires
        retry_fits(wall),
    ensures
        ({
            let next = failed_retry(retry, server, settings, wall);
            &&& next.retry_after is Some
            &&& wall.nanos + 300 * crate::time::NANOS_PER_SEC <= next.retry_after->0.nanos
                <= wall.nanos + 86_400 * crate::time::NANOS_PER_SEC
            &&& next.consecutive_failures > retry.consecutive_failures
                || next.consecutive_failures == u32::MAX
            &&& next.circuit_open <==> next.consecutive_failures
                >= settings.circuit_failure_threshold
            &&& backing_off(next, wall)
        }),
{
    let failures = crate::controller::at_most(
        retry.consecutive_failures + 1,
        u32::MAX as int,
    ) as u32;
    crate::index::schedule::retry_delay_is_bounded(
        server,
        failures,
        failures >= settings.circuit_failure_threshold,
        settings.circuit_open_seconds,
    );
}

/// A server that takes over a stored retry state backs off exactly until the
/// retry time, whether its circuit is open or not.
pub proof fn stored_backoff_ends_at_its_time(persisted: RetryState, wall: SystemTime)
    ensures
        backing_off(crate::index::manager::adopted(persisted, wall), wall) == (
        persisted.retry_after matches Some(at) && wall.nanos < at.nanos),
{
}

/// A server backs off while its circuit is open and until its retry is due, and
/// no longer.
pub proof fn backing_off_ends_when_the_retry_is_due(retry: RetryState, wall: SystemTime)
    ensures
        retry.circuit_open ==> backing_off(retry, wall),
        !retry.circuit_open && retry.retry_after is None ==> !backing_off(retry, wall),
        !retry.circuit_open && retry.retry_after is Some ==> (backing_off(retry, wall) <==> (
        retry.retry_after->0).nanos > wall.nanos),
{
}

/// As many builds run at a time as are configured, and one where none are.
pub proof fn there_is_always_a_slot(settings: ResolvedIndexConfig)
    ensures
        settings.concurrency >= 1 ==> build_slots(settings) == settings.concurrency,
        settings.concurrency == 0 ==> build_slots(settings) == 1,
{
}

/// A build belongs to whom it was reserved for: with an ownership, to the one
/// that is registered; with a control, only while the build has that control;
/// and with neither, while there is a build.
pub proof fn builds_belong_to_their_owners(
    runtime: Map<Seq<char>, RuntimeState>,
    owners: Map<Seq<char>, u64>,
    server: Seq<char>,
    control: Option<u64>,
    ownership: Option<u64>,
)
    ensures
        ({
            let built = runtime.contains_key(server) && runtime[server].build is Some;
            let steered = built && control is Some && (runtime[server].build->0).control
                == control;
            let owns = owns_build(runtime, owners, server, control, ownership);
            &&& ownership is Some && owns ==> owners.contains_key(server) && owners[server]
                == ownership->0
            &&& ownership is None && owns ==> built
            &&& built && control is Some && owns ==> steered
            &&& ownership is None && built && (control is None || steered) ==> owns
            &&& ownership is Some && owners.contains_key(server) && owners[server]
                == ownership->0 && (!built || control is None || steered) ==> owns
        }),
{
}

/// A finished build is gone and leaves its error behind, if it had one. A failure
/// counts, and puts off the next attempt; a success forgets all failures. What is
/// known of the health of the server stays, and so does all that is known of
/// other servers.
pub proof fn finishing_settles_the_server(
    before: IndexManager,
    after: IndexManager,
    shared_before: BuildCoordination,
    shared_after: BuildCoordination,
    server: Seq<char>,
    error: Option<String>,
    wall: SystemTime,
    other: Seq<char>,
)
    requires
        retry_fits(wall),
        finished(before, after, shared_before, shared_after, server, error, wall),
        before.runtime@.contains_key(server),
    ensures
        ({
            let had = before.runtime@[server];
            let left = after.runtime@[server];
            &&& after.runtime@.contains_key(server)
            &&& left.build is None
            &&& left.last_error == error
            &&& left.health == had.health
            &&& left.sentinel_checked_at == had.sentinel_checked_at
            &&& error is None ==> left.retry.retry_after is None
                && left.retry.consecutive_failures == 0 && !left.retry.circuit_open
            &&& error is Some && had.retry.consecutive_failures < u32::MAX
                ==> left.retry.consecutive_failures == had.retry.consecutive_failures + 1
            &&& error is Some ==> {
                &&& left.retry.circuit_open <==> left.retry.consecutive_failures
                    >= before.settings.circuit_failure_threshold
                &&& left.retry.retry_after is Some
                &&& (left.retry.retry_after->0).nanos == wall.nanos + 1_000_000_000
                    * crate::index::schedule::retry_seconds(
                    server,
                    left.retry.consecutive_failures,
                    left.retry.circuit_open,
                    before.settings.circuit_open_seconds,
                )
            }
            &&& other != server ==> after.runtime@.contains_key(other)
                == before.runtime@.contains_key(other)
            &&& other != server && before.runtime@.contains_key(other) ==> after.runtime@[other]
                == before.runtime@[other]
            &&& after.settings == before.settings
        }),
{
    let failures = crate::controller::at_most(
        before.runtime@[server].retry.consecutive_failures + 1,
        u32::MAX as int,
    ) as u32;
    crate::index::schedule::retry_delay_is_bounded(
        server,
        failures,
        failures >= before.settings.circuit_failure_threshold,
        before.settings.circuit_open_seconds,
    );
}

/// A reserved build has its slot, its lock and its owner. It starts with nothing
/// done, unlimited and unpaused but for the requests that its server is serving;
/// the last error is forgotten, and what is known of retries and health stays.
pub proof fn reservations_start_afresh(
    before: IndexManager,
    after: IndexManager,
    shared_before: BuildCoordination,
    shared_after: BuildCoordination,
    server: Seq<char>,
    ownership: u64,
    wall: SystemTime,
    other: Seq<char>,
)
    requires
        reserved(before, after, shared_before, shared_after, server, ownership, wall),
    ensures
        ({
            let left = after.runtime@[server];
            let build = left.build->0;
            &&& after.runtime@.contains_key(server)
            &&& left.build is Some
            &&& build.started_at@ == crate::index::schedule::stamp_now(wall)
            &&& before.foreground_users@.contains_key(server) ==> build.foreground_users
                == before.foreground_users@[server]
            &&& !before.foreground_users@.contains_key(server) ==> build.foreground_users == 0
            &&& build.control is None && build.progress is None && build.quiet_until is None
            &&& !build.operator_paused
            &&& build.effective_limits is None && build.controller_state is None
            &&& build.pause_reason is None && build.recovery_deadline is None
            &&& build.last_commit_latency_ms is None
            &&& left.last_error is None
            &&& before.runtime@.contains_key(server) ==> left.retry
                == before.runtime@[server].retry && left.health == before.runtime@[server].health
                && left.sentinel_checked_at == before.runtime@[server].sentinel_checked_at
            &&& after.build_locks@.contains(server)
            &&& shared_after.active_builds@.contains(server)
            &&& shared_after.build_owners@.contains_key(server)
            &&& shared_after.build_owners@[server] == ownership
            &&& other != server ==> after.runtime@.contains_key(other)
                == before.runtime@.contains_key(other)
            &&& other != server && before.runtime@.contains_key(other) ==> after.runtime@[other]
                == before.runtime@[other]
            &&& other != server ==> shared_after.active_builds@.contains(other)
                == shared_before.active_builds@.contains(other)
        }),
{
}

/// The controller steers by what is configured. Times are at least a second, and
/// the rate has no limit where none is configured.
pub proof fn steering_follows_the_settings(manager: IndexManager)
    ensures
        ({
            let s = manager.settings;
            let c = manager.steering();
            &&& c.floor.item_rate_per_second == s.minimum_item_rate
            &&& c.floor.batch_size == s.minimum_batch_size
            &&& c.floor.duty_cycle_percent == s.minimum_duty_cycle_percent
            &&& c.canary.item_rate_per_second == s.canary_item_rate
            &&& c.canary.batch_size == s.canary_batch_size
            &&& c.canary.duty_cycle_percent == s.canary_duty_cycle_percent
            &&& c.ceiling.item_rate_per_second == s.item_rate_limit
            &&& c.ceiling.batch_size == s.inventory_batch_size
            &&& c.ceiling.duty_cycle_percent == s.duty_cycle_percent
            &&& c.unlimited_item_rate <==> s.item_rate_limit == 0
            &&& s.adaptive_healthy_window_seconds >= 1 ==> c.healthy_window.nanos
                == s.adaptive_healthy_window_seconds * 1_000_000_000
            &&& s.adaptive_recovery_delay_seconds >= 1 ==> c.recovery_delay.nanos
                == s.adaptive_recovery_delay_seconds * 1_000_000_000
            &&& s.adaptive_max_recovery_delay_seconds >= 1 ==> c.maximum_recovery_delay.nanos
                == s.adaptive_max_recovery_delay_seconds * 1_000_000_000
            &&& s.health_latency_threshold_ms >= 1 ==> c.foreground_latency_absolute_ms
                == s.health_latency_threshold_ms
            &&& s.adaptive_healthy_window_seconds == 0 ==> c.healthy_window.nanos == 1_000_000_000
            &&& s.adaptive_recovery_delay_seconds == 0 ==> c.recovery_delay.nanos == 1_000_000_000
            &&& s.adaptive_max_recovery_delay_seconds == 0 ==> c.maximum_recovery_delay.nanos
                == 1_000_000_000
            &&& s.health_latency_threshold_ms == 0 ==> c.foreground_latency_absolute_ms == 1
        }),
{
}

/// An adaptive build starts with the limits of the canary, as far as they lie
/// between the lowest and the highest; any other starts with the highest.
pub proof fn builds_start_with_their_limits(manager: IndexManager)
    ensures
        ({
            let s = manager.settings;
            let limits = manager.starting_limits();
            &&& !s.adaptive ==> limits == (InventoryLimits {
                item_rate_per_second: s.item_rate_limit,
                batch_size: s.inventory_batch_size,
                duty_cycle_percent: s.duty_cycle_percent,
            })
            &&& s.adaptive && 1 <= s.minimum_batch_size <= s.canary_batch_size
                <= s.inventory_batch_size <= 1_000 ==> limits.batch_size == s.canary_batch_size
            &&& s.adaptive && 1 <= s.minimum_duty_cycle_percent <= s.canary_duty_cycle_percent
                <= s.duty_cycle_percent <= 100 ==> limits.duty_cycle_percent
                == s.canary_duty_cycle_percent
            &&& s.adaptive && 1 <= s.minimum_item_rate <= s.canary_item_rate
                <= s.item_rate_limit ==> limits.item_rate_per_second == s.canary_item_rate
            &&& s.adaptive && s.item_rate_limit == 0 ==> limits.item_rate_per_second == 0
            &&& s.adaptive ==> 1 <= limits.batch_size <= 1_000 && 1 <= limits.duty_cycle_percent
                <= 100
        }),
{
    crate::controller::normalizing_changes_little(manager.steering());
}

/// The controller is shown everything that could call for a pause: whether the
/// server is used, errors and bad quality that are recent, slow answers and
/// commits, a failed inventory or probe, the state of the host, and a lack of
/// disk space.
pub proof fn observations_leave_nothing_out(
    manager: IndexManager,
    server: Seq<char>,
    inventory_error: bool,
    free_bytes: Option<u64>,
    host: HostMetrics,
    now: Instant,
)
    ensures
        ({
            let seen = manager.observation(server, inventory_error, free_bytes, host, now);
            let used = manager.foreground_metrics@.contains_key(server);
            let metrics = manager.foreground_metrics@[server];
            let known = manager.runtime@.contains_key(server);
            let state = manager.runtime@[server];
            let seconds = if manager.settings.health_probe_interval_seconds == 0 {
                1
            } else {
                manager.settings.health_probe_interval_seconds as int
            };
            let recent = |at: Option<Instant>|
                at is Some && now.nanos - (at->0).nanos <= seconds * 1_000_000_000;
            &&& seen.foreground_active <==> manager.foreground_users@.contains_key(server)
                && manager.foreground_users@[server] > 0
            &&& seen.foreground_error <==> used && recent(metrics.last_health_failure_at)
            &&& seen.foreground_bad_quality <==> used && recent(metrics.last_bad_quality_at)
            &&& used ==> seen.foreground_latency_ms == metrics.summary(0).latency_p95_ms
            &&& !used ==> seen.foreground_latency_ms is None
            &&& seen.baseline_latency_ms == Some(manager.settings.health_latency_threshold_ms)
            &&& seen.inventory_error <==> inventory_error || (known && state.health is Unhealthy)
            &&& seen.host_cpu_percent == host.cpu_percent
            &&& seen.available_memory_percent == host.available_memory_percent
            &&& seen.disk_active_percent == host.disk_active_percent
            &&& seen.disk_queue == host.disk_queue
            &&& known && state.build is Some ==> seen.database_commit_p95_ms == (
            state.build->0).last_commit_latency_ms
            &&& !known || state.build is None ==> seen.database_commit_p95_ms is None
            &&& free_bytes is None ==> !seen.insufficient_disk_space
            &&& free_bytes is Some && free_bytes->0 < u64::MAX ==> (seen.insufficient_disk_space
                <==> free_bytes->0 < manager.settings.minimum_free_space_bytes
                + manager.settings.storage_headroom_bytes)
        }),
{
}

/// Reserving and finishing a build touch no other server: its slot, its lock, its
/// owner, its overlay and its cancellation stay as they were, and so do the users
/// and the metrics of all servers, what is promoted and what is remembered.
pub proof fn builds_keep_to_their_server(
    before: IndexManager,
    after: IndexManager,
    shared_before: BuildCoordination,
    shared_after: BuildCoordination,
    server: Seq<char>,
    ownership: u64,
    error: Option<String>,
    wall: SystemTime,
    other: Seq<char>,
)
    requires
        reserved(before, after, shared_before, shared_after, server, ownership, wall) || finished(
            before,
            after,
            shared_before,
            shared_after,
            server,
            error,
            wall,
        ),
        other != server,
    ensures
        after.build_locks@.contains(other) == before.build_locks@.contains(other),
        after.pending_cancels@.contains(other) == before.pending_cancels@.contains(other),
        after.pause_overlays@.contains_key(other) == before.pause_overlays@.contains_key(other),
        before.pause_overlays@.contains_key(other) ==> after.pause_overlays@[other]
            == before.pause_overlays@[other],
        shared_after.active_builds@.contains(other) == shared_before.active_builds@.contains(other),
        shared_after.build_owners@.contains_key(other) == shared_before.build_owners@.contains_key(
            other,
        ),
        shared_before.build_owners@.contains_key(other) ==> shared_after.build_owners@[other]
            == shared_before.build_owners@[other],
        after.foreground_users == before.foreground_users,
        after.foreground_metrics == before.foreground_metrics,
        after.promoting == before.promoting,
        after.cache == before.cache,
        after.settings == before.settings,
{
}

/// A reservation leaves the cancellations and the overlays of its own server as
/// they were.
pub proof fn reservations_keep_cancellations(
    before: IndexManager,
    after: IndexManager,
    shared_before: BuildCoordination,
    shared_after: BuildCoordination,
    server: Seq<char>,
    ownership: u64,
    wall: SystemTime,
)
    requires
        reserved(before, after, shared_before, shared_after, server, ownership, wall),
    ensures
        after.pending_cancels == before.pending_cancels,
        after.pause_overlays == before.pause_overlays,
{
}

} // verus!
