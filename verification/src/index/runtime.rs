//! What is known of running builds, and when they have to pause.

use crate::collections::{StrMap, StrSet};
use crate::controller::{ControllerState, InventoryLimits, PauseReason};
use crate::index::storage::RetryState;
use crate::opc::InventoryProgress;
use crate::time::Instant;
use vstd::prelude::*;

verus! {

#[derive(Debug, Clone, Copy, PartialEq, Eq, Structural)]
pub enum HealthProbeState {
    Unavailable,
    Healthy,
    Unhealthy,
}

impl Default for HealthProbeState {
    fn default() -> (state: Self)
        ensures
            state == HealthProbeState::Unavailable,
    {
        HealthProbeState::Unavailable
    }
}

/// A build that runs or is about to. Controls are told apart by number.
#[derive(Debug)]
pub struct RuntimeBuild {
    pub control: Option<u64>,
    pub progress: Option<InventoryProgress>,
    pub started_at: String,
    pub foreground_users: usize,
    pub operator_paused: bool,
    pub quiet_until: Option<Instant>,
    pub effective_limits: Option<InventoryLimits>,
    pub controller_state: Option<ControllerState>,
    pub pause_reason: Option<PauseReason>,
    pub recovery_deadline: Option<Instant>,
    pub last_commit_latency_ms: Option<u64>,
}

#[derive(Debug)]
pub struct RuntimeState {
    pub build: Option<RuntimeBuild>,
    pub retry: RetryState,
    pub last_error: Option<String>,
    pub health: HealthProbeState,
    pub sentinel_checked_at: Option<Instant>,
}

impl RuntimeState {
    /// The state of a server of which nothing is known.
    pub open spec fn initial() -> Self {
        RuntimeState {
            build: None,
            retry: RetryState {
                retry_after: None,
                consecutive_failures: 0,
                circuit_open: false,
            },
            last_error: None,
            health: HealthProbeState::Unavailable,
            sentinel_checked_at: None,
        }
    }
}

impl Default for RuntimeState {
    fn default() -> (state: Self)
        ensures
            state == RuntimeState::initial(),
    {
        RuntimeState {
            build: None,
            retry: RetryState {
                retry_after: None,
                consecutive_failures: 0,
                circuit_open: false,
            },
            last_error: None,
            health: HealthProbeState::Unavailable,
            sentinel_checked_at: None,
        }
    }
}

#[derive(Debug, Clone, Copy, PartialEq, Eq, Structural)]
pub struct PauseOverlayState {
    pub maintenance: bool,
    pub health: bool,
}

impl PauseOverlayState {
    pub open spec fn none() -> Self {
        PauseOverlayState { maintenance: false, health: false }
    }
}

impl Default for PauseOverlayState {
    fn default() -> (overlay: Self)
        ensures
            overlay == PauseOverlayState::none(),
    {
        PauseOverlayState { maintenance: false, health: false }
    }
}

impl RuntimeBuild {
    pub open spec fn reserved(started_at: String, foreground_users: usize) -> Self {
        RuntimeBuild {
            control: None,
            progress: None,
            started_at,
            foreground_users,
            operator_paused: false,
            quiet_until: None,
            effective_limits: None,
            controller_state: None,
            pause_reason: None,
            recovery_deadline: None,
            last_commit_latency_ms: None,
        }
    }

    pub fn reserve(started_at: String, foreground_users: usize) -> (build: Self)
        ensures
            build == Self::reserved(started_at, foreground_users),
    {
        RuntimeBuild {
            control: None,
            progress: None,
            started_at,
            foreground_users,
            operator_paused: false,
            quiet_until: None,
            effective_limits: None,
            controller_state: None,
            pause_reason: None,
            recovery_deadline: None,
            last_commit_latency_ms: None,
        }
    }

    /// Whether foreground work is going on or ended only a moment ago.
    pub open spec fn in_foreground(self, now: Instant) -> bool {
        self.foreground_users > 0 || (self.quiet_until matches Some(deadline) && deadline.nanos
            > now.nanos)
    }

    /// Why the build has to pause: the operator before foreground work, that
    /// before the maintenance window, that before the server's health, and
    /// all of them before the controller.
    pub open spec fn due_pause(self, overlay: PauseOverlayState, now: Instant) -> Option<
        PauseReason,
    > {
        if self.operator_paused {
            Some(PauseReason::Operator)
        } else if self.in_foreground(now) {
            Some(PauseReason::Foreground)
        } else if overlay.maintenance {
            Some(PauseReason::Maintenance)
        } else if overlay.health {
            Some(PauseReason::OpcHealth)
        } else {
            match self.controller_state {
                Some(ControllerState::Paused(reason)) => Some(reason),
                _ => None,
            }
        }
    }

    pub fn pause_due(&self, overlay: PauseOverlayState, now: Instant) -> (reason: Option<
        PauseReason,
    >)
        ensures
            reason == self.due_pause(overlay, now),
    {
        let quiet = match self.quiet_until {
            Some(deadline) => deadline.nanos > now.nanos,
            None => false,
        };
        if self.operator_paused {
            Some(PauseReason::Operator)
        } else if self.foreground_users > 0 || quiet {
            Some(PauseReason::Foreground)
        } else if overlay.maintenance {
            Some(PauseReason::Maintenance)
        } else if overlay.health {
            Some(PauseReason::OpcHealth)
        } else {
            match self.controller_state {
                Some(ControllerState::Paused(reason)) => Some(reason),
                _ => None,
            }
        }
    }

    /// Whether nothing keeps the build from running.
    pub open spec fn may_run(self, overlay: PauseOverlayState, now: Instant) -> bool {
        &&& self.foreground_users == 0
        &&& !self.operator_paused
        &&& self.quiet_until matches Some(deadline) ==> deadline.nanos <= now.nanos
        &&& !overlay.maintenance
        &&& !overlay.health
        &&& !(self.controller_state matches Some(ControllerState::Paused(_)))
    }

    pub fn build_can_resume(&self, overlay: PauseOverlayState, now: Instant) -> (can: bool)
        ensures
            can == self.may_run(overlay, now),
    {
        let quiet_over = match self.quiet_until {
            Some(deadline) => deadline.nanos <= now.nanos,
            None => true,
        };
        let paused = matches!(self.controller_state, Some(ControllerState::Paused(_)));
        self.foreground_users == 0 && !self.operator_paused && quiet_over && !overlay.maintenance
            && !overlay.health && !paused
    }

    /// Whether the quiet period after foreground work has just run out.
    pub open spec fn quiet_is_over(self, now: Instant) -> bool {
        self.foreground_users == 0 && (self.quiet_until matches Some(deadline) && deadline.nanos
            <= now.nanos)
    }

    pub fn quiet_over(&self, now: Instant) -> (over: bool)
        ensures
            over == self.quiet_is_over(now),
    {
        self.foreground_users == 0 && match self.quiet_until {
            Some(deadline) => deadline.nanos <= now.nanos,
            None => false,
        }
    }
}

/// A build can resume exactly when it has no reason to pause.
pub proof fn resuming_is_having_no_reason_to_pause(
    build: RuntimeBuild,
    overlay: PauseOverlayState,
    now: Instant,
)
    ensures
        build.may_run(overlay, now) <==> build.due_pause(overlay, now) is None,
{
}

/// An operator's pause outweighs everything else; foreground work outweighs
/// all but the operator.
pub proof fn operator_then_foreground(
    build: RuntimeBuild,
    overlay: PauseOverlayState,
    now: Instant,
)
    ensures
        build.operator_paused ==> build.due_pause(overlay, now) == Some(PauseReason::Operator),
        !build.operator_paused && build.foreground_users > 0 ==> build.due_pause(overlay, now)
            == Some(PauseReason::Foreground),
{
}

/// What an inventory control is told to do.
#[derive(Debug, Clone, Copy, PartialEq, Eq, Structural)]
pub struct PauseCommand {
    pub control: u64,
    pub pause: bool,
}

/// What managers of one database share: the builds that run, and who owns
/// them.
#[derive(Debug)]
pub struct BuildCoordination {
    pub active_builds: StrSet,
    pub build_owners: StrMap<u64>,
}

impl BuildCoordination {
    pub open spec fn wf(self) -> bool {
        self.active_builds.wf()
    }

    pub fn new() -> (coordination: Self)
        ensures
            coordination.wf(),
            coordination.active_builds@ == Set::<Seq<char>>::empty(),
            coordination.build_owners@ == Map::<Seq<char>, u64>::empty(),
    {
        BuildCoordination { active_builds: StrSet::new(), build_owners: StrMap::new() }
    }

    /// Whether some build runs.
    pub fn build_active(&self) -> (active: bool)
        requires
            self.wf(),
        ensures
            active == (self.active_builds@.len() > 0),
    {
        self.active_builds.len() > 0
    }
}

/// A build is paused for the first of these that holds: the operator has paused
/// it; its server is used, or was until a moment ago; a maintenance window is
/// waited for; the server is not well; the controller has paused it, for its
/// reason. With none of them it runs.
pub proof fn every_reason_pauses(
    build: RuntimeBuild,
    overlay: PauseOverlayState,
    now: Instant,
)
    ensures
        ({
            let used = build.foreground_users > 0 || (build.quiet_until is Some && (
            build.quiet_until->0).nanos > now.nanos);
            let steered = build.controller_state is Some && build.controller_state->0 is Paused;
            let reason = build.due_pause(overlay, now);
            &&& build.operator_paused ==> reason == Some(PauseReason::Operator)
            &&& !build.operator_paused && used ==> reason == Some(PauseReason::Foreground)
            &&& !build.operator_paused && !used && overlay.maintenance ==> reason == Some(
                PauseReason::Maintenance,
            )
            &&& !build.operator_paused && !used && !overlay.maintenance && overlay.health ==> reason
                == Some(PauseReason::OpcHealth)
            &&& !build.operator_paused && !used && !overlay.maintenance && !overlay.health
                && steered ==> reason == Some(build.controller_state->0->Paused_0)
            &&& reason is None <==> !build.operator_paused && !used && !overlay.maintenance
                && !overlay.health && !steered
            &&& build.may_run(overlay, now) <==> reason is None
        }),
{
}

/// The quiet after the last user is over when its deadline has come and nobody
/// has returned.
pub proof fn quiet_ends_at_its_deadline(build: RuntimeBuild, now: Instant)
    ensures
        build.quiet_is_over(now) <==> build.foreground_users == 0 && build.quiet_until is Some && (
        build.quiet_until->0).nanos <= now.nanos,
        build.quiet_is_over(now) ==> !build.in_foreground(now),
{
}

/// A server of which nothing is known is not built, has no failures behind it,
/// and its health is not known.
pub proof fn unknown_servers_start_clean()
    ensures
        ({
            let state = RuntimeState::initial();
            &&& state.build is None
            &&& state.last_error is None
            &&& state.retry.retry_after is None
            &&& state.retry.consecutive_failures == 0
            &&& !state.retry.circuit_open
            &&& state.health is Unavailable
            &&& state.sentinel_checked_at is None
            &&& !PauseOverlayState::none().maintenance
            &&& !PauseOverlayState::none().health
        }),
{
}

} // verus!
