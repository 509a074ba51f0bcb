//! Waiting: for maintenance windows, for a healthy server, for the controller.

use crate::controller::{
    AdaptiveIndexController, ControllerDecision, ControllerObservation, ControllerState,
};
use crate::index::builds::at_least_one;
use crate::index::manager::IndexManager;
use crate::index::runtime::{HealthProbeState, PauseCommand};
use crate::index::schedule::{maintenance_window_active, pacing_for_limits, MaintenanceWindow};
use crate::numerals::push_decimal;
use crate::opc::{InventoryPacing, TagValue};
use crate::text::{joined, push_text, same_ignoring_ascii_case};
use crate::time::{Duration, Instant};
use vstd::prelude::*;

verus! {

pub const HEALTH_BACKOFF_SECONDS: u64 = 300;

/// The longest uninterrupted nap: how soon a cancellation is noticed.
pub const NAP_MILLIS: u64 = 100;

/// How long to sleep next on the way to a deadline; `None` once it has come.
pub fn next_nap(deadline: Instant, now: Instant) -> (nap: Option<Duration>)
    ensures
        nap == (if deadline.since(now).nanos == 0 {
            None
        } else {
            Some(deadline.since(now).shortest(Duration::of_millis(NAP_MILLIS)))
        }),
        nap is None <==> deadline.nanos <= now.nanos,
        nap matches Some(nap) ==> 0 < nap.nanos <= 100_000_000 && nap.nanos <= deadline.nanos
            - now.nanos,
{
    let remaining = deadline.saturating_duration_since(now);
    if remaining.is_zero() {
        None
    } else {
        Some(remaining.min(Duration::from_millis(NAP_MILLIS)))
    }
}

/// Whether builds have to wait for a maintenance window.
pub open spec fn outside_windows(windows: Seq<MaintenanceWindow>, minute: int) -> bool {
    windows.len() > 0 && !crate::index::schedule::any_covers(windows, minute)
}

pub fn outside_maintenance(windows: &Vec<MaintenanceWindow>, hour: u16, minute: u16) -> (outside:
    bool)
    requires
        hour < 24,
        minute < 60,
    ensures
        outside == outside_windows(windows@, hour * 60 + minute),
{
    windows.len() > 0 && !maintenance_window_active(windows, hour, minute)
}

/// When the next health probe is due, and how long to wait after another bad
/// one.
#[derive(Debug, Clone, Copy, PartialEq, Eq, Structural)]
pub struct HealthWatch {
    pub next_probe: Instant,
    pub backoff: Duration,
}

impl HealthWatch {
    pub open spec fn wf(self) -> bool {
        crate::time::NANOS_PER_SEC <= self.backoff.nanos <= HEALTH_BACKOFF_SECONDS
            * crate::time::NANOS_PER_SEC
    }

    pub fn new(now: Instant) -> (watch: Self)
        ensures
            watch.wf(),
            watch == (HealthWatch { next_probe: now, backoff: Duration::of_secs(1) }),
    {
        HealthWatch { next_probe: now, backoff: Duration::from_secs(1) }
    }

    /// The watch after a bad probe: the backoff doubles up to five minutes.
    pub open spec fn after_failure(self, now: Instant) -> Self {
        HealthWatch {
            next_probe: now.after(self.backoff),
            backoff: Duration {
                nanos: crate::controller::at_most(
                    self.backoff.nanos * 2,
                    HEALTH_BACKOFF_SECONDS * crate::time::NANOS_PER_SEC,
                ) as u128,
            },
        }
    }
}

/// What a health check asks for.
#[derive(Debug, Clone, Copy, PartialEq, Eq, Structural)]
pub enum HealthStep {
    /// The build was cancelled.
    Stop,
    /// The server is healthy enough to go on.
    Proceed,
    /// Sleep, then check again.
    Wait(Duration),
    /// Probe the server.
    Probe,
}

/// A health step and what the inventory is told along with it.
#[derive(Debug, Clone, Copy, PartialEq, Eq)]
pub struct HealthAction {
    pub step: HealthStep,
    pub command: Option<PauseCommand>,
}

/// What reading the sentinel tag has shown.
#[derive(Debug, PartialEq, Eq)]
pub enum SentinelReading {
    Good,
    /// What is wrong.
    Bad(String),
}

/// What a probe has shown: the time it took, an error, and the sentinel where
/// one is configured.
#[derive(Debug, PartialEq, Eq)]
pub struct ProbeOutcome {
    pub error: Option<String>,
    pub elapsed: Duration,
    pub sentinel: Option<SentinelReading>,
}

/// Judges the values that reading the sentinel tag returned.
pub fn read_sentinel(values: &Vec<TagValue>) -> (reading: SentinelReading)
    ensures
        values@.len() != 1 ==> (reading matches SentinelReading::Bad(reason) && reason@
            == "sentinel read returned no value"@),
        values@.len() == 1 ==> (reading is Good <==> crate::logging::is_word(
            values@[0].quality@,
            "good"@,
        )),
        values@.len() == 1 ==> (reading matches SentinelReading::Bad(reason) ==> reason@
            == "sentinel quality is not Good"@),
{
    if values.len() != 1 {
        return SentinelReading::Bad("sentinel read returned no value".to_owned());
    }
    if same_ignoring_ascii_case(values[0].quality.as_str(), "good") {
        SentinelReading::Good
    } else {
        SentinelReading::Bad("sentinel quality is not Good".to_owned())
    }
}

impl ProbeOutcome {
    /// Whether the server answered in time and its sentinel is good.
    pub open spec fn healthy(self, threshold_ms: u64) -> bool {
        &&& self.error is None
        &&& self.elapsed.nanos <= threshold_ms * crate::time::NANOS_PER_MILLI
        &&& !(self.sentinel matches Some(SentinelReading::Bad(_)))
    }

    /// Why the server is not healthy: the error before the sentinel, that
    /// before the time taken.
    pub open spec fn complaint(self, threshold_ms: u64) -> Seq<char> {
        match self.error {
            Some(error) => "health probe failed: "@ + error@,
            None => match self.sentinel {
                Some(SentinelReading::Bad(reason)) => reason@,
                _ => "health probe exceeded "@ + crate::numerals::decimal(threshold_ms as nat)
                    + " ms ("@ + crate::numerals::decimal(
                    (self.elapsed.nanos / crate::time::NANOS_PER_MILLI) as nat,
                ) + " ms)"@,
            },
        }
    }

    pub fn is_healthy(&self, threshold_ms: u64) -> (healthy: bool)
        ensures
            healthy == self.healthy(threshold_ms),
    {
        let good = match &self.sentinel {
            Some(SentinelReading::Bad(_)) => false,
            _ => true,
        };
        self.error.is_none() && self.elapsed.nanos <= Duration::from_millis(threshold_ms).nanos
            && good
    }

    pub fn reason(&self, threshold_ms: u64) -> (reason: String)
        ensures
            reason@ == self.complaint(threshold_ms),
    {
        match &self.error {
            Some(error) => joined("health probe failed: ", error.as_str()),
            None => match &self.sentinel {
                Some(SentinelReading::Bad(reason)) => reason.clone(),
                _ => {
                    let mut text = "health probe exceeded ".to_owned();
                    push_decimal(&mut text, threshold_ms as u128);
                    push_text(&mut text, " ms (");
                    push_decimal(&mut text, self.elapsed.as_millis());
                    push_text(&mut text, " ms)");
                    text
                },
            },
        }
    }
}

impl IndexManager {
    /// Whether the sentinel tag of a server has to be read again.
    pub open spec fn sentinel_due(self, server: Seq<char>, now: Instant) -> bool {
        self.settings.sentinel_tag is Some && (crate::index::manager::state_of(
            self.runtime@,
            server,
        ).sentinel_checked_at matches Some(checked) ==> now.since(checked).nanos
            >= self.settings.sentinel_probe_interval_seconds * crate::time::NANOS_PER_SEC)
    }

    /// The step that a health check takes, as long as the server is not probed.
    pub open spec fn health_step(
        self,
        server: Seq<char>,
        watch: HealthWatch,
        cancelled: bool,
        now: Instant,
    ) -> HealthStep {
        if cancelled {
            HealthStep::Stop
        } else if now.nanos < watch.next_probe.nanos && !self.sentinel_due(server, now) {
            if crate::index::manager::overlay_of(self.pause_overlays@, server).health {
                HealthStep::Wait(watch.next_probe.since(now))
            } else {
                HealthStep::Proceed
            }
        } else {
            HealthStep::Probe
        }
    }

    /// What a step does to the health overlay: it is set while the server is
    /// probed and cleared when the build stops.
    pub open spec fn health_mark(step: HealthStep) -> Option<bool> {
        match step {
            HealthStep::Stop => Some(false),
            HealthStep::Probe => Some(true),
            _ => None,
        }
    }

    /// Checks whether a build may go on or the server has to be probed first.
    pub fn check_health(
        &mut self,
        server: &str,
        watch: &HealthWatch,
        cancelled: bool,
        now: Instant,
    ) -> (action: HealthAction)
        ensures
            action.step == old(self).health_step(server@, *watch, cancelled, now),
            Self::health_mark(action.step) is None ==> *final(self) == *old(self)
                && action.command is None,
            Self::health_mark(action.step) is Some ==> final(self).overlaid_with(
                *old(self),
                server@,
                Self::health_mark(action.step),
                now,
                action.command,
            ),
    {
        if cancelled {
            let command = self.set_pause_overlay(server, None, Some(false), now);
            return HealthAction { step: HealthStep::Stop, command };
        }
        let due = match &self.settings.sentinel_tag {
            Some(_) => {
                let checked = match self.runtime.get(server) {
                    Some(state) => state.sentinel_checked_at,
                    None => None,
                };
                match checked {
                    Some(at) => now.saturating_duration_since(at).nanos >= Duration::from_secs(
                        self.settings.sentinel_probe_interval_seconds,
                    ).nanos,
                    None => true,
                }
            },
            None => false,
        };
        if now.nanos < watch.next_probe.nanos && !due {
            let step = if self.health_overlay_active(server) {
                HealthStep::Wait(watch.next_probe.saturating_duration_since(now))
            } else {
                HealthStep::Proceed
            };
            return HealthAction { step, command: None };
        }
        let command = self.set_pause_overlay(server, None, Some(true), now);
        HealthAction { step: HealthStep::Probe, command }
    }

    /// What setting the health overlay makes of the manager.
    pub open spec fn overlaid_with(
        self,
        before: Self,
        server: Seq<char>,
        health: Option<bool>,
        now: Instant,
        command: Option<PauseCommand>,
    ) -> bool {
        let overlays = crate::index::manager::overlaid(
            before.pause_overlays@,
            server,
            None,
            health,
        );
        let overlay = crate::index::manager::overlay_of(overlays, server);
        &&& self == (IndexManager {
            runtime: self.runtime,
            pause_overlays: self.pause_overlays,
            ..before
        })
        &&& self.pause_overlays@ == overlays
        &&& self.runtime@ == crate::index::manager::reconciled(
            before.runtime@,
            server,
            overlay,
            now,
        )
        &&& command == crate::index::manager::pause_command(before.runtime@, server, overlay, now)
    }

    /// The health that a probe leaves on record. Without a sentinel it is
    /// unavailable.
    pub open spec fn recorded_health(self, healthy: bool) -> HealthProbeState {
        if self.settings.sentinel_tag is None {
            HealthProbeState::Unavailable
        } else if healthy {
            HealthProbeState::Healthy
        } else {
            HealthProbeState::Unhealthy
        }
    }

    pub open spec fn probe_interval(self) -> Duration {
        Duration::of_secs(
            crate::config::positive(self.settings.health_probe_interval_seconds as int) as u64,
        )
    }

    /// The states after a probe was recorded.
    pub open spec fn probed(self, server: Seq<char>, healthy: bool, now: Instant) -> Map<
        Seq<char>,
        crate::index::runtime::RuntimeState,
    > {
        if self.runtime@.contains_key(server) {
            self.runtime@.insert(
                server,
                crate::index::runtime::RuntimeState {
                    health: self.recorded_health(healthy),
                    sentinel_checked_at: Some(now),
                    ..self.runtime@[server]
                },
            )
        } else {
            self.runtime@
        }
    }

    /// Judges a probe: a healthy server lets the build go on and is probed
    /// again after the configured interval; otherwise the build waits, longer
    /// after every bad probe in a row.
    pub fn judge_health(
        &mut self,
        server: &str,
        watch: &mut HealthWatch,
        outcome: &ProbeOutcome,
        now: Instant,
    ) -> (action: HealthAction)
        requires
            old(watch).wf(),
            now.can_add(old(self).probe_interval()),
            now.can_add(old(watch).backoff),
        ensures
            final(watch).wf(),
            ({
                let healthy = outcome.healthy(old(self).settings.health_latency_threshold_ms);
                let probed = old(self).probed(server@, healthy, now);
                if healthy {
                    &&& action.step == HealthStep::Proceed
                    &&& *final(watch) == (HealthWatch {
                        next_probe: now.after(old(self).probe_interval()),
                        backoff: Duration::of_secs(1),
                    })
                    &&& exists|recorded: IndexManager|
                        recorded == (IndexManager { runtime: recorded.runtime, ..*old(self) })
                            && recorded.runtime@ == probed && #[trigger] final(self).overlaid_with(
                            recorded,
                            server@,
                            Some(false),
                            now,
                            action.command,
                        )
                } else {
                    &&& action.step == HealthStep::Wait(old(watch).backoff)
                    &&& action.command is None
                    &&& *final(watch) == old(watch).after_failure(now)
                    &&& *final(self) == (IndexManager {
                        runtime: final(self).runtime,
                        ..*old(self)
                    })
                    &&& final(self).runtime@ == probed
                }
            }),
    {
        let healthy = outcome.is_healthy(self.settings.health_latency_threshold_ms);
        let health = if self.settings.sentinel_tag.is_none() {
            HealthProbeState::Unavailable
        } else if healthy {
            HealthProbeState::Healthy
        } else {
            HealthProbeState::Unhealthy
        };
        self.update_health_state(server, health, now);
        if healthy {
            let ghost recorded = *self;
            let command = self.set_pause_overlay(server, None, Some(false), now);
            watch.backoff = Duration::from_secs(1);
            watch.next_probe =
            now.plus(
                Duration::from_secs(at_least_one(self.settings.health_probe_interval_seconds)),
            );
            assert(self.overlaid_with(recorded, server@, Some(false), now, command));
            return HealthAction { step: HealthStep::Proceed, command };
        }
        let cap = Duration::from_secs(HEALTH_BACKOFF_SECONDS);
        let delay = watch.backoff.min(cap);
        watch.next_probe = now.plus(delay);
        watch.backoff =
        match watch.backoff.checked_mul(2) {
            Some(doubled) => doubled.min(cap),
            None => cap,
        };
        HealthAction { step: HealthStep::Wait(delay), command: None }
    }

    /// A cancellation came while the build was waiting for the server: the
    /// health overlay is cleared.
    pub fn stop_health_wait(&mut self, server: &str, now: Instant) -> (command: Option<
        PauseCommand,
    >)
        ensures
            final(self).overlaid_with(*old(self), server@, Some(false), now, command),
    {
        self.set_pause_overlay(server, None, Some(false), now)
    }

    /// Lets the controller see a server while its build waits for recovery, and
    /// records what it decides.
    pub fn observe_recovery(
        &mut self,
        server: &str,
        controller: &mut AdaptiveIndexController,
        observation: ControllerObservation,
        now: Instant,
    ) -> (result: (ControllerDecision, InventoryPacing, Option<PauseCommand>))
        requires
            old(controller).wf(),
            old(controller).clock_fits(now),
        ensures
            final(controller).wf(),
            *final(controller) == old(controller).observed(now, observation),
            result.0 == final(controller).report(*old(controller)),
            result.1 == crate::index::schedule::paced(final(controller).limits),
            *final(self) == (IndexManager { runtime: final(self).runtime, ..*old(self) }),
            ({
                let steered = crate::index::manager::with_build(
                    old(self).runtime@,
                    server@,
                    |build: crate::index::runtime::RuntimeBuild|
                        crate::index::runtime::RuntimeBuild {
                            effective_limits: Some(final(controller).limits),
                            controller_state: Some(final(controller).state),
                            recovery_deadline: final(controller).recovery_at,
                            ..build
                        },
                );
                let overlay = crate::index::manager::overlay_of(
                    old(self).pause_overlays@,
                    server@,
                );
                &&& final(self).runtime@ == crate::index::manager::reconciled(
                    steered,
                    server@,
                    overlay,
                    now,
                )
                &&& result.2 == crate::index::manager::pause_command(
                    steered,
                    server@,
                    overlay,
                    now,
                )
            }),
    {
        let decision = controller.observe(now, observation);
        let command = self.update_runtime_controller(
            server,
            decision.limits,
            decision.state,
            decision.recovery_at,
            now,
        );
        (decision, pacing_for_limits(decision.limits), command)
    }
}

/// What a paused controller makes a build do.
#[derive(Debug, Clone, Copy, PartialEq, Eq, Structural)]
pub enum RecoveryStep {
    Stop,
    Proceed,
    /// Sleep, then let the controller look again.
    Wait(Duration),
}

/// Whether a build has to wait for its controller, and how long: until the
/// recovery time, or a moment where none is set.
pub fn recovery_step(controller: &AdaptiveIndexController, cancelled: bool, now: Instant) -> (step:
    RecoveryStep)
    ensures
        step == (if !(controller.state is Paused) {
            RecoveryStep::Proceed
        } else if cancelled {
            RecoveryStep::Stop
        } else {
            RecoveryStep::Wait(
                match controller.recovery_at {
                    Some(deadline) => deadline.since(now),
                    None => Duration::of_millis(NAP_MILLIS),
                },
            )
        }),
{
    if !matches!(controller.state(), ControllerState::Paused(_)) {
        return RecoveryStep::Proceed;
    }
    if cancelled {
        return RecoveryStep::Stop;
    }
    match controller.recovery_at() {
        Some(deadline) => RecoveryStep::Wait(deadline.saturating_duration_since(now)),
        None => RecoveryStep::Wait(Duration::from_millis(NAP_MILLIS)),
    }
}

/// The failure of a build whose pacing could not be updated while it
/// recovered.
pub fn recovery_pacing_failure(error: &str) -> (message: String)
    ensures
        message@ == "unable to update inventory pacing while recovering: "@ + error@,
{
    joined("unable to update inventory pacing while recovering: ", error)
}

/// Every bad probe in a row doubles the wait, from a second up to five
/// minutes.
pub proof fn health_backoff_doubles(watch: HealthWatch, now: Instant)
    requires
        watch.wf(),
    ensures
        watch.after_failure(now).wf(),
        watch.backoff.nanos <= watch.after_failure(now).backoff.nanos,
        watch.backoff.nanos * 2 <= HEALTH_BACKOFF_SECONDS * crate::time::NANOS_PER_SEC
            ==> watch.after_failure(now).backoff.nanos == watch.backoff.nanos * 2,
{
}

/// A build stays outside its windows only if there are any, and none of them is
/// open.
pub proof fn windows_hold_builds_up(windows: Seq<MaintenanceWindow>, minute: int)
    ensures
        windows.len() == 0 ==> !outside_windows(windows, minute),
        windows.len() > 0 ==> (outside_windows(windows, minute) <==> forall|i: int|
            0 <= i < windows.len() ==> !(#[trigger] windows[i]).covers(minute)),
{
    if windows.len() > 0 && outside_windows(windows, minute) {
        assert forall|i: int| 0 <= i < windows.len() implies !(#[trigger] windows[i]).covers(
            minute,
        ) by {}
    }
}

/// A server is healthy if it has answered the probe without an error, in time,
/// and its sentinel, if one was read, was good.
pub proof fn healthy_servers_answer_in_time(outcome: ProbeOutcome, threshold_ms: u64)
    ensures
        outcome.error is Some ==> !outcome.healthy(threshold_ms),
        outcome.elapsed.nanos > threshold_ms * 1_000_000 ==> !outcome.healthy(threshold_ms),
        outcome.sentinel is Some && outcome.sentinel->0 is Bad ==> !outcome.healthy(threshold_ms),
        outcome.error is None && outcome.elapsed.nanos <= threshold_ms * 1_000_000 && (
        outcome.sentinel is None || outcome.sentinel->0 is Good) ==> outcome.healthy(threshold_ms),
{
}

/// The complaint about a probe names its error, else what is wrong with the
/// sentinel, else how long the answer took and how long it may take.
pub proof fn complaints_name_what_is_wrong(outcome: ProbeOutcome, threshold_ms: u64)
    ensures
        outcome.error is Some ==> crate::text::has_suffix(
            outcome.complaint(threshold_ms),
            (outcome.error->0)@,
        ),
        outcome.error is None && outcome.sentinel is Some && outcome.sentinel->0 is Bad
            ==> outcome.complaint(threshold_ms) == (outcome.sentinel->0->Bad_0)@,
        outcome.error is None && !(outcome.sentinel is Some && outcome.sentinel->0 is Bad) ==> {
            &&& crate::text::occurs_in(
                crate::numerals::decimal(threshold_ms as nat),
                outcome.complaint(threshold_ms),
            )
            &&& crate::text::occurs_in(
                crate::numerals::decimal((outcome.elapsed.nanos / 1_000_000) as nat),
                outcome.complaint(threshold_ms),
            )
        },
{
    let text = outcome.complaint(threshold_ms);
    if outcome.error is Some {
        let error = (outcome.error->0)@;
        assert(text.skip(text.len() - error.len()) =~= error);
    } else if !(outcome.sentinel is Some && outcome.sentinel->0 is Bad) {
        let allowed = crate::numerals::decimal(threshold_ms as nat);
        let took = crate::numerals::decimal((outcome.elapsed.nanos / 1_000_000) as nat);
        let first = "health probe exceeded "@.len() as int;
        let second = first + allowed.len() + " ms ("@.len();
        assert(text.subrange(first, first + allowed.len()) =~= allowed);
        assert(crate::text::occurs_at(allowed, text, first));
        assert(text.subrange(second, second + took.len()) =~= took);
        assert(crate::text::occurs_at(took, text, second));
    }
}

/// A sentinel is due where one is configured, at first and then whenever its
/// interval has passed since it was read.
pub proof fn sentinels_are_read_at_their_interval(
    manager: IndexManager,
    server: Seq<char>,
    now: Instant,
)
    ensures
        ({
            let due = manager.sentinel_due(server, now);
            let known = manager.runtime@.contains_key(server);
            let read = manager.runtime@[server].sentinel_checked_at;
            &&& manager.settings.sentinel_tag is None ==> !due
            &&& manager.settings.sentinel_tag is Some && (!known || read is None) ==> due
            &&& manager.settings.sentinel_tag is Some && known && read is Some && now.nanos >= (
            read->0).nanos ==> (due <==> now.nanos - (read->0).nanos
                >= manager.settings.sentinel_probe_interval_seconds * 1_000_000_000)
        }),
{
}

/// A build that is cancelled waits no longer. Another is probed when its probe
/// or its sentinel is due; until then it goes on if the last probe was good, and
/// waits for the next if it was not. It is held up while it is probed, and let
/// go when it is cancelled.
pub proof fn probes_come_when_they_are_due(
    manager: IndexManager,
    server: Seq<char>,
    watch: HealthWatch,
    cancelled: bool,
    now: Instant,
)
    ensures
        ({
            let step = manager.health_step(server, watch, cancelled, now);
            let due = now.nanos >= watch.next_probe.nanos || manager.sentinel_due(server, now);
            let held = manager.pause_overlays@.contains_key(server)
                && manager.pause_overlays@[server].health;
            &&& step is Stop <==> cancelled
            &&& step is Probe <==> !cancelled && due
            &&& step is Proceed <==> !cancelled && !due && !held
            &&& step is Wait <==> !cancelled && !due && held
            &&& step is Wait ==> (step->Wait_0).nanos == watch.next_probe.nanos - now.nanos
            &&& IndexManager::health_mark(step) == (if step is Stop {
                Some(false)
            } else if step is Probe {
                Some(true)
            } else {
                None
            })
        }),
{
}

/// After a bad probe the next one comes when the backoff has passed, and the
/// backoff doubles, up to five minutes.
pub proof fn bad_probes_are_repeated_later(watch: HealthWatch, now: Instant)
    requires
        watch.wf(),
        now.can_add(watch.backoff),
    ensures
        ({
            let after = watch.after_failure(now);
            &&& after.next_probe.nanos == now.nanos + watch.backoff.nanos
            &&& watch.backoff.nanos <= 150_000_000_000 ==> after.backoff.nanos == 2
                * watch.backoff.nanos
            &&& watch.backoff.nanos >= 150_000_000_000 ==> after.backoff.nanos == 300_000_000_000
        }),
{
}

/// What a probe has shown is noted for the server, with its time, and for no
/// other; it tells the health only where a sentinel is configured.
pub proof fn probes_are_noted(
    manager: IndexManager,
    server: Seq<char>,
    healthy: bool,
    now: Instant,
    other: Seq<char>,
)
    ensures
        ({
            let after = manager.probed(server, healthy, now);
            let before = manager.runtime@;
            &&& before.contains_key(server) ==> {
                &&& after.contains_key(server)
                &&& after[server].sentinel_checked_at == Some(now)
                &&& manager.settings.sentinel_tag is None ==> after[server].health is Unavailable
                &&& manager.settings.sentinel_tag is Some ==> (after[server].health is Healthy
                    <==> healthy)
                &&& manager.settings.sentinel_tag is Some ==> (after[server].health is Unhealthy
                    <==> !healthy)
                &&& after[server].build == before[server].build
                &&& after[server].retry == before[server].retry
                &&& after[server].last_error == before[server].last_error
            }
            &&& after.contains_key(other) == before.contains_key(other)
            &&& other != server && before.contains_key(other) ==> after[other] == before[other]
        }),
{
}

/// Probes come at the configured interval, and a second apart at the least.
pub proof fn probes_keep_their_interval(manager: IndexManager)
    ensures
        manager.settings.health_probe_interval_seconds >= 1 ==> manager.probe_interval().nanos
            == manager.settings.health_probe_interval_seconds * 1_000_000_000,
        manager.settings.health_probe_interval_seconds == 0 ==> manager.probe_interval().nanos
            == 1_000_000_000,
{
}

/// A build that waits for its server to get well is told to pause, and one that
/// no longer waits is told to go on unless something else holds it up.
pub proof fn ailing_servers_hold_builds_up(
    before: IndexManager,
    after: IndexManager,
    server: Seq<char>,
    health: bool,
    now: Instant,
    command: Option<PauseCommand>,
)
    requires
        after.overlaid_with(before, server, Some(health), now, command),
        before.runtime@.contains_key(server),
        before.runtime@[server].build is Some,
        (before.runtime@[server].build->0).control is Some,
    ensures
        ({
            let build = before.runtime@[server].build->0;
            let held = build.operator_paused || build.in_foreground(now) || (
            before.pause_overlays@.contains_key(server)
                && before.pause_overlays@[server].maintenance) || (build.controller_state is Some
                && build.controller_state->0 is Paused);
            &&& command is Some
            &&& (command->0).pause <==> health || held
            &&& (after.pause_overlays@.contains_key(server) && after.pause_overlays@[server].health)
                <==> health
        }),
{
}

/// Waiting for a server to get well changes its overlay and the reason for which
/// its build pauses, and nothing else; a maintenance window that is waited for is
/// waited for still.
pub proof fn waiting_changes_nothing_else(
    before: IndexManager,
    after: IndexManager,
    server: Seq<char>,
    health: Option<bool>,
    now: Instant,
    command: Option<PauseCommand>,
    other: Seq<char>,
)
    requires
        after.overlaid_with(before, server, health, now, command),
    ensures
        after == (IndexManager {
            runtime: after.runtime,
            pause_overlays: after.pause_overlays,
            ..before
        }),
        (after.pause_overlays@.contains_key(server) && after.pause_overlays@[server].maintenance)
            <==> (before.pause_overlays@.contains_key(server)
            && before.pause_overlays@[server].maintenance),
        other != server ==> after.pause_overlays@.contains_key(other)
            == before.pause_overlays@.contains_key(other),
        other != server && before.runtime@.contains_key(other) ==> after.runtime@[other]
            == before.runtime@[other],
        before.runtime@.contains_key(server) && before.runtime@[server].build is Some ==> {
            let build = before.runtime@[server].build->0;
            &&& after.runtime@[server].build is Some
            &&& after.runtime@[server].build->0 == (crate::index::runtime::RuntimeBuild {
                pause_reason: (after.runtime@[server].build->0).pause_reason,
                ..build
            })
        },
{
}

} // verus!
