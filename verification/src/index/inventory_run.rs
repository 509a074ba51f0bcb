//! A build from its first event to its outcome.
//!
//! The build is a state machine: whoever runs it performs the action that it
//! asks for and hands back what came of it.

use crate::config::ResolvedIndexConfig;
use crate::index::builds::at_least_one;
use crate::index::schedule::{parse_maintenance_windows, MaintenanceWindow};
use crate::numerals::push_decimal;
use crate::opc::{
    BrowseSource, InventoryEntry, InventoryEvent, InventoryProgress, InventorySliceObservation,
    NamespaceOrganization,
};
use crate::text::push_text;
use crate::time::{Duration, Instant};
use vstd::prelude::*;

verus! {

/// Where a build goes on after a commit.
#[derive(Debug, Clone, Copy, PartialEq, Eq, Structural)]
pub enum AfterCommit {
    Maintenance,
    Top,
    Settle,
}

/// What a build waits for.
#[derive(Debug, Clone, Copy, PartialEq, Eq, Structural)]
pub enum BuildPhase {
    Top,
    Committing(AfterCommit),
    Maintenance,
    Health,
    Recovery,
    Event,
    Rate,
    Progress { active_time_delta_ms: u64 },
    Duty,
    Slice { sequence: u64 },
    Settling,
    Done,
}

/// What came of an action.
#[allow(inconsistent_fields)]
#[derive(Debug)]
pub enum BuildInput {
    Tick(Instant),
    /// How many entries a commit added, or why it failed.
    Committed { result: Result<u64, String>, now: Instant },
    /// Whether the wait ended without a cancellation.
    MaintenanceOver(bool),
    HealthOver(bool),
    RecoveryOver(Result<bool, String>),
    TimedOut,
    StreamEnded,
    StreamFailed(String),
    Received(InventoryEvent),
    RateAcquired(bool),
    ProgressStored(Result<(), String>),
    DutyServed(bool),
    SlicePaced { duty_cycle_percent: u8, result: Result<(), String> },
    /// Whether the inventory was cancelled.
    ControlState(bool),
}

/// How a build ends.
#[derive(Debug, PartialEq, Eq)]
pub enum BuildOutcome {
    Fail(String),
    Promote {
        items: u64,
        profile: Option<(NamespaceOrganization, BrowseSource)>,
        warning: Option<String>,
    },
    Abandon,
}

/// What a build asks for next.
#[derive(Debug, PartialEq, Eq)]
pub enum BuildAction {
    /// Read the clock.
    Tick,
    /// Store the pending entries.
    Commit,
    AwaitMaintenance,
    AwaitHealth,
    AwaitRecovery,
    AwaitEvent { timeout_seconds: u64 },
    AcquireRate,
    StoreProgress(InventoryProgress),
    ServeDuty { work: Duration, duty_cycle_percent: u8 },
    PaceSlice(InventorySliceObservation),
    CheckControl,
    Finish(BuildOutcome),
}

#[derive(Debug, PartialEq, Eq)]
pub struct BuildStep {
    /// Whether the inventory is cancelled first.
    pub cancel_control: bool,
    pub action: BuildAction,
}

/// What an outcome says.
#[verifier::ext_equal]
pub enum OutcomeView {
    Fail(Seq<char>),
    Promote {
        items: u64,
        profile: Option<(NamespaceOrganization, BrowseSource)>,
        warning: Option<Seq<char>>,
    },
    Abandon,
}

#[verifier::ext_equal]
pub enum ActionView {
    Tick,
    Commit,
    AwaitMaintenance,
    AwaitHealth,
    AwaitRecovery,
    AwaitEvent { timeout_seconds: u64 },
    AcquireRate,
    StoreProgress(InventoryProgress),
    ServeDuty { work: Duration, duty_cycle_percent: u8 },
    PaceSlice(InventorySliceObservation),
    CheckControl,
    Finish(OutcomeView),
}

#[verifier::ext_equal]
pub struct StepView {
    pub cancel_control: bool,
    pub action: ActionView,
}

impl View for BuildOutcome {
    type V = OutcomeView;

    open spec fn view(&self) -> OutcomeView {
        match *self {
            BuildOutcome::Fail(error) => OutcomeView::Fail(error@),
            BuildOutcome::Promote { items, profile, warning } => OutcomeView::Promote {
                items,
                profile,
                warning: crate::text::optional_view(warning),
            },
            BuildOutcome::Abandon => OutcomeView::Abandon,
        }
    }
}

impl View for BuildAction {
    type V = ActionView;

    open spec fn view(&self) -> ActionView {
        match *self {
            BuildAction::Tick => ActionView::Tick,
            BuildAction::Commit => ActionView::Commit,
            BuildAction::AwaitMaintenance => ActionView::AwaitMaintenance,
            BuildAction::AwaitHealth => ActionView::AwaitHealth,
            BuildAction::AwaitRecovery => ActionView::AwaitRecovery,
            BuildAction::AwaitEvent { timeout_seconds } => ActionView::AwaitEvent {
                timeout_seconds,
            },
            BuildAction::AcquireRate => ActionView::AcquireRate,
            BuildAction::StoreProgress(progress) => ActionView::StoreProgress(progress),
            BuildAction::ServeDuty { work, duty_cycle_percent } => ActionView::ServeDuty {
                work,
                duty_cycle_percent,
            },
            BuildAction::PaceSlice(slice) => ActionView::PaceSlice(slice),
            BuildAction::CheckControl => ActionView::CheckControl,
            BuildAction::Finish(outcome) => ActionView::Finish(outcome@),
        }
    }
}

impl View for BuildStep {
    type V = StepView;

    open spec fn view(&self) -> StepView {
        StepView { cancel_control: self.cancel_control, action: self.action@ }
    }
}

/// A running build.
#[derive(Debug)]
pub struct BuildRun {
    pub phase: BuildPhase,
    pub held: Option<InventoryEntry>,
    pub pending: Vec<InventoryEntry>,
    pub completed: bool,
    pub cancelled: bool,
    pub failed: Option<String>,
    pub warning: Option<String>,
    pub profile: Option<(NamespaceOrganization, BrowseSource)>,
    pub terminal: bool,
    pub accounted_active_time_ms: u64,
    pub persisted_items: u64,
    pub duty_cycle_percent: u8,
    pub last_commit_at: Instant,
    pub adaptive: bool,
    pub commit_interval_ms: u64,
    pub commit_batch_size: u32,
    pub timeout_seconds: u64,
}

/// What is to be known of a running build.
#[verifier::ext_equal]
pub struct RunView {
    pub phase: BuildPhase,
    pub held: Option<InventoryEntry>,
    pub pending: Seq<InventoryEntry>,
    pub completed: bool,
    pub cancelled: bool,
    pub failed: Option<Seq<char>>,
    pub warning: Option<Seq<char>>,
    pub profile: Option<(NamespaceOrganization, BrowseSource)>,
    pub terminal: bool,
    pub accounted_active_time_ms: u64,
    pub persisted_items: u64,
    pub duty_cycle_percent: u8,
    pub last_commit_at: Instant,
    pub adaptive: bool,
    pub commit_interval_ms: u64,
    pub commit_batch_size: u32,
    pub timeout_seconds: u64,
}

impl View for BuildRun {
    type V = RunView;

    open spec fn view(&self) -> RunView {
        RunView {
            phase: self.phase,
            held: self.held,
            pending: self.pending@,
            completed: self.completed,
            cancelled: self.cancelled,
            failed: crate::text::optional_view(self.failed),
            warning: crate::text::optional_view(self.warning),
            profile: self.profile,
            terminal: self.terminal,
            accounted_active_time_ms: self.accounted_active_time_ms,
            persisted_items: self.persisted_items,
            duty_cycle_percent: self.duty_cycle_percent,
            last_commit_at: self.last_commit_at,
            adaptive: self.adaptive,
            commit_interval_ms: self.commit_interval_ms,
            commit_batch_size: self.commit_batch_size,
            timeout_seconds: self.timeout_seconds,
        }
    }
}

pub open spec fn act(action: ActionView) -> StepView {
    StepView { cancel_control: false, action }
}

impl RunView {
    /// A build that has only begun.
    pub open spec fn initial(settings: ResolvedIndexConfig, now: Instant) -> Self {
        RunView {
            phase: BuildPhase::Top,
            held: None,
            pending: Seq::empty(),
            completed: false,
            cancelled: false,
            failed: None,
            warning: None,
            profile: None,
            terminal: false,
            accounted_active_time_ms: 0,
            persisted_items: 0,
            duty_cycle_percent: settings.duty_cycle_percent,
            last_commit_at: now,
            adaptive: settings.adaptive,
            commit_interval_ms: settings.commit_interval_ms,
            commit_batch_size: settings.commit_batch_size,
            timeout_seconds: crate::config::positive(
                settings.operation_timeout_seconds as int,
            ) as u64,
        }
    }

    /// Whether an input answers the action that the build has asked for.
    pub open spec fn expects(self, input: BuildInput) -> bool {
        match self.phase {
            BuildPhase::Top => input is Tick,
            BuildPhase::Committing(_) => input is Committed,
            BuildPhase::Maintenance => input is MaintenanceOver,
            BuildPhase::Health => input is HealthOver,
            BuildPhase::Recovery => input is RecoveryOver,
            BuildPhase::Event => input is TimedOut || input is StreamEnded || input is StreamFailed
                || input is Received,
            BuildPhase::Rate => input is RateAcquired,
            BuildPhase::Progress { .. } => input is ProgressStored,
            BuildPhase::Duty => input is DutyServed,
            BuildPhase::Slice { .. } => input is SlicePaced,
            BuildPhase::Settling => input is ControlState,
            BuildPhase::Done => false,
        }
    }

    /// The build back at the start of its loop.
    pub open spec fn resumed(self) -> (Self, StepView) {
        (RunView { phase: BuildPhase::Top, ..self }, act(ActionView::Tick))
    }

    pub open spec fn into_maintenance(self) -> (Self, StepView) {
        (
            RunView { phase: BuildPhase::Maintenance, ..self },
            act(ActionView::AwaitMaintenance),
        )
    }

    pub open spec fn into_event(self) -> (Self, StepView) {
        (
            RunView { phase: BuildPhase::Event, ..self },
            act(ActionView::AwaitEvent { timeout_seconds: self.timeout_seconds }),
        )
    }

    pub open spec fn into_commit(self, after: AfterCommit) -> (Self, StepView) {
        (RunView { phase: BuildPhase::Committing(after), ..self }, act(ActionView::Commit))
    }

    /// The end of the loop: an inventory without a last word has failed, and
    /// unless it has, what is pending is stored.
    pub open spec fn settle(self, cancel_control: bool) -> (Self, StepView) {
        let failed = if !self.terminal && self.failed is None {
            Some("inventory stream ended before completion"@)
        } else {
            self.failed
        };
        let run = RunView { failed, ..self };
        if self.pending.len() > 0 && failed is None {
            (
                RunView { phase: BuildPhase::Committing(AfterCommit::Settle), ..run },
                StepView { cancel_control, action: ActionView::Commit },
            )
        } else {
            (
                RunView { phase: BuildPhase::Settling, ..run },
                StepView { cancel_control, action: ActionView::CheckControl },
            )
        }
    }

    pub open spec fn cancel(self) -> (Self, StepView) {
        RunView { cancelled: true, ..self }.settle(false)
    }

    pub open spec fn fail(self, error: Seq<char>, cancel_control: bool) -> (Self, StepView) {
        RunView { failed: Some(error), ..self }.settle(cancel_control)
    }

    pub open spec fn timeout_message(self) -> Seq<char> {
        "inventory event timed out after "@ + crate::numerals::decimal(
            self.timeout_seconds as nat,
        ) + " seconds"@
    }

    /// The build after an inventory event.
    pub open spec fn received(self, event: InventoryEvent) -> (Self, StepView) {
        match event {
            InventoryEvent::Entry(entry) => (
                RunView { phase: BuildPhase::Rate, held: Some(entry), ..self },
                act(ActionView::AcquireRate),
            ),
            InventoryEvent::Progress(progress) => (
                RunView {
                    phase: BuildPhase::Progress {
                        active_time_delta_ms: if progress.active_time_ms
                            > self.accounted_active_time_ms {
                            (progress.active_time_ms - self.accounted_active_time_ms) as u64
                        } else {
                            0
                        },
                    },
                    accounted_active_time_ms: progress.active_time_ms,
                    ..self
                },
                act(ActionView::StoreProgress(progress)),
            ),
            InventoryEvent::Slice(slice) => if self.adaptive {
                (
                    RunView { phase: BuildPhase::Slice { sequence: slice.sequence }, ..self },
                    act(ActionView::PaceSlice(slice)),
                )
            } else {
                self.resumed()
            },
            InventoryEvent::Completed(result) => RunView {
                terminal: true,
                completed: result.complete,
                cancelled: result.cancelled,
                profile: Some((result.organization, result.source)),
                failed: if result.truncated {
                    match result.warning {
                        Some(warning) => Some(warning@),
                        None => Some("inventory was truncated"@),
                    }
                } else {
                    self.failed
                },
                warning: if result.truncated {
                    self.warning
                } else {
                    crate::text::optional_view(result.warning)
                },
                ..self
            }.settle(false),
        }
    }

    /// The outcome of a settled build: failures first, then promotion if the
    /// inventory was completed and nobody cancelled it.
    pub open spec fn outcome(self, control_cancelled: bool) -> OutcomeView {
        match self.failed {
            Some(error) => OutcomeView::Fail(error),
            None => if self.completed && !self.cancelled && !control_cancelled {
                OutcomeView::Promote {
                    items: self.persisted_items,
                    profile: self.profile,
                    warning: self.warning,
                }
            } else {
                OutcomeView::Abandon
            },
        }
    }

    /// Whether enough time has passed for pending entries to be stored.
    pub open spec fn commit_due(self, now: Instant) -> bool {
        self.pending.len() > 0 && now.since(self.last_commit_at).nanos >= crate::config::positive(
            self.commit_interval_ms as int,
        ) * crate::time::NANOS_PER_MILLI
    }

    /// The build after an input, and what it asks for next.
    pub open spec fn next(self, input: BuildInput) -> (Self, StepView) {
        match input {
            BuildInput::Tick(now) => if self.commit_due(now) {
                self.into_commit(AfterCommit::Maintenance)
            } else {
                self.into_maintenance()
            },
            BuildInput::Committed { result, now } => {
                let after = match self.phase {
                    BuildPhase::Committing(after) => after,
                    _ => AfterCommit::Settle,
                };
                match result {
                    Ok(inserted) => {
                        let stored = RunView {
                            pending: Seq::empty(),
                            persisted_items: crate::controller::at_most(
                                self.persisted_items + inserted,
                                u64::MAX as int,
                            ) as u64,
                            last_commit_at: now,
                            ..self
                        };
                        match after {
                            AfterCommit::Maintenance => stored.into_maintenance(),
                            AfterCommit::Top => stored.resumed(),
                            AfterCommit::Settle => stored.settle(false),
                        }
                    },
                    Err(error) => self.fail(error@, false),
                }
            },
            BuildInput::MaintenanceOver(going_on) => if going_on {
                (RunView { phase: BuildPhase::Health, ..self }, act(ActionView::AwaitHealth))
            } else {
                self.cancel()
            },
            BuildInput::HealthOver(going_on) => if !going_on {
                self.cancel()
            } else if self.adaptive {
                (RunView { phase: BuildPhase::Recovery, ..self }, act(ActionView::AwaitRecovery))
            } else {
                self.into_event()
            },
            BuildInput::RecoveryOver(result) => match result {
                Ok(going_on) => if going_on {
                    self.into_event()
                } else {
                    self.cancel()
                },
                Err(error) => self.fail(error@, true),
            },
            BuildInput::TimedOut => self.fail(self.timeout_message(), true),
            BuildInput::StreamEnded => self.settle(false),
            BuildInput::StreamFailed(error) => self.fail(error@, false),
            BuildInput::Received(event) => self.received(event),
            BuildInput::RateAcquired(acquired) => {
                let freed = RunView { held: None, ..self };
                if !acquired {
                    freed.cancel()
                } else {
                    let taken = match self.held {
                        Some(entry) => RunView { pending: self.pending.push(entry), ..freed },
                        None => freed,
                    };
                    if taken.pending.len() >= self.commit_batch_size {
                        taken.into_commit(AfterCommit::Top)
                    } else {
                        taken.resumed()
                    }
                }
            },
            BuildInput::ProgressStored(result) => match result {
                Ok(_) => match self.phase {
                    BuildPhase::Progress { active_time_delta_ms } => if active_time_delta_ms > 0 {
                        (
                            RunView { phase: BuildPhase::Duty, ..self },
                            act(
                                ActionView::ServeDuty {
                                    work: Duration::of_millis(active_time_delta_ms),
                                    duty_cycle_percent: self.duty_cycle_percent,
                                },
                            ),
                        )
                    } else {
                        self.resumed()
                    },
                    _ => self.resumed(),
                },
                Err(error) => self.fail(error@, false),
            },
            BuildInput::DutyServed(going_on) => if going_on {
                self.resumed()
            } else {
                self.cancel()
            },
            BuildInput::SlicePaced { duty_cycle_percent, result } => {
                let paced = RunView { duty_cycle_percent, ..self };
                match result {
                    Ok(_) => paced.resumed(),
                    Err(error) => paced.fail(
                        "unable to update adaptive inventory pacing after slice "@
                            + crate::numerals::decimal(
                            match self.phase {
                                BuildPhase::Slice { sequence } => sequence as nat,
                                _ => 0,
                            },
                        ) + ": "@ + error@,
                        true,
                    ),
                }
            },
            BuildInput::ControlState(control_cancelled) => (
                RunView { phase: BuildPhase::Done, ..self },
                act(ActionView::Finish(self.outcome(control_cancelled))),
            ),
        }
    }

    /// What holds of a build between its steps.
    pub open spec fn wf(self) -> bool {
        let settling = self.phase == BuildPhase::Settling || self.phase == BuildPhase::Done;
        let last_commit = self.phase == BuildPhase::Committing(AfterCommit::Settle);
        &&& self.failed is Some ==> settling
        &&& self.terminal ==> settling || last_commit
        &&& last_commit ==> self.terminal
        &&& settling && self.failed is None ==> self.terminal && self.pending.len() == 0
        &&& self.completed ==> self.terminal
        &&& self.phase == BuildPhase::Rate <==> self.held is Some
    }
}

/// What is left to do when a build is over, in the order of the fields.
#[derive(Debug, PartialEq, Eq)]
pub struct BuildConclusion {
    pub cancel_control: bool,
    /// Why the generation is marked as failed. Cleanup follows.
    pub fail_generation: Option<String>,
    /// Why the generation is given up.
    pub abandon_generation: Option<String>,
    pub schedule_cleanup: bool,
    /// Whether cached answers of the server are forgotten.
    pub forget_answers: bool,
    /// What the build is finished with.
    pub error: Option<String>,
}

/// What a conclusion says.
pub struct ConclusionView {
    pub cancel_control: bool,
    pub fail_generation: Option<Seq<char>>,
    pub abandon_generation: Option<Seq<char>>,
    pub schedule_cleanup: bool,
    pub forget_answers: bool,
    pub error: Option<Seq<char>>,
}

impl View for BuildConclusion {
    type V = ConclusionView;

    open spec fn view(&self) -> ConclusionView {
        ConclusionView {
            cancel_control: self.cancel_control,
            fail_generation: crate::text::optional_view(self.fail_generation),
            abandon_generation: crate::text::optional_view(self.abandon_generation),
            schedule_cleanup: self.schedule_cleanup,
            forget_answers: self.forget_answers,
            error: crate::text::optional_view(self.error),
        }
    }
}

impl ConclusionView {
    /// A failed build: its generation fails with it.
    pub open spec fn failed(error: Seq<char>, cancel_control: bool) -> Self {
        ConclusionView {
            cancel_control,
            fail_generation: Some(error),
            abandon_generation: None,
            schedule_cleanup: false,
            forget_answers: false,
            error: Some(error),
        }
    }

    /// A build whose generation is active now.
    pub open spec fn promoted() -> Self {
        ConclusionView {
            cancel_control: false,
            fail_generation: None,
            abandon_generation: None,
            schedule_cleanup: true,
            forget_answers: true,
            error: None,
        }
    }

    /// A cancelled build, which is no failure.
    pub open spec fn abandoned() -> Self {
        ConclusionView {
            cancel_control: false,
            fail_generation: None,
            abandon_generation: Some("namespace index build cancelled"@),
            schedule_cleanup: false,
            forget_answers: false,
            error: None,
        }
    }
}

impl BuildConclusion {
    fn failure(error: String, cancel_control: bool) -> (conclusion: Self)
        ensures
            conclusion@ == ConclusionView::failed(error@, cancel_control),
    {
        BuildConclusion {
            cancel_control,
            fail_generation: Some(error.clone()),
            abandon_generation: None,
            schedule_cleanup: false,
            forget_answers: false,
            error: Some(error),
        }
    }

    /// The build has failed.
    pub fn failed(error: String) -> (conclusion: Self)
        ensures
            conclusion@ == ConclusionView::failed(error@, false),
    {
        Self::failure(error, false)
    }

    /// The generation was promoted, or could not be.
    pub fn promotion(result: Result<(), String>) -> (conclusion: Self)
        ensures
            conclusion@ == (match result {
                Ok(_) => ConclusionView::promoted(),
                Err(error) => ConclusionView::failed(error@, false),
            }),
    {
        match result {
            Ok(_) => BuildConclusion {
                cancel_control: false,
                fail_generation: None,
                abandon_generation: None,
                schedule_cleanup: true,
                forget_answers: true,
                error: None,
            },
            Err(error) => Self::failure(error, false),
        }
    }

    /// The build was cancelled.
    pub fn abandoned() -> (conclusion: Self)
        ensures
            conclusion@ == ConclusionView::abandoned(),
    {
        BuildConclusion {
            cancel_control: false,
            fail_generation: None,
            abandon_generation: Some("namespace index build cancelled".to_owned()),
            schedule_cleanup: false,
            forget_answers: false,
            error: None,
        }
    }

    /// The task of the build ended without a word.
    pub fn unwound() -> (conclusion: Self)
        ensures
            conclusion@ == ConclusionView::failed(
                "namespace index build unwound unexpectedly"@,
                true,
            ),
    {
        Self::failure("namespace index build unwound unexpectedly".to_owned(), true)
    }
}

impl BuildRun {
    /// Begins a build, unless its maintenance windows cannot be read: that ends
    /// it at once.
    pub fn begin(settings: &ResolvedIndexConfig, now: Instant) -> (begun: Result<
        (Self, Vec<MaintenanceWindow>),
        BuildConclusion,
    >)
        ensures
            match crate::index::schedule::windows_of(
                crate::text::texts(settings.maintenance_windows@),
            ) {
                Ok(windows) => {
                    &&& begun is Ok
                    &&& (begun->Ok_0).0@ == RunView::initial(*settings, now)
                    &&& (begun->Ok_0).0@.wf()
                    &&& (begun->Ok_0).1@ == windows
                },
                Err(error) => {
                    &&& begun is Err
                    &&& (begun->Err_0)@ == ConclusionView::failed(error.text(), true)
                },
            },
    {
        match parse_maintenance_windows(&settings.maintenance_windows) {
            Ok(windows) => Ok((Self::new(settings, now), windows)),
            Err(error) => Err(BuildConclusion::failure(error.message(), true)),
        }
    }

    pub fn new(settings: &ResolvedIndexConfig, now: Instant) -> (run: Self)
        ensures
            run@.wf(),
            run@ == RunView::initial(*settings, now),
    {
        BuildRun {
            phase: BuildPhase::Top,
            held: None,
            pending: Vec::new(),
            completed: false,
            cancelled: false,
            failed: None,
            warning: None,
            profile: None,
            terminal: false,
            accounted_active_time_ms: 0,
            persisted_items: 0,
            duty_cycle_percent: settings.duty_cycle_percent,
            last_commit_at: now,
            adaptive: settings.adaptive,
            commit_interval_ms: settings.commit_interval_ms,
            commit_batch_size: settings.commit_batch_size,
            timeout_seconds: at_least_one(settings.operation_timeout_seconds),
        }
    }

    fn resume(&mut self) -> (step: BuildStep)
        ensures
            (final(self)@, step@) == old(self)@.resumed(),
    {
        self.phase = BuildPhase::Top;
        BuildStep { cancel_control: false, action: BuildAction::Tick }
    }

    fn enter_maintenance(&mut self) -> (step: BuildStep)
        ensures
            (final(self)@, step@) == old(self)@.into_maintenance(),
    {
        self.phase = BuildPhase::Maintenance;
        BuildStep { cancel_control: false, action: BuildAction::AwaitMaintenance }
    }

    fn enter_event(&mut self) -> (step: BuildStep)
        ensures
            (final(self)@, step@) == old(self)@.into_event(),
    {
        self.phase = BuildPhase::Event;
        BuildStep {
            cancel_control: false,
            action: BuildAction::AwaitEvent { timeout_seconds: self.timeout_seconds },
        }
    }

    fn enter_commit(&mut self, after: AfterCommit) -> (step: BuildStep)
        ensures
            (final(self)@, step@) == old(self)@.into_commit(after),
    {
        self.phase = BuildPhase::Committing(after);
        BuildStep { cancel_control: false, action: BuildAction::Commit }
    }

    fn settle(&mut self, cancel_control: bool) -> (step: BuildStep)
        ensures
            (final(self)@, step@) == old(self)@.settle(cancel_control),
    {
        if !self.terminal && self.failed.is_none() {
            self.failed = Some("inventory stream ended before completion".to_owned());
        }
        if self.pending.len() > 0 && self.failed.is_none() {
            self.phase = BuildPhase::Committing(AfterCommit::Settle);
            BuildStep { cancel_control, action: BuildAction::Commit }
        } else {
            self.phase = BuildPhase::Settling;
            BuildStep { cancel_control, action: BuildAction::CheckControl }
        }
    }

    fn cancel(&mut self) -> (step: BuildStep)
        ensures
            (final(self)@, step@) == old(self)@.cancel(),
    {
        self.cancelled = true;
        self.settle(false)
    }

    fn fail(&mut self, error: String, cancel_control: bool) -> (step: BuildStep)
        ensures
            (final(self)@, step@) == old(self)@.fail(error@, cancel_control),
    {
        self.failed = Some(error);
        self.settle(cancel_control)
    }

    fn receive(&mut self, event: InventoryEvent) -> (step: BuildStep)
        ensures
            (final(self)@, step@) == old(self)@.received(event),
    {
        match event {
            InventoryEvent::Entry(entry) => {
                self.phase = BuildPhase::Rate;
                self.held = Some(entry);
                BuildStep { cancel_control: false, action: BuildAction::AcquireRate }
            },
            InventoryEvent::Progress(progress) => {
                let active_time_delta_ms: u64 = progress.active_time_ms.saturating_sub(
                    self.accounted_active_time_ms,
                );
                self.phase = BuildPhase::Progress { active_time_delta_ms };
                self.accounted_active_time_ms = progress.active_time_ms;
                BuildStep {
                    cancel_control: false,
                    action: BuildAction::StoreProgress(progress),
                }
            },
            InventoryEvent::Slice(slice) => {
                if self.adaptive {
                    self.phase = BuildPhase::Slice { sequence: slice.sequence };
                    BuildStep { cancel_control: false, action: BuildAction::PaceSlice(slice) }
                } else {
                    self.resume()
                }
            },
            InventoryEvent::Completed(result) => {
                self.terminal = true;
                self.completed = result.complete;
                self.cancelled = result.cancelled;
                self.profile = Some((result.organization, result.source));
                if result.truncated {
                    self.failed =
                    match result.warning {
                        Some(warning) => Some(warning),
                        None => Some("inventory was truncated".to_owned()),
                    };
                } else {
                    self.warning = result.warning;
                }
                self.settle(false)
            },
        }
    }

    fn commit_is_due(&self, now: Instant) -> (due: bool)
        ensures
            due == self@.commit_due(now),
    {
        let interval = Duration::from_millis(at_least_one(self.commit_interval_ms));
        self.pending.len() > 0 && now.saturating_duration_since(self.last_commit_at).nanos
            >= interval.nanos
    }

    /// Takes a step of the build.
    pub fn step(&mut self, input: BuildInput) -> (step: BuildStep)
        requires
            old(self)@.wf(),
            old(self)@.expects(input),
        ensures
            final(self)@.wf(),
            (final(self)@, step@) == old(self)@.next(input),
    {
        match input {
            BuildInput::Tick(now) => if self.commit_is_due(now) {
                self.enter_commit(AfterCommit::Maintenance)
            } else {
                self.enter_maintenance()
            },
            BuildInput::Committed { result, now } => {
                let after = match self.phase {
                    BuildPhase::Committing(after) => after,
                    _ => AfterCommit::Settle,
                };
                match result {
                    Ok(inserted) => {
                        self.pending = Vec::new();
                        self.persisted_items = self.persisted_items.saturating_add(inserted);
                        self.last_commit_at = now;
                        match after {
                            AfterCommit::Maintenance => self.enter_maintenance(),
                            AfterCommit::Top => self.resume(),
                            AfterCommit::Settle => self.settle(false),
                        }
                    },
                    Err(error) => self.fail(error, false),
                }
            },
            BuildInput::MaintenanceOver(going_on) => if going_on {
                self.phase = BuildPhase::Health;
                BuildStep { cancel_control: false, action: BuildAction::AwaitHealth }
            } else {
                self.cancel()
            },
            BuildInput::HealthOver(going_on) => if !going_on {
                self.cancel()
            } else if self.adaptive {
                self.phase = BuildPhase::Recovery;
                BuildStep { cancel_control: false, action: BuildAction::AwaitRecovery }
            } else {
                self.enter_event()
            },
            BuildInput::RecoveryOver(result) => match result {
                Ok(going_on) => if going_on {
                    self.enter_event()
                } else {
                    self.cancel()
                },
                Err(error) => self.fail(error, true),
            },
            BuildInput::TimedOut => {
                let mut message = "inventory event timed out after ".to_owned();
                push_decimal(&mut message, self.timeout_seconds as u128);
                push_text(&mut message, " seconds");
                self.fail(message, true)
            },
            BuildInput::StreamEnded => self.settle(false),
            BuildInput::StreamFailed(error) => self.fail(error, false),
            BuildInput::Received(event) => self.receive(event),
            BuildInput::RateAcquired(acquired) => {
                let held = self.held.take();
                if !acquired {
                    return self.cancel();
                }
                if let Some(entry) = held {
                    self.pending.push(entry);
                }
                if self.pending.len() >= self.commit_batch_size as usize {
                    self.enter_commit(AfterCommit::Top)
                } else {
                    self.resume()
                }
            },
            BuildInput::ProgressStored(result) => match result {
                Ok(_) => match self.phase {
                    BuildPhase::Progress { active_time_delta_ms } => {
                        if active_time_delta_ms > 0 {
                            self.phase = BuildPhase::Duty;
                            BuildStep {
                                cancel_control: false,
                                action: BuildAction::ServeDuty {
                                    work: Duration::from_millis(active_time_delta_ms),
                                    duty_cycle_percent: self.duty_cycle_percent,
                                },
                            }
                        } else {
                            self.resume()
                        }
                    },
                    _ => self.resume(),
                },
                Err(error) => self.fail(error, false),
            },
            BuildInput::DutyServed(going_on) => if going_on {
                self.resume()
            } else {
                self.cancel()
            },
            BuildInput::SlicePaced { duty_cycle_percent, result } => {
                self.duty_cycle_percent = duty_cycle_percent;
                match result {
                    Ok(_) => self.resume(),
                    Err(error) => {
                        let sequence: u64 = match self.phase {
                            BuildPhase::Slice { sequence } => sequence,
                            _ => 0,
                        };
                        let mut message =
                            "unable to update adaptive inventory pacing after slice ".to_owned();
                        push_decimal(&mut message, sequence as u128);
                        push_text(&mut message, ": ");
                        push_text(&mut message, error.as_str());
                        self.fail(message, true)
                    },
                }
            },
            BuildInput::ControlState(control_cancelled) => {
                self.phase = BuildPhase::Done;
                let outcome = match &self.failed {
                    Some(error) => BuildOutcome::Fail(error.clone()),
                    None => if self.completed && !self.cancelled && !control_cancelled {
                        BuildOutcome::Promote {
                            items: self.persisted_items,
                            profile: self.profile,
                            warning: crate::text::copy_text(&self.warning),
                        }
                    } else {
                        BuildOutcome::Abandon
                    },
                };
                BuildStep { cancel_control: false, action: BuildAction::Finish(outcome) }
            },
        }
    }
}

/// A build keeps its order whatever it is answered.
pub proof fn steps_keep_the_build_in_order(run: RunView, input: BuildInput)
    requires
        run.wf(),
        run.expects(input),
    ensures
        run.next(input).0.wf(),
{
}

/// Only an inventory that was completed, that nobody cancelled and that met no
/// failure is promoted, and only once everything it reported is stored; the
/// promotion counts exactly the entries that commits have added.
pub proof fn only_complete_builds_are_promoted(run: RunView, input: BuildInput)
    requires
        run.wf(),
        run.expects(input),
        run.next(input).1.action matches ActionView::Finish(OutcomeView::Promote { .. }),
    ensures
        run.terminal,
        run.completed,
        !run.cancelled,
        run.failed is None,
        run.pending.len() == 0,
        run.next(input).1.action->Finish_0->items == run.persisted_items,
{
}

/// A failure is never forgotten: the build takes in nothing more and ends in
/// failure.
pub proof fn failure_is_final(run: RunView, input: BuildInput)
    requires
        run.wf(),
        run.expects(input),
        run.failed is Some,
    ensures
        run.next(input).1.action == ActionView::Finish(OutcomeView::Fail(run.failed->0)),
{
}

/// An inventory that was cut short fails the build.
pub proof fn truncated_inventory_fails(
    run: RunView,
    result: crate::opc::InventoryCompleted,
)
    requires
        run.wf(),
        run.phase == BuildPhase::Event,
        result.truncated,
    ensures
        run.next(
            BuildInput::Received(InventoryEvent::Completed(result)),
        ).0.failed is Some,
{
}

/// An inventory stream that ends without saying that it is complete fails the
/// build.
pub proof fn silent_end_fails(run: RunView)
    requires
        run.wf(),
        run.phase == BuildPhase::Event,
    ensures
        run.next(BuildInput::StreamEnded).0.failed == Some(
            "inventory stream ended before completion"@,
        ),
{
}

/// Every entry that is let through waits to be stored, behind those that came
/// before.
pub proof fn entries_are_kept_in_order(run: RunView)
    requires
        run.wf(),
        run.phase == BuildPhase::Rate,
    ensures
        run.next(BuildInput::RateAcquired(true)).0.pending == run.pending.push(run.held->0),
{
}

/// The build after some inputs, one after the other.
pub open spec fn after(run: RunView, inputs: Seq<BuildInput>) -> RunView
    decreases inputs.len(),
{
    if inputs.len() == 0 {
        run
    } else {
        after(run, inputs.drop_last()).next(inputs.last()).0
    }
}

/// Whether every input answers the action that came before it.
pub open spec fn in_turn(run: RunView, inputs: Seq<BuildInput>) -> bool
    decreases inputs.len(),
{
    inputs.len() == 0 || (in_turn(run, inputs.drop_last()) && after(
        run,
        inputs.drop_last(),
    ).expects(inputs.last()))
}

/// The entries that an inventory has delivered, in order.
pub open spec fn delivered(inputs: Seq<BuildInput>) -> Seq<InventoryEntry>
    decreases inputs.len(),
{
    if inputs.len() == 0 {
        Seq::empty()
    } else {
        let before = delivered(inputs.drop_last());
        match inputs.last() {
            BuildInput::Received(InventoryEvent::Entry(entry)) => before.push(entry),
            _ => before,
        }
    }
}

/// The entries that commits have stored, in order.
pub open spec fn stored(run: RunView, inputs: Seq<BuildInput>) -> Seq<InventoryEntry>
    decreases inputs.len(),
{
    if inputs.len() == 0 {
        Seq::empty()
    } else {
        let before = stored(run, inputs.drop_last());
        match inputs.last() {
            BuildInput::Committed { result: Ok(_), .. } => before + after(
                run,
                inputs.drop_last(),
            ).pending,
            _ => before,
        }
    }
}

/// How many entries commits say that they have added.
pub open spec fn added(inputs: Seq<BuildInput>) -> int
    decreases inputs.len(),
{
    if inputs.len() == 0 {
        0
    } else {
        added(inputs.drop_last()) + match inputs.last() {
            BuildInput::Committed { result: Ok(inserted), .. } => inserted as int,
            _ => 0,
        }
    }
}

proof fn entries_are_accounted_for(
    settings: ResolvedIndexConfig,
    start: Instant,
    inputs: Seq<BuildInput>,
)
    requires
        in_turn(RunView::initial(settings, start), inputs),
    ensures
        ({
            let run = RunView::initial(settings, start);
            let now = after(run, inputs);
            let held = if now.held is Some {
                seq![now.held->0]
            } else {
                Seq::empty()
            };
            &&& now.wf()
            &&& added(inputs) >= 0
            &&& now.persisted_items == crate::controller::at_most(added(inputs), u64::MAX as int)
            &&& now.failed is None ==> stored(run, inputs) + now.pending + held == delivered(
                inputs,
            )
        }),
    decreases inputs.len(),
{
    let run = RunView::initial(settings, start);
    if inputs.len() == 0 {
        assert(stored(run, inputs) + run.pending =~= delivered(inputs));
    } else {
        let earlier = inputs.drop_last();
        entries_are_accounted_for(settings, start, earlier);
        let before = after(run, earlier);
        let now = after(run, inputs);
        let kept = stored(run, earlier) + before.pending;
        match inputs.last() {
            BuildInput::Received(InventoryEvent::Entry(entry)) => {
                assert(kept + seq![entry] =~= delivered(earlier).push(entry));
            },
            BuildInput::RateAcquired(true) => {
                let entry = before.held->0;
                assert(stored(run, earlier) + before.pending.push(entry) =~= kept + seq![entry]);
                assert(kept + seq![entry] + Seq::empty() =~= kept + seq![entry]);
            },
            _ => {
                assert(stored(run, inputs) + now.pending =~= kept);
            },
        }
    }
}

/// An index is promoted only with everything that its inventory has delivered,
/// stored once and in order, and with the number of entries that the commits
/// have added.
pub proof fn promoted_index_holds_the_inventory(
    settings: ResolvedIndexConfig,
    start: Instant,
    inputs: Seq<BuildInput>,
)
    requires
        inputs.len() > 0,
        in_turn(RunView::initial(settings, start), inputs),
        after(RunView::initial(settings, start), inputs.drop_last()).next(inputs.last()).1.action
            matches ActionView::Finish(OutcomeView::Promote { .. }),
    ensures
        ({
            let run = RunView::initial(settings, start);
            let outcome = after(run, inputs.drop_last()).next(inputs.last()).1.action->Finish_0;
            &&& stored(run, inputs) == delivered(inputs)
            &&& outcome->items == crate::controller::at_most(added(inputs), u64::MAX as int)
        }),
{
    entries_are_accounted_for(settings, start, inputs);
    let run = RunView::initial(settings, start);
    assert(stored(run, inputs) + Seq::empty() + Seq::empty() =~= stored(run, inputs));
}

proof fn turns_keep_the_order(settings: ResolvedIndexConfig, start: Instant, inputs: Seq<BuildInput>)
    requires
        in_turn(RunView::initial(settings, start), inputs),
    ensures
        after(RunView::initial(settings, start), inputs).wf(),
        ({
            let now = after(RunView::initial(settings, start), inputs);
            &&& now.adaptive == settings.adaptive
            &&& now.commit_interval_ms == settings.commit_interval_ms
            &&& now.commit_batch_size == settings.commit_batch_size
            &&& now.timeout_seconds == (if settings.operation_timeout_seconds < 1 {
                1
            } else {
                settings.operation_timeout_seconds
            })
        }),
    decreases inputs.len(),
{
    if inputs.len() > 0 {
        turns_keep_the_order(settings, start, inputs.drop_last());
    }
}

/// A build that has heard the last word of its inventory does nothing but store
/// what is pending, so it knows that word until it ends.
proof fn the_report_is_kept(
    settings: ResolvedIndexConfig,
    start: Instant,
    inputs: Seq<BuildInput>,
    at: int,
    report: crate::opc::InventoryCompleted,
)
    requires
        in_turn(RunView::initial(settings, start), inputs),
        0 <= at < inputs.len(),
        inputs[at] == BuildInput::Received(InventoryEvent::Completed(report)),
        forall|i: int|
            at < i < inputs.len() && (#[trigger] inputs[i]) is Committed ==> inputs[i]->Committed_result is Ok,
    ensures
        ({
            let now = after(RunView::initial(settings, start), inputs);
            &&& now.terminal
            &&& now.completed == report.complete
            &&& now.cancelled == report.cancelled
            &&& now.profile == Some((report.organization, report.source))
            &&& report.truncated ==> now.failed == Some(
                match report.warning {
                    Some(warning) => warning@,
                    None => "inventory was truncated"@,
                },
            )
            &&& !report.truncated ==> now.failed is None && now.warning
                == crate::text::optional_view(report.warning)
        }),
    decreases inputs.len(),
{
    let run = RunView::initial(settings, start);
    let earlier = inputs.drop_last();
    turns_keep_the_order(settings, start, earlier);
    if at < inputs.len() - 1 {
        assert forall|i: int|
            at < i < earlier.len() && (#[trigger] earlier[i]) is Committed implies earlier[i]->Committed_result
            is Ok by {
            assert(inputs[i] is Committed);
        }
        the_report_is_kept(settings, start, earlier, at, report);
        assert(inputs[inputs.len() - 1] == inputs.last());
    }
}

/// The last word of an inventory decides how its build ends, as long as what is
/// then pending can be stored: one that was cut short fails the build with its
/// warning; one that is complete is promoted, with the profile and the warning
/// that it reported and as many items as commits have added, unless it was
/// cancelled; any other is abandoned.
pub proof fn the_report_decides_the_outcome(
    settings: ResolvedIndexConfig,
    start: Instant,
    inputs: Seq<BuildInput>,
    at: int,
    report: crate::opc::InventoryCompleted,
    control_cancelled: bool,
)
    requires
        in_turn(RunView::initial(settings, start), inputs),
        0 <= at < inputs.len(),
        inputs[at] == BuildInput::Received(InventoryEvent::Completed(report)),
        forall|i: int|
            at < i < inputs.len() && (#[trigger] inputs[i]) is Committed ==> inputs[i]->Committed_result is Ok,
        inputs.last() == BuildInput::ControlState(control_cancelled),
    ensures
        ({
            let run = after(RunView::initial(settings, start), inputs.drop_last());
            let action = run.next(inputs.last()).1.action;
            &&& report.truncated ==> action == ActionView::Finish(
                OutcomeView::Fail(
                    match report.warning {
                        Some(warning) => warning@,
                        None => "inventory was truncated"@,
                    },
                ),
            )
            &&& !report.truncated && report.complete && !report.cancelled && !control_cancelled
                ==> action == ActionView::Finish(
                OutcomeView::Promote {
                    items: if added(inputs) > u64::MAX {
                        u64::MAX
                    } else {
                        added(inputs) as u64
                    },
                    profile: Some((report.organization, report.source)),
                    warning: match report.warning {
                        Some(warning) => Some(warning@),
                        None => None,
                    },
                },
            )
            &&& !report.truncated && (!report.complete || report.cancelled || control_cancelled)
                ==> action == ActionView::Finish(OutcomeView::Abandon)
        }),
{
    let earlier = inputs.drop_last();
    assert(inputs[inputs.len() - 1] == inputs.last());
    assert forall|i: int|
        at < i < earlier.len() && (#[trigger] earlier[i]) is Committed implies earlier[i]->Committed_result
        is Ok by {
        assert(inputs[i] is Committed);
    }
    the_report_is_kept(settings, start, earlier, at, report);
    entries_are_accounted_for(settings, start, earlier);
    turns_keep_the_order(settings, start, earlier);
}

/// What a build fails with for an input at a place, if it does: the error that
/// the input tells of or, where a wait was given up or the stream has ended,
/// that the inventory never came to its end.
pub open spec fn trouble(settings: ResolvedIndexConfig, inputs: Seq<BuildInput>, at: int) -> Option<
    Seq<char>,
> {
    match inputs[at] {
        BuildInput::Committed { result: Err(error), .. } => Some(error@),
        BuildInput::RecoveryOver(Err(error)) => Some(error@),
        BuildInput::StreamFailed(error) => Some(error@),
        BuildInput::ProgressStored(Err(error)) => Some(error@),
        BuildInput::SlicePaced { result: Err(error), .. } => if at > 0 {
            Some(
                "unable to update adaptive inventory pacing after slice "@
                    + crate::numerals::decimal(
                    inputs[at - 1]->Received_0->Slice_0.sequence as nat,
                ) + ": "@ + error@,
            )
        } else {
            None
        },
        BuildInput::TimedOut => Some(
            "inventory event timed out after "@ + crate::numerals::decimal(
                if settings.operation_timeout_seconds < 1 {
                    1
                } else {
                    settings.operation_timeout_seconds as nat
                },
            ) + " seconds"@,
        ),
        BuildInput::StreamEnded
        | BuildInput::MaintenanceOver(false)
        | BuildInput::HealthOver(false)
        | BuildInput::RecoveryOver(Ok(false))
        | BuildInput::RateAcquired(false)
        | BuildInput::DutyServed(false) => Some("inventory stream ended before completion"@),
        _ => None,
    }
}

proof fn slices_are_remembered(
    settings: ResolvedIndexConfig,
    start: Instant,
    inputs: Seq<BuildInput>,
)
    requires
        in_turn(RunView::initial(settings, start), inputs),
    ensures
        after(RunView::initial(settings, start), inputs).phase matches BuildPhase::Slice {
            sequence,
        } ==> inputs.len() > 0 && inputs.last() is Received && inputs.last()->Received_0 is Slice
            && inputs.last()->Received_0->Slice_0.sequence == sequence,
{
    if inputs.len() > 0 {
        turns_keep_the_order(settings, start, inputs.drop_last());
    }
}

proof fn trouble_is_kept(
    settings: ResolvedIndexConfig,
    start: Instant,
    inputs: Seq<BuildInput>,
    at: int,
)
    requires
        in_turn(RunView::initial(settings, start), inputs),
        0 <= at < inputs.len(),
        trouble(settings, inputs, at) is Some,
    ensures
        after(RunView::initial(settings, start), inputs).failed == trouble(settings, inputs, at),
    decreases inputs.len(),
{
    let run = RunView::initial(settings, start);
    let earlier = inputs.drop_last();
    turns_keep_the_order(settings, start, earlier);
    slices_are_remembered(settings, start, earlier);
    if at < inputs.len() - 1 {
        assert(inputs[at] == earlier[at]);
        assert(at > 0 ==> inputs[at - 1] == earlier[at - 1]);
        assert(trouble(settings, earlier, at) == trouble(settings, inputs, at));
        trouble_is_kept(settings, start, earlier, at);
    } else {
        assert(inputs[at] == inputs.last());
        if inputs[at] is SlicePaced {
            assert(earlier.last() == inputs[at - 1]);
        }
    }
}

/// A build in which anything has gone wrong ends in failure, and says what it
/// was.
pub proof fn trouble_fails_the_build(
    settings: ResolvedIndexConfig,
    start: Instant,
    inputs: Seq<BuildInput>,
    at: int,
    control_cancelled: bool,
)
    requires
        in_turn(RunView::initial(settings, start), inputs),
        0 <= at < inputs.len(),
        trouble(settings, inputs, at) is Some,
        inputs.last() == BuildInput::ControlState(control_cancelled),
    ensures
        after(RunView::initial(settings, start), inputs.drop_last()).next(inputs.last()).1.action
            == ActionView::Finish(OutcomeView::Fail(trouble(settings, inputs, at)->0)),
{
    let earlier = inputs.drop_last();
    assert(inputs[at] == earlier[at]);
    assert(at > 0 ==> inputs[at - 1] == earlier[at - 1]);
    assert(trouble(settings, earlier, at) == trouble(settings, inputs, at));
    trouble_is_kept(settings, start, earlier, at);
}

/// The inventory is cancelled before anything else exactly where an event timed
/// out or its pacing could not be updated.
pub proof fn lost_inventories_are_cancelled(run: RunView, input: BuildInput)
    requires
        run.wf(),
        run.expects(input),
    ensures
        run.next(input).1.cancel_control <==> {
            ||| input is TimedOut
            ||| input matches BuildInput::RecoveryOver(result) && result is Err
            ||| input matches BuildInput::SlicePaced { result, .. } && result is Err
        },
{
}

/// In every round a build waits for a maintenance window, then for a healthy
/// server, then, where it is adaptive, for its controller, and only then takes
/// an event.
pub proof fn waits_come_in_order(run: RunView, input: BuildInput)
    requires
        run.wf(),
        run.expects(input),
    ensures
        run.next(input).1.action is AwaitHealth <==> input == BuildInput::MaintenanceOver(true),
        run.next(input).1.action is AwaitRecovery <==> input == BuildInput::HealthOver(true)
            && run.adaptive,
        run.next(input).1.action is AwaitEvent <==> {
            ||| input == BuildInput::HealthOver(true) && !run.adaptive
            ||| input matches BuildInput::RecoveryOver(result) && result == Ok::<bool, String>(true)
        },
        run.next(input).1.action matches ActionView::AwaitEvent { timeout_seconds }
            ==> timeout_seconds == run.timeout_seconds,
        run.next(input).1.action is AwaitMaintenance ==> input is Tick || input is Committed,
        input is Tick ==> run.next(input).1.action is Commit || run.next(
            input,
        ).1.action is AwaitMaintenance,
        run.next(input).1.action is Finish <==> input is ControlState,
{
}

/// After an event that was dealt with, and after each full batch, a build
/// begins another round.
pub proof fn rounds_follow_each_other(run: RunView, input: BuildInput)
    requires
        run.wf(),
        run.expects(input),
        input == BuildInput::DutyServed(true) || (input matches BuildInput::SlicePaced {
            result,
            ..
        } && result is Ok) || (input matches BuildInput::Committed { result, .. } && result is Ok
            && run.phase == BuildPhase::Committing(AfterCommit::Top)) || (
        input matches BuildInput::Received(InventoryEvent::Slice(_)) && !run.adaptive),
    ensures
        run.next(input).1 == (StepView { cancel_control: false, action: ActionView::Tick }),
        run.next(input).0.phase == BuildPhase::Top,
{
}

/// Entries are stored as soon as a batch of them is pending or the commit
/// interval, at least a millisecond, has passed since the last commit, and not
/// earlier unless the inventory has come to its end.
pub proof fn commits_are_due_by_number_and_time(run: RunView, now: Instant)
    requires
        run.wf(),
    ensures
        run.phase == BuildPhase::Rate ==> (run.next(BuildInput::RateAcquired(true)).1.action is Commit
            <==> run.pending.len() + 1 >= run.commit_batch_size),
        run.phase == BuildPhase::Top ==> (run.next(BuildInput::Tick(now)).1.action is Commit <==> {
            &&& run.pending.len() > 0
            &&& now.nanos - run.last_commit_at.nanos >= run.commit_interval_ms * 1_000_000
            &&& now.nanos - run.last_commit_at.nanos >= 1_000_000
        }),
        forall|input: BuildInput|
            #![trigger run.next(input)]
            run.expects(input) && run.next(input).1.action is Commit ==> {
                ||| input is Tick
                ||| input is RateAcquired
                ||| input matches BuildInput::Received(event) && event is Completed
            },
{
}

/// A commit hands over everything that is pending and leaves nothing of it;
/// nothing else takes pending entries away.
pub proof fn commits_take_everything(run: RunView, input: BuildInput)
    requires
        run.wf(),
        run.expects(input),
    ensures
        input matches BuildInput::Committed { result: Ok(inserted), now } ==> {
            &&& run.next(input).0.pending.len() == 0
            &&& run.next(input).0.last_commit_at == now
            &&& run.persisted_items + inserted <= u64::MAX ==> run.next(input).0.persisted_items
                == run.persisted_items + inserted
        },
        !(input matches BuildInput::Committed { result: Ok(_), .. }) ==> run.pending.len()
            <= run.next(input).0.pending.len() && run.pending == run.next(input).0.pending.take(
            run.pending.len() as int,
        ) && run.next(input).0.persisted_items == run.persisted_items
            && run.next(input).0.last_commit_at == run.last_commit_at,
{
    assert(run.pending.take(run.pending.len() as int) =~= run.pending);
    if let Some(entry) = run.held {
        assert(run.pending.push(entry).take(run.pending.len() as int) =~= run.pending);
    }
}

/// Never is more pending than makes up a batch.
pub proof fn batches_stay_small(
    settings: ResolvedIndexConfig,
    start: Instant,
    inputs: Seq<BuildInput>,
)
    requires
        in_turn(RunView::initial(settings, start), inputs),
        settings.commit_batch_size >= 1,
    ensures
        ({
            let now = after(RunView::initial(settings, start), inputs);
            &&& now.pending.len() <= settings.commit_batch_size
            &&& now.pending.len() == settings.commit_batch_size ==> now.phase
                == BuildPhase::Committing(AfterCommit::Top) || now.failed is Some
        }),
    decreases inputs.len(),
{
    if inputs.len() > 0 {
        batches_stay_small(settings, start, inputs.drop_last());
        turns_keep_the_order(settings, start, inputs.drop_last());
    }
}

/// Progress is stored as reported, and then the active time that the inventory
/// has spent since its last report is paid for, under the duty cycle in force.
pub proof fn active_time_is_paid_once(run: RunView, progress: InventoryProgress)
    requires
        run.wf(),
        run.phase == BuildPhase::Event,
    ensures
        ({
            let reported = run.next(BuildInput::Received(InventoryEvent::Progress(progress)));
            let stored = reported.0.next(BuildInput::ProgressStored(Ok(())));
            &&& reported.1.action == ActionView::StoreProgress(progress)
            &&& reported.0.accounted_active_time_ms == progress.active_time_ms
            &&& progress.active_time_ms > run.accounted_active_time_ms ==> (
            stored.1.action matches ActionView::ServeDuty { work, duty_cycle_percent } && work.nanos
                == (progress.active_time_ms - run.accounted_active_time_ms) * 1_000_000
                && duty_cycle_percent == run.duty_cycle_percent)
            &&& progress.active_time_ms <= run.accounted_active_time_ms ==> stored.1.action is Tick
        }),
{
}

/// An adaptive build paces itself by every slice as reported, and works under
/// the duty cycle that it is told from then on; any other passes slices over.
pub proof fn slices_set_the_pace(
    run: RunView,
    slice: InventorySliceObservation,
    duty_cycle_percent: u8,
)
    requires
        run.wf(),
        run.phase == BuildPhase::Event,
    ensures
        ({
            let seen = run.next(BuildInput::Received(InventoryEvent::Slice(slice)));
            let paced = seen.0.next(BuildInput::SlicePaced { duty_cycle_percent, result: Ok(()) });
            &&& run.adaptive ==> seen.1.action == ActionView::PaceSlice(slice)
                && paced.0.duty_cycle_percent == duty_cycle_percent && paced.0.pending
                == run.pending
            &&& !run.adaptive ==> seen.1.action is Tick && seen.0.duty_cycle_percent
                == run.duty_cycle_percent
        }),
{
}

/// However a build ends, at most one thing becomes of its generation: it is
/// left active, marked as failed with the error that the build is finished with,
/// or given up without an error. Only a promotion makes cached answers be
/// forgotten and a cleanup be scheduled.
pub proof fn conclusions_settle_the_generation(error: Seq<char>, cancel_control: bool)
    ensures
        ({
            let promoted = ConclusionView::promoted();
            let failed = ConclusionView::failed(error, cancel_control);
            let abandoned = ConclusionView::abandoned();
            &&& promoted.fail_generation is None && promoted.abandon_generation is None
                && promoted.error is None && !promoted.cancel_control
            &&& promoted.forget_answers && promoted.schedule_cleanup
            &&& failed.fail_generation == Some(error) && failed.error == Some(error)
                && failed.abandon_generation is None && failed.cancel_control == cancel_control
            &&& !failed.forget_answers && !failed.schedule_cleanup
            &&& abandoned.fail_generation is None && abandoned.error is None
                && abandoned.abandon_generation == Some("namespace index build cancelled"@)
                && !abandoned.cancel_control
            &&& !abandoned.forget_answers && !abandoned.schedule_cleanup
        }),
{
}

} // verus!
