//! Starting a build: from the request to the running task.
//!
//! Every method takes what came of the previous action and says what to do
//! next. Whoever runs the start performs a step's effects in the order of its
//! fields.

use crate::index::builds::BuildAdmission;
use crate::index::manager::IndexManager;
use crate::index::runtime::{BuildCoordination, PauseCommand};
use crate::index::schedule::pacing_for_limits;
use crate::index::storage::{
    insufficient_space_message, lacks_space, RetryState, StorageDiagnostics,
};
use crate::opc::{BrowseSource, InventoryPacing, NamespaceOrganization};
use crate::text::joined;
use crate::time::{Instant, SystemTime};
use vstd::prelude::*;

verus! {

/// What a start asks for next.
#[derive(Debug, PartialEq, Eq)]
pub enum RefreshAction {
    ReadStorage,
    LoadRetryState,
    AcquireLock,
    StartInventory { batch_size: u32 },
    ApplyPacing(InventoryPacing),
    ReadCapabilities,
    StartGeneration { organization: NamespaceOrganization, source: BrowseSource },
    SpawnBuild { generation: u64 },
    /// The request is answered with the status.
    ReturnStatus,
    /// The request is refused.
    Refuse(String),
}

/// A staged generation to be given up, and why.
#[derive(Debug, PartialEq, Eq)]
pub struct AbandonOrder {
    pub generation: u64,
    pub reason: String,
}

#[derive(Debug, PartialEq, Eq)]
pub struct RefreshStep {
    pub cancel_control: bool,
    pub abandon: Option<AbandonOrder>,
    /// Whether the build was released: its retry state is to be stored, its
    /// lock file to be let go, and a cleanup to be scheduled.
    pub released: bool,
    pub schedule_cleanup: bool,
    pub command: Option<PauseCommand>,
    pub next: RefreshAction,
}

/// The start of a build.
#[derive(Debug)]
pub struct RefreshRun {
    pub server: String,
    pub force: bool,
    pub ownership: u64,
    pub control: u64,
    pub cancelled_before_attach: bool,
    pub generation: u64,
}

/// A step without effects.
pub open spec fn just(step: RefreshStep) -> bool {
    !step.cancel_control && step.abandon is None && !step.released && !step.schedule_cleanup
        && step.command is None
}

fn only(next: RefreshAction) -> (step: RefreshStep)
    ensures
        just(step),
        step.next == next,
{
    RefreshStep {
        cancel_control: false,
        abandon: None,
        released: false,
        schedule_cleanup: false,
        command: None,
        next,
    }
}

/// How a start ends: with the status, or with a message.
pub open spec fn answered(next: RefreshAction, refusal: Option<Seq<char>>) -> bool {
    match refusal {
        None => next is ReturnStatus,
        Some(text) => next matches RefreshAction::Refuse(message) && message@ == text,
    }
}

/// What ending a build under a token makes of a manager and the shared
/// coordination. A failure is recorded under its message.
pub open spec fn ended(
    before: IndexManager,
    after: IndexManager,
    shared_before: BuildCoordination,
    shared_after: BuildCoordination,
    server: Seq<char>,
    control: Option<u64>,
    ownership: u64,
    failure: Option<Seq<char>>,
    wall: SystemTime,
    released: bool,
) -> bool {
    &&& released == crate::index::builds::owns_build(
        before.runtime@,
        shared_before.build_owners@,
        server,
        control,
        Some(ownership),
    )
    &&& !released ==> after == before && shared_after == shared_before
    &&& released ==> exists|error: Option<String>|
        #[trigger] crate::text::optional_view(error) == failure && crate::index::builds::finished(
            before,
            after,
            shared_before,
            shared_after,
            server,
            error,
            wall,
        )
}

/// The manager once a waiting cancellation of a server was taken note of.
pub open spec fn cancel_taken(before: IndexManager, after: IndexManager, server: Seq<char>) -> bool {
    &&& after == (IndexManager { pending_cancels: after.pending_cancels, ..before })
    &&& after.pending_cancels@ == before.pending_cancels@.remove(server)
}

/// The manager once a waiting cancellation of a server was taken note of and,
/// where it could be paced, its build has its control.
pub open spec fn control_noted(
    before: IndexManager,
    after: IndexManager,
    server: Seq<char>,
    control: u64,
    paced: bool,
) -> bool {
    &&& after == (IndexManager {
        runtime: after.runtime,
        pending_cancels: after.pending_cancels,
        ..before
    })
    &&& after.pending_cancels@ == before.pending_cancels@.remove(server)
    &&& after.runtime@ == (if paced {
        with_control(before.runtime@, server, control)
    } else {
        before.runtime@
    })
}

/// The manager once the pause of a server's build was brought up to date.
pub open spec fn pause_noted(
    before: IndexManager,
    after: IndexManager,
    server: Seq<char>,
    now: Instant,
) -> bool {
    &&& after == (IndexManager { runtime: after.runtime, ..before })
    &&& after.runtime@ == crate::index::manager::reconciled(
        before.runtime@,
        server,
        crate::index::manager::overlay_of(before.pause_overlays@, server),
        now,
    )
}

impl RefreshRun {
    pub fn new(server: &str, force: bool, ownership: u64) -> (run: Self)
        ensures
            run.server@ == server@,
            run.force == force,
            run.ownership == ownership,
            run.control == 0 && run.generation == 0 && !run.cancelled_before_attach,
    {
        RefreshRun {
            server: server.to_owned(),
            force,
            ownership,
            control: 0,
            cancelled_before_attach: false,
            generation: 0,
        }
    }

    /// Ends the build and answers with the status, or with the failure where
    /// there is one.
    fn end(
        &self,
        manager: &mut IndexManager,
        coordination: &mut BuildCoordination,
        control: Option<u64>,
        failure: Option<String>,
        wall: SystemTime,
        cancel_control: bool,
        abandon: Option<AbandonOrder>,
        schedule_cleanup: bool,
    ) -> (step: RefreshStep)
        requires
            old(manager).wf(),
            old(coordination).wf(),
            crate::index::builds::retry_fits(wall),
        ensures
            final(manager).wf(),
            final(coordination).wf(),
            ended(
                *old(manager),
                *final(manager),
                *old(coordination),
                *final(coordination),
                self.server@,
                control,
                self.ownership,
                crate::text::optional_view(failure),
                wall,
                step.released,
            ),
            step.cancel_control == cancel_control,
            step.abandon == abandon,
            step.schedule_cleanup == schedule_cleanup,
            step.command is None,
            answered(step.next, crate::text::optional_view(failure)),
    {
        let next = match &failure {
            Some(message) => RefreshAction::Refuse(message.clone()),
            None => RefreshAction::ReturnStatus,
        };
        let ghost recorded = failure;
        let released = manager.finish_build(
            coordination,
            self.server.as_str(),
            control,
            Some(self.ownership),
            failure,
            wall,
        );
        proof {
            assert(crate::text::optional_view(recorded) == crate::text::optional_view(failure));
        }
        RefreshStep {
            cancel_control,
            abandon,
            released,
            schedule_cleanup,
            command: None,
            next,
        }
    }

    /// The request comes in. Servers that are not configured are refused; a
    /// gateway that shuts down starts nothing.
    pub fn begin(&self, manager: &IndexManager, shutting_down: bool) -> (step: RefreshStep)
        ensures
            just(step),
            !manager.configures(self.server@) ==> answered(
                step.next,
                Some("server is not configured for namespace indexing"@),
            ),
            manager.configures(self.server@) ==> step.next == (if shutting_down {
                RefreshAction::ReturnStatus
            } else {
                RefreshAction::ReadStorage
            }),
    {
        if let Err(message) = manager.require_configured(self.server.as_str()) {
            return only(RefreshAction::Refuse(message));
        }
        if shutting_down {
            return only(RefreshAction::ReturnStatus);
        }
        only(RefreshAction::ReadStorage)
    }

    /// The free space is known, or could not be read.
    pub fn storage_read(
        &self,
        manager: &IndexManager,
        storage: Result<StorageDiagnostics, String>,
    ) -> (step: RefreshStep)
        ensures
            just(step),
            storage matches Err(error) ==> answered(step.next, Some(error@)),
            storage matches Ok(found) ==> if crate::index::storage::space_lacks(
                found.free_bytes,
                manager.settings.minimum_free_space_bytes,
                manager.settings.storage_headroom_bytes,
            ) {
                answered(
                    step.next,
                    Some(
                        crate::index::storage::space_message(
                            found.free_bytes->0,
                            crate::index::storage::required_space(
                                manager.settings.minimum_free_space_bytes,
                                manager.settings.storage_headroom_bytes,
                            ),
                        ),
                    ),
                )
            } else {
                step.next == RefreshAction::LoadRetryState
            },
    {
        let storage = match storage {
            Ok(storage) => storage,
            Err(error) => return only(RefreshAction::Refuse(error)),
        };
        if lacks_space(
            storage.free_bytes,
            manager.settings.minimum_free_space_bytes,
            manager.settings.storage_headroom_bytes,
        ) {
            let free: u64 = match storage.free_bytes {
                Some(bytes) => bytes,
                None => 0,
            };
            return only(
                RefreshAction::Refuse(
                    insufficient_space_message(
                        free,
                        manager.settings.minimum_free_space_bytes,
                        manager.settings.storage_headroom_bytes,
                    ),
                ),
            );
        }
        only(RefreshAction::LoadRetryState)
    }

    /// The stored retry state is known, or could not be read. Decides whether
    /// the build may go ahead.
    pub fn retry_loaded(
        &self,
        manager: &mut IndexManager,
        coordination: &BuildCoordination,
        persisted: Result<RetryState, String>,
        wall: SystemTime,
    ) -> (step: RefreshStep)
        requires
            old(manager).wf(),
            coordination.wf(),
        ensures
            final(manager).wf(),
            just(step),
            persisted matches Err(error) ==> answered(step.next, Some(error@)) && *final(manager)
                == *old(manager),
            persisted matches Ok(retry) ==> {
                let server = self.server@;
                let state = crate::index::manager::state_of(final(manager).runtime@, server);
                let busy = state.build is Some || (!self.force
                    && crate::index::builds::backing_off(state.retry, wall));
                let full = coordination.active_builds@.len() >= crate::index::builds::build_slots(
                    old(manager).settings,
                );
                let locked = old(manager).build_locks@.contains(server);
                &&& *final(manager) == (IndexManager {
                    runtime: final(manager).runtime,
                    ..*old(manager)
                })
                &&& final(manager).runtime@ == old(manager).runtime@.insert(
                    server,
                    if crate::index::manager::has_build(old(manager).runtime@, server) {
                        old(manager).runtime@[server]
                    } else {
                        crate::index::runtime::RuntimeState {
                            retry: crate::index::manager::adopted(retry, wall),
                            ..crate::index::manager::state_of(old(manager).runtime@, server)
                        }
                    },
                )
                &&& if busy {
                    answered(step.next, None)
                } else if full {
                    answered(
                        step.next,
                        Some("namespace index build concurrency limit reached"@),
                    )
                } else if locked {
                    answered(
                        step.next,
                        Some(
                            "namespace index build lock is already held in this process for server "@
                                + server,
                        ),
                    )
                } else {
                    step.next == RefreshAction::AcquireLock
                }
            },
    {
        let persisted = match persisted {
            Ok(persisted) => persisted,
            Err(error) => return only(RefreshAction::Refuse(error)),
        };
        manager.load_persisted_retry_state(self.server.as_str(), persisted, wall);
        match manager.admit_build(coordination, self.server.as_str(), self.force, wall) {
            BuildAdmission::NotNow => only(RefreshAction::ReturnStatus),
            BuildAdmission::Refused(message) => only(RefreshAction::Refuse(message)),
            BuildAdmission::AcquireLock => only(RefreshAction::AcquireLock),
        }
    }

    /// The lock file is held, or another process holds it. With it the build is
    /// reserved.
    pub fn lock_tried(
        &self,
        manager: &mut IndexManager,
        coordination: &mut BuildCoordination,
        lock: Result<(), String>,
        wall: SystemTime,
    ) -> (step: RefreshStep)
        requires
            old(manager).wf(),
            old(coordination).wf(),
            !crate::index::manager::has_build(old(manager).runtime@, self.server@),
        ensures
            final(manager).wf(),
            final(coordination).wf(),
            just(step),
            ({
                let owned = old(coordination).build_owners@.contains_key(self.server@);
                let full = old(coordination).active_builds@.len()
                    >= crate::index::builds::build_slots(old(manager).settings);
                let refusal = if lock is Err {
                    Some(lock->Err_0@)
                } else if owned {
                    Some(
                        "index build owner is already registered in this process for server "@
                            + self.server@,
                    )
                } else if full {
                    Some("namespace index build concurrency limit reached"@)
                } else {
                    None
                };
                if refusal is Some {
                    answered(step.next, refusal) && *final(manager) == *old(manager)
                        && *final(coordination) == *old(coordination)
                } else {
                    &&& crate::index::builds::reserved(
                        *old(manager),
                        *final(manager),
                        *old(coordination),
                        *final(coordination),
                        self.server@,
                        self.ownership,
                        wall,
                    )
                    &&& step.next == (RefreshAction::StartInventory {
                        batch_size: old(manager).starting_limits().batch_size,
                    })
                }
            }),
    {
        if let Err(error) = lock {
            return only(RefreshAction::Refuse(error));
        }
        match manager.reserve_build(coordination, self.server.as_str(), self.ownership, wall) {
            Ok(_) => {
                let limits = manager.initial_inventory_limits();
                only(RefreshAction::StartInventory { batch_size: limits.batch_size })
            },
            Err(message) => only(RefreshAction::Refuse(message)),
        }
    }

    /// The inventory has started under a control, which may be cancelled
    /// already, or could not be started.
    pub fn inventory_started(
        &mut self,
        manager: &mut IndexManager,
        coordination: &mut BuildCoordination,
        started: Result<(u64, bool), String>,
        wall: SystemTime,
    ) -> (step: RefreshStep)
        requires
            old(manager).wf(),
            old(coordination).wf(),
            crate::index::builds::retry_fits(wall),
        ensures
            final(manager).wf(),
            final(coordination).wf(),
            *final(self) == (RefreshRun {
                control: final(self).control,
                cancelled_before_attach: final(self).cancelled_before_attach,
                ..*old(self)
            }),
            started matches Ok(attached) ==> {
                &&& final(self).control == attached.0
                &&& final(self).cancelled_before_attach == attached.1
                &&& just(step)
                &&& step.next == RefreshAction::ApplyPacing(
                    crate::index::schedule::paced(old(manager).starting_limits()),
                )
                &&& *final(manager) == *old(manager)
                &&& *final(coordination) == *old(coordination)
            },
            started matches Err(error) ==> {
                let waiting = old(manager).pending_cancels@.contains(old(self).server@);
                let failure = if waiting {
                    None
                } else {
                    Some(error@)
                };
                &&& !step.cancel_control && step.abandon is None && !step.schedule_cleanup
                    && step.command is None
                &&& answered(step.next, failure)
                &&& exists|noted: IndexManager|
                    #[trigger] cancel_taken(*old(manager), noted, old(self).server@) && ended(
                        noted,
                        *final(manager),
                        *old(coordination),
                        *final(coordination),
                        old(self).server@,
                        None,
                        old(self).ownership,
                        failure,
                        wall,
                        step.released,
                    )
            },
    {
        match started {
            Ok(attached) => {
                self.control = attached.0;
                self.cancelled_before_attach = attached.1;
                let limits = manager.initial_inventory_limits();
                only(RefreshAction::ApplyPacing(pacing_for_limits(limits)))
            },
            Err(error) => {
                let waiting = manager.take_pending_cancel(self.server.as_str());
                let ghost noted = *manager;
                let failure = if waiting {
                    None
                } else {
                    Some(error)
                };
                let step = self.end(
                    manager,
                    coordination,
                    None,
                    failure,
                    wall,
                    false,
                    None,
                    false,
                );
                assert(cancel_taken(*old(manager), noted, old(self).server@));
                step
            },
        }
    }

    /// The first pacing was applied, or could not be. `cancelled` tells whether
    /// the inventory is cancelled by now.
    pub fn pacing_applied(
        &self,
        manager: &mut IndexManager,
        coordination: &mut BuildCoordination,
        applied: Result<(), String>,
        cancelled: bool,
        shutting_down: bool,
        wall: SystemTime,
    ) -> (step: RefreshStep)
        requires
            old(manager).wf(),
            old(coordination).wf(),
            crate::index::builds::retry_fits(wall),
        ensures
            final(manager).wf(),
            final(coordination).wf(),
            step.abandon is None && !step.schedule_cleanup && step.command is None,
            ({
                let server = self.server@;
                let built = crate::index::manager::has_build(old(manager).runtime@, server);
                let waiting = old(manager).pending_cancels@.contains(server);
                let stopped = waiting || (!self.cancelled_before_attach && cancelled);
                let trouble = if applied is Err {
                    Some("unable to apply initial inventory pacing: "@ + applied->Err_0@)
                } else if !built {
                    Some("index build disappeared before start"@)
                } else {
                    None
                };
                exists|noted: IndexManager|
                    #[trigger] control_noted(
                        *old(manager),
                        noted,
                        server,
                        self.control,
                        applied is Ok,
                    ) && if trouble is Some {
                        &&& step.cancel_control
                        &&& answered(
                            step.next,
                            if stopped {
                                None
                            } else {
                                trouble
                            },
                        )
                        &&& ended(
                            noted,
                            *final(manager),
                            *old(coordination),
                            *final(coordination),
                            server,
                            None,
                            self.ownership,
                            if stopped {
                                None
                            } else {
                                trouble
                            },
                            wall,
                            step.released,
                        )
                    } else if waiting || shutting_down {
                        &&& step.cancel_control
                        &&& answered(step.next, None)
                        &&& ended(
                            noted,
                            *final(manager),
                            *old(coordination),
                            *final(coordination),
                            server,
                            if waiting {
                                Some(self.control)
                            } else {
                                None
                            },
                            self.ownership,
                            None,
                            wall,
                            step.released,
                        )
                    } else {
                        &&& just(step)
                        &&& step.next == RefreshAction::ReadCapabilities
                        &&& *final(manager) == noted
                        &&& *final(coordination) == *old(coordination)
                    }
            }),
    {
        let ghost server = self.server@;
        if let Err(error) = applied {
            let message = joined("unable to apply initial inventory pacing: ", error.as_str());
            let waiting = manager.take_pending_cancel(self.server.as_str());
            let ghost noted = *manager;
            let stopped = waiting || (!self.cancelled_before_attach && cancelled);
            let failure = if stopped {
                None
            } else {
                Some(message)
            };
            let step = self.end(manager, coordination, None, failure, wall, true, None, false);
            assert(control_noted(*old(manager), noted, server, self.control, applied is Ok));
            return step;
        }
        let attached = manager.attach_control(self.server.as_str(), self.control);
        let waiting = manager.take_pending_cancel(self.server.as_str());
        let ghost noted = *manager;
        proof {
            assert(manager.runtime@ == with_control(old(manager).runtime@, server, self.control));
        }
        if let Err(error) = attached {
            let stopped = waiting || (!self.cancelled_before_attach && cancelled);
            let failure = if stopped {
                None
            } else {
                Some(error)
            };
            let step = self.end(manager, coordination, None, failure, wall, true, None, false);
            assert(control_noted(*old(manager), noted, server, self.control, applied is Ok));
            return step;
        }
        if waiting || shutting_down {
            let control: Option<u64> = if waiting {
                Some(self.control)
            } else {
                None
            };
            let step = self.end(manager, coordination, control, None, wall, true, None, false);
            assert(control_noted(*old(manager), noted, server, self.control, applied is Ok));
            return step;
        }
        let step = only(RefreshAction::ReadCapabilities);
        assert(control_noted(*old(manager), noted, server, self.control, applied is Ok));
        step
    }

    /// The server has told its capabilities, or could not be asked.
    pub fn capabilities_read(
        &self,
        manager: &mut IndexManager,
        coordination: &mut BuildCoordination,
        capabilities: Result<(NamespaceOrganization, BrowseSource), String>,
        cancelled: bool,
        wall: SystemTime,
    ) -> (step: RefreshStep)
        requires
            old(manager).wf(),
            old(coordination).wf(),
            crate::index::builds::retry_fits(wall),
        ensures
            final(manager).wf(),
            final(coordination).wf(),
            capabilities matches Ok(profile) ==> just(step) && step.next == (
            RefreshAction::StartGeneration { organization: profile.0, source: profile.1 })
                && *final(manager) == *old(manager) && *final(coordination) == *old(coordination),
            capabilities matches Err(error) ==> self.probe_failed(
                *old(manager),
                *final(manager),
                *old(coordination),
                *final(coordination),
                error@,
                cancelled,
                wall,
                step,
            ),
    {
        match capabilities {
            Ok(profile) => only(
                RefreshAction::StartGeneration { organization: profile.0, source: profile.1 },
            ),
            Err(error) => self.give_up(manager, coordination, error, cancelled, wall),
        }
    }

    /// How a start ends that fails before a generation is staged: a
    /// cancellation in the meantime is no failure.
    pub open spec fn probe_failed(
        self,
        before: IndexManager,
        after: IndexManager,
        shared_before: BuildCoordination,
        shared_after: BuildCoordination,
        error: Seq<char>,
        cancelled: bool,
        wall: SystemTime,
        step: RefreshStep,
    ) -> bool {
        let stopped = !self.cancelled_before_attach && cancelled;
        let failure = if stopped {
            None
        } else {
            Some(error)
        };
        &&& step.cancel_control
        &&& step.abandon is None && !step.schedule_cleanup && step.command is None
        &&& answered(step.next, failure)
        &&& ended(
            before,
            after,
            shared_before,
            shared_after,
            self.server@,
            if stopped {
                Some(self.control)
            } else {
                None
            },
            self.ownership,
            failure,
            wall,
            step.released,
        )
    }

    fn give_up(
        &self,
        manager: &mut IndexManager,
        coordination: &mut BuildCoordination,
        error: String,
        cancelled: bool,
        wall: SystemTime,
    ) -> (step: RefreshStep)
        requires
            old(manager).wf(),
            old(coordination).wf(),
            crate::index::builds::retry_fits(wall),
        ensures
            final(manager).wf(),
            final(coordination).wf(),
            self.probe_failed(
                *old(manager),
                *final(manager),
                *old(coordination),
                *final(coordination),
                error@,
                cancelled,
                wall,
                step,
            ),
    {
        let stopped = !self.cancelled_before_attach && cancelled;
        if stopped {
            self.end(
                manager,
                coordination,
                Some(self.control),
                None,
                wall,
                true,
                None,
                false,
            )
        } else {
            self.end(manager, coordination, None, Some(error), wall, true, None, false)
        }
    }

    /// A generation was staged, or could not be. With one, and unless the build
    /// was cancelled or taken over in the meantime, its task is started.
    pub fn generation_started(
        &mut self,
        manager: &mut IndexManager,
        coordination: &mut BuildCoordination,
        started: Result<u64, String>,
        cancelled: bool,
        shutting_down: bool,
        now: Instant,
        wall: SystemTime,
    ) -> (step: RefreshStep)
        requires
            old(manager).wf(),
            old(coordination).wf(),
            crate::index::builds::retry_fits(wall),
        ensures
            final(manager).wf(),
            final(coordination).wf(),
            *final(self) == (RefreshRun { generation: final(self).generation, ..*old(self) }),
            started matches Ok(generation) ==> final(self).generation == generation,
            started matches Err(error) ==> final(self).probe_failed(
                *old(manager),
                *final(manager),
                *old(coordination),
                *final(coordination),
                error@,
                cancelled,
                wall,
                step,
            ),
            started matches Ok(generation) ==> step.schedule_cleanup && old(self).staged(
                *old(manager),
                *final(manager),
                *old(coordination),
                *final(coordination),
                generation,
                cancelled,
                shutting_down,
                now,
                wall,
                step,
            ),
    {
        let generation: u64 = match started {
            Ok(generation) => generation,
            Err(error) => return self.give_up(manager, coordination, error, cancelled, wall),
        };
        self.generation = generation;
        if let Err(error) = manager.require_control(self.server.as_str(), self.control) {
            let order = AbandonOrder { generation, reason: error.clone() };
            let failure = if cancelled {
                None
            } else {
                Some(error)
            };
            return self.end(
                manager,
                coordination,
                None,
                failure,
                wall,
                true,
                Some(order),
                true,
            );
        }
        if !self.cancelled_before_attach && cancelled {
            let order = AbandonOrder {
                generation,
                reason: "index build cancelled during startup".to_owned(),
            };
            return self.end(
                manager,
                coordination,
                Some(self.control),
                None,
                wall,
                true,
                Some(order),
                true,
            );
        }
        let command = manager.reconcile_pause_state(self.server.as_str(), now);
        assert(pause_noted(*old(manager), *manager, self.server@, now));
        if shutting_down {
            let order = AbandonOrder {
                generation,
                reason: "gateway shutdown before index build".to_owned(),
            };
            let step = self.end(
                manager,
                coordination,
                None,
                None,
                wall,
                true,
                Some(order),
                true,
            );
            return RefreshStep { command, ..step };
        }
        RefreshStep {
            cancel_control: false,
            abandon: None,
            released: false,
            schedule_cleanup: true,
            command,
            next: RefreshAction::SpawnBuild { generation },
        }
    }

    /// What a step abandons: a generation for a reason.
    pub open spec fn abandons(step: RefreshStep, generation: u64, reason: Seq<char>) -> bool {
        step.abandon matches Some(order) && order.generation == generation && order.reason@
            == reason
    }

    /// How a start goes on once its generation is staged.
    pub open spec fn staged(
        self,
        before: IndexManager,
        after: IndexManager,
        shared_before: BuildCoordination,
        shared_after: BuildCoordination,
        generation: u64,
        cancelled: bool,
        shutting_down: bool,
        now: Instant,
        wall: SystemTime,
        step: RefreshStep,
    ) -> bool {
        let server = self.server@;
        let overlay = crate::index::manager::overlay_of(before.pause_overlays@, server);
        let kept = crate::index::manager::has_build(before.runtime@, server)
            && crate::index::manager::build_of(before.runtime@, server).control == Some(
            self.control,
        );
        if !kept {
            let failure = if cancelled {
                None
            } else {
                Some("index build disappeared before start"@)
            };
            &&& step.cancel_control && step.command is None
            &&& Self::abandons(step, generation, "index build disappeared before start"@)
            &&& answered(step.next, failure)
            &&& ended(
                before,
                after,
                shared_before,
                shared_after,
                server,
                None,
                self.ownership,
                failure,
                wall,
                step.released,
            )
        } else if !self.cancelled_before_attach && cancelled {
            &&& step.cancel_control && step.command is None
            &&& Self::abandons(step, generation, "index build cancelled during startup"@)
            &&& answered(step.next, None)
            &&& ended(
                before,
                after,
                shared_before,
                shared_after,
                server,
                Some(self.control),
                self.ownership,
                None,
                wall,
                step.released,
            )
        } else {
            &&& step.command == crate::index::manager::pause_command(
                before.runtime@,
                server,
                overlay,
                now,
            )
            &&& exists|reconciled: IndexManager|
                #[trigger] pause_noted(before, reconciled, server, now) && if shutting_down {
                    &&& step.cancel_control
                    &&& Self::abandons(step, generation, "gateway shutdown before index build"@)
                    &&& answered(step.next, None)
                    &&& ended(
                        reconciled,
                        after,
                        shared_before,
                        shared_after,
                        server,
                        None,
                        self.ownership,
                        None,
                        wall,
                        step.released,
                    )
                } else {
                    &&& !step.cancel_control && step.abandon is None && !step.released
                    &&& step.next == (RefreshAction::SpawnBuild { generation })
                    &&& after == reconciled
                    &&& shared_after == shared_before
                }
        }
    }

    /// The task of the build runs, or was not accepted.
    pub fn spawned(
        &self,
        manager: &mut IndexManager,
        coordination: &mut BuildCoordination,
        accepted: bool,
        wall: SystemTime,
    ) -> (step: RefreshStep)
        requires
            old(manager).wf(),
            old(coordination).wf(),
            crate::index::builds::retry_fits(wall),
        ensures
            final(manager).wf(),
            final(coordination).wf(),
            step.next is ReturnStatus,
            accepted ==> just(step) && *final(manager) == *old(manager) && *final(coordination)
                == *old(coordination),
            !accepted ==> {
                &&& step.cancel_control && !step.schedule_cleanup && step.command is None
                &&& Self::abandons(step, self.generation, "index build task was not started"@)
                &&& ended(
                    *old(manager),
                    *final(manager),
                    *old(coordination),
                    *final(coordination),
                    self.server@,
                    Some(self.control),
                    self.ownership,
                    None,
                    wall,
                    step.released,
                )
            },
    {
        if accepted {
            return only(RefreshAction::ReturnStatus);
        }
        let order = AbandonOrder {
            generation: self.generation,
            reason: "index build task was not started".to_owned(),
        };
        self.end(
            manager,
            coordination,
            Some(self.control),
            None,
            wall,
            true,
            Some(order),
            false,
        )
    }
}

/// The states once a server's build has its control.
pub open spec fn with_control(
    runtime: Map<Seq<char>, crate::index::runtime::RuntimeState>,
    server: Seq<char>,
    control: u64,
) -> Map<Seq<char>, crate::index::runtime::RuntimeState> {
    crate::index::manager::with_build(
        runtime,
        server,
        |build: crate::index::runtime::RuntimeBuild|
            crate::index::runtime::RuntimeBuild { control: Some(control), ..build },
    )
}

/// A start that ends while it still owns its build leaves no slot taken and
/// nobody registered as owner.
pub proof fn an_ended_start_leaves_no_slot_taken(
    before: IndexManager,
    after: IndexManager,
    shared_before: BuildCoordination,
    shared_after: BuildCoordination,
    server: Seq<char>,
    ownership: u64,
    failure: Option<Seq<char>>,
    wall: SystemTime,
    released: bool,
)
    requires
        shared_before.build_owners@.contains_key(server),
        shared_before.build_owners@[server] == ownership,
        ended(
            before,
            after,
            shared_before,
            shared_after,
            server,
            None,
            ownership,
            failure,
            wall,
            released,
        ),
    ensures
        released,
        !crate::index::manager::has_build(after.runtime@, server),
        !shared_after.active_builds@.contains(server),
        !shared_after.build_owners@.contains_key(server),
        !after.build_locks@.contains(server),
{
}

/// Whoever no longer owns a build changes nothing by ending it.
pub proof fn an_obsolete_start_changes_nothing(
    before: IndexManager,
    after: IndexManager,
    shared_before: BuildCoordination,
    shared_after: BuildCoordination,
    server: Seq<char>,
    control: Option<u64>,
    ownership: u64,
    failure: Option<Seq<char>>,
    wall: SystemTime,
    released: bool,
)
    requires
        shared_before.build_owners@.contains_key(server) ==> shared_before.build_owners@[server]
            != ownership,
        ended(
            before,
            after,
            shared_before,
            shared_after,
            server,
            control,
            ownership,
            failure,
            wall,
            released,
        ),
    ensures
        !released,
        after == before,
        shared_after == shared_before,
{
}

/// Whoever asked for a build gets the status where nothing went wrong, and is
/// refused with what did otherwise.
pub proof fn callers_hear_what_went_wrong(next: RefreshAction, refusal: Option<Seq<char>>)
    requires
        answered(next, refusal),
    ensures
        refusal is None <==> next is ReturnStatus,
        refusal is Some <==> next is Refuse,
        next matches RefreshAction::Refuse(message) ==> refusal == Some(message@),
{
}

/// A start that its owner ends leaves its failure behind, and counts it; one
/// that ends without a failure forgets those before it. A start that somebody
/// else owns is not touched.
pub proof fn ended_starts_leave_their_failure(
    before: IndexManager,
    after: IndexManager,
    shared_before: BuildCoordination,
    shared_after: BuildCoordination,
    server: Seq<char>,
    control: Option<u64>,
    ownership: u64,
    failure: Option<Seq<char>>,
    wall: SystemTime,
    released: bool,
)
    requires
        crate::index::builds::retry_fits(wall),
        ended(
            before,
            after,
            shared_before,
            shared_after,
            server,
            control,
            ownership,
            failure,
            wall,
            released,
        ),
    ensures
        released ==> shared_before.build_owners@.contains_key(server)
            && shared_before.build_owners@[server] == ownership,
        !released ==> after == before && shared_after == shared_before,
        released && before.runtime@.contains_key(server) ==> {
            let left = after.runtime@[server];
            let failures = before.runtime@[server].retry.consecutive_failures;
            &&& after.runtime@.contains_key(server)
            &&& left.build is None
            &&& crate::text::optional_view(left.last_error) == failure
            &&& failure is None ==> left.retry.retry_after is None
                && left.retry.consecutive_failures == 0 && !left.retry.circuit_open
            &&& failure is Some ==> left.retry.retry_after is Some
            &&& failure is Some && failures < u32::MAX ==> left.retry.consecutive_failures
                == failures + 1
        },
{
}

/// A generation that was started for a build that is still wanted is built; the
/// build is told whether to pause. One that is not wanted any more is given up:
/// its control is cancelled and its generation abandoned. Cancelling and
/// shutting down are no failures; a build that disappeared by itself is one.
pub proof fn started_generations_are_built(
    run: RefreshRun,
    before: IndexManager,
    after: IndexManager,
    shared_before: BuildCoordination,
    shared_after: BuildCoordination,
    generation: u64,
    cancelled: bool,
    shutting_down: bool,
    now: Instant,
    wall: SystemTime,
    step: RefreshStep,
)
    requires
        run.staged(
            before,
            after,
            shared_before,
            shared_after,
            generation,
            cancelled,
            shutting_down,
            now,
            wall,
            step,
        ),
    ensures
        ({
            let server = run.server@;
            let kept = before.runtime@.contains_key(server) && before.runtime@[server].build is Some
                && (before.runtime@[server].build->0).control == Some(run.control);
            let stopped = !run.cancelled_before_attach && cancelled;
            &&& kept && !stopped && !shutting_down ==> {
                &&& step.next == (RefreshAction::SpawnBuild { generation })
                &&& !step.cancel_control
                &&& step.abandon is None
                &&& step.command is Some
                &&& (step.command->0).control == run.control
                &&& after.runtime@.contains_key(server) && after.runtime@[server].build is Some
                &&& shared_after == shared_before
            }
            &&& !kept || stopped || shutting_down ==> {
                &&& step.cancel_control
                &&& step.abandon is Some
                &&& (step.abandon->0).generation == generation
                &&& step.next is ReturnStatus || step.next is Refuse
            }
            &&& kept && (stopped || shutting_down) ==> step.next is ReturnStatus
            &&& !kept && !cancelled ==> step.next is Refuse
            &&& !kept && cancelled ==> step.next is ReturnStatus
        }),
{
}

/// A build that cannot be started is refused with the reason and its control is
/// cancelled; if it was cancelled before, that is no failure.
pub proof fn failed_probes_end_the_start(
    run: RefreshRun,
    before: IndexManager,
    after: IndexManager,
    shared_before: BuildCoordination,
    shared_after: BuildCoordination,
    error: Seq<char>,
    cancelled: bool,
    wall: SystemTime,
    step: RefreshStep,
)
    requires
        run.probe_failed(
            before,
            after,
            shared_before,
            shared_after,
            error,
            cancelled,
            wall,
            step,
        ),
    ensures
        step.cancel_control,
        step.abandon is None,
        !cancelled ==> (step.next matches RefreshAction::Refuse(message) && message@ == error),
        cancelled && !run.cancelled_before_attach ==> step.next is ReturnStatus,
        cancelled && run.cancelled_before_attach ==> step.next is Refuse,
{
}

/// The control of a build is noted with it, and with no other.
pub proof fn controls_are_noted(
    runtime: Map<Seq<char>, crate::index::runtime::RuntimeState>,
    server: Seq<char>,
    control: u64,
    other: Seq<char>,
)
    ensures
        ({
            let after = with_control(runtime, server, control);
            &&& runtime.contains_key(server) && runtime[server].build is Some
                ==> after.contains_key(server) && after[server].build is Some && (
            after[server].build->0) == (crate::index::runtime::RuntimeBuild {
                control: Some(control),
                ..runtime[server].build->0
            })
            &&& other != server ==> after.contains_key(other) == runtime.contains_key(other)
            &&& other != server && runtime.contains_key(other) ==> after[other] == runtime[other]
        }),
{
}

/// What a start notes on its way is its control, the pending cancellation that it
/// takes, and the reason to pause; nothing else of the coordinator changes, and
/// the cancellations of other servers stay.
pub proof fn starts_note_little(
    before: IndexManager,
    after: IndexManager,
    server: Seq<char>,
    control: u64,
    paced: bool,
    now: Instant,
    other: Seq<char>,
)
    requires
        cancel_taken(before, after, server) || control_noted(before, after, server, control, paced)
            || pause_noted(before, after, server, now),
        other != server,
    ensures
        after.settings == before.settings,
        after.build_locks == before.build_locks,
        after.promoting == before.promoting,
        after.foreground_users == before.foreground_users,
        after.foreground_metrics == before.foreground_metrics,
        after.pause_overlays == before.pause_overlays,
        after.cache == before.cache,
        after.pending_cancels@.contains(other) == before.pending_cancels@.contains(other),
        after.runtime@.contains_key(other) == before.runtime@.contains_key(other),
        before.runtime@.contains_key(other) ==> after.runtime@[other] == before.runtime@[other],
{
}

/// A pending cancellation is taken once, and a control noted only where the
/// inventory is paced.
pub proof fn cancellations_are_taken_once(
    before: IndexManager,
    after: IndexManager,
    server: Seq<char>,
    control: u64,
    paced: bool,
)
    ensures
        cancel_taken(before, after, server) ==> !after.pending_cancels@.contains(server)
            && after.runtime == before.runtime,
        control_noted(before, after, server, control, paced) ==> !after.pending_cancels@.contains(
            server,
        ),
        control_noted(before, after, server, control, paced) && !paced ==> after.runtime@
            == before.runtime@,
        control_noted(before, after, server, control, paced) && paced
            && before.runtime@.contains_key(server) && before.runtime@[server].build is Some
            ==> after.runtime@[server].build is Some && (after.runtime@[server].build->0).control
            == Some(control),
{
}

/// A step that is just its action has no other effect.
pub proof fn plain_steps_do_nothing_else(step: RefreshStep)
    ensures
        just(step) <==> !step.cancel_control && !step.released && !step.schedule_cleanup
            && step.abandon is None && step.command is None,
{
}

} // verus!
