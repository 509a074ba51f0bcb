//! Clearing away what obsolete generations left behind.
//!
//! One worker at a time cleans up, one server after the other, in small batches
//! that give way to builds.

use crate::collections::StrMap;
use crate::time::Duration;
use vstd::prelude::*;

verus! {

/// How long a worker pauses between two batches, in milliseconds.
pub const CLEANUP_BATCH_PAUSE_MILLIS: u64 = 1;

/// How often a failed cleanup is tried again.
pub const CLEANUP_RETRY_LIMIT: u32 = 3;

/// How long a worker waits before the first retry, in milliseconds.
pub const CLEANUP_RETRY_INITIAL_BACKOFF_MILLIS: u64 = 100;

/// Where a server's cleanup stands.
#[derive(Debug, Clone, Copy, PartialEq, Eq)]
pub struct CleanupTaskState {
    pub running: bool,
    pub requested: bool,
}

/// The cleanups that were asked for, and whether a worker is at one.
#[derive(Debug)]
pub struct CleanupRegistry {
    pub tasks: StrMap<CleanupTaskState>,
    pub worker_active: bool,
}

/// What a cleanup of one server did.
#[derive(Debug, Clone, Copy, PartialEq, Eq)]
pub struct CleanupStats {
    pub batches: u64,
    pub entries: u64,
    pub fts_entries: u64,
    pub generations: u64,
    pub stopped_for_shutdown: bool,
    pub deferred_for_build: bool,
}

impl CleanupStats {
    pub open spec fn none() -> Self {
        CleanupStats {
            batches: 0,
            entries: 0,
            fts_entries: 0,
            generations: 0,
            stopped_for_shutdown: false,
            deferred_for_build: false,
        }
    }
}

impl Default for CleanupStats {
    fn default() -> (stats: Self)
        ensures
            stats == CleanupStats::none(),
    {
        CleanupStats {
            batches: 0,
            entries: 0,
            fts_entries: 0,
            generations: 0,
            stopped_for_shutdown: false,
            deferred_for_build: false,
        }
    }
}

/// The task of a server, idle where there is none.
pub open spec fn task_of(
    tasks: Map<Seq<char>, CleanupTaskState>,
    server: Seq<char>,
) -> CleanupTaskState {
    if tasks.contains_key(server) {
        tasks[server]
    } else {
        CleanupTaskState { running: false, requested: false }
    }
}

/// Whether a server waits for its cleanup.
pub open spec fn waits(tasks: Map<Seq<char>, CleanupTaskState>, server: Seq<char>) -> bool {
    task_of(tasks, server).requested
}

/// The tasks that no worker runs.
pub open spec fn idle_tasks(tasks: Map<Seq<char>, CleanupTaskState>) -> Map<
    Seq<char>,
    CleanupTaskState,
> {
    Map::new(
        |server: Seq<char>| tasks.contains_key(server) && !tasks[server].running,
        |server: Seq<char>| tasks[server],
    )
}

/// How a run ended.
#[derive(Debug, Clone, Copy, PartialEq, Eq)]
pub enum CleanupOutcome {
    Completed(CleanupStats),
    Failed,
}

/// What a worker does after a run.
#[derive(Debug, Clone, Copy, PartialEq, Eq)]
pub enum CleanupNext {
    /// Run again at once.
    Again,
    /// Run again once the builds have changed; a shutdown ends the wait, and
    /// the worker.
    WaitForBuilds,
    /// Run again after a while.
    RetryAfter(Duration),
    /// The worker is done.
    Stop,
}

/// How long to wait before the n-th retry in a row, in milliseconds: twice as
/// long as before the one before.
pub open spec fn backoff_millis(failures: u32) -> int {
    if failures <= 1 {
        CLEANUP_RETRY_INITIAL_BACKOFF_MILLIS as int
    } else if failures == 2 {
        2 * CLEANUP_RETRY_INITIAL_BACKOFF_MILLIS
    } else {
        4 * CLEANUP_RETRY_INITIAL_BACKOFF_MILLIS
    }
}

fn backoff(failures: u32) -> (delay: Duration)
    ensures
        delay == Duration::of_millis(backoff_millis(failures) as u64),
{
    if failures <= 1 {
        Duration::from_millis(CLEANUP_RETRY_INITIAL_BACKOFF_MILLIS)
    } else if failures == 2 {
        Duration::from_millis(2 * CLEANUP_RETRY_INITIAL_BACKOFF_MILLIS)
    } else {
        Duration::from_millis(4 * CLEANUP_RETRY_INITIAL_BACKOFF_MILLIS)
    }
}

/// One more, up to the largest number.
pub open spec fn one_more(n: u32) -> u32 {
    if n == u32::MAX {
        n
    } else {
        (n + 1) as u32
    }
}

impl CleanupRegistry {
    pub fn new() -> (registry: Self)
        ensures
            registry.tasks@ == Map::<Seq<char>, CleanupTaskState>::empty(),
            !registry.worker_active,
    {
        CleanupRegistry { tasks: StrMap::new(), worker_active: false }
    }

    fn task(&self, server: &str) -> (task: CleanupTaskState)
        ensures
            task == task_of(self.tasks@, server@),
    {
        match self.tasks.get(server) {
            Some(task) => *task,
            None => CleanupTaskState { running: false, requested: false },
        }
    }

    /// Asks for the cleanup of a server. Tells whether a worker should be
    /// started for it.
    pub fn schedule_cleanup(&mut self, server: &str, shutting_down: bool) -> (start: bool)
        ensures
            final(self).tasks@ == old(self).tasks@.insert(
                server@,
                CleanupTaskState {
                    running: task_of(old(self).tasks@, server@).running,
                    requested: true,
                },
            ),
            final(self).worker_active == old(self).worker_active,
            start == (!task_of(old(self).tasks@, server@).running && !shutting_down),
    {
        let running = self.task(server).running;
        self.tasks.insert(server, CleanupTaskState { running, requested: true });
        !running && !shutting_down
    }

    /// Gives a free worker a server that waits, if there is one. Which one of
    /// several is left open.
    pub fn claim(&mut self) -> (server: Option<String>)
        ensures
            old(self).worker_active ==> server is None && *final(self) == *old(self),
            !old(self).worker_active ==> (server is Some <==> exists|waiting: Seq<char>| #[trigger]
                waits(old(self).tasks@, waiting)),
            server is None ==> *final(self) == *old(self),
            server matches Some(name) ==> {
                &&& waits(old(self).tasks@, name@)
                &&& final(self).worker_active
                &&& final(self).tasks@ == old(self).tasks@.insert(
                    name@,
                    CleanupTaskState { running: true, requested: true },
                )
            },
    {
        if self.worker_active {
            return None;
        }
        let keys = self.tasks.keys();
        let mut i: usize = 0;
        while i < keys.len()
            invariant
                i <= keys.len(),
                *self == *old(self),
                !self.worker_active,
                forall|key: Seq<char>|
                    self.tasks@.contains_key(key) == #[trigger] crate::text::texts(keys@).contains(
                        key,
                    ),
                forall|j: int| 0 <= j < i ==> !waits(self.tasks@, (#[trigger] keys@[j])@),
            decreases keys.len() - i,
        {
            if self.task(keys[i].as_str()).requested {
                let name = keys[i].clone();
                self.tasks.insert(
                    name.as_str(),
                    CleanupTaskState { running: true, requested: true },
                );
                self.worker_active = true;
                assert(waits(old(self).tasks@, name@));
                return Some(name);
            }
            i += 1;
        }
        proof {
            assert forall|waiting: Seq<char>| !#[trigger] waits(self.tasks@, waiting) by {
                let names = crate::text::texts(keys@);
                if self.tasks@.contains_key(waiting) {
                    assert(names.contains(waiting));
                    let j = choose|j: int| 0 <= j < names.len() && names[j] == waiting;
                    assert(keys@[j]@ == waiting);
                }
            }
        }
        None
    }

    /// No worker could be started: the claimed cleanup is given up.
    pub fn spawn_refused(&mut self)
        ensures
            !final(self).worker_active,
            final(self).tasks@ == idle_tasks(old(self).tasks@),
    {
        let keys = self.tasks.keys();
        let ghost names = crate::text::texts(keys@);
        let mut i: usize = 0;
        while i < keys.len()
            invariant
                i <= keys.len(),
                names == crate::text::texts(keys@),
                forall|key: Seq<char>|
                    old(self).tasks@.contains_key(key) == #[trigger] names.contains(key),
                forall|key: Seq<char>| #[trigger]
                    self.tasks@.contains_key(key) ==> old(self).tasks@.contains_key(key)
                        && self.tasks@[key] == old(self).tasks@[key],
                forall|key: Seq<char>| #[trigger]
                    old(self).tasks@.contains_key(key) && !old(self).tasks@[key].running
                        ==> self.tasks@.contains_key(key),
                forall|j: int|
                    0 <= j < i && self.tasks@.contains_key((#[trigger] keys@[j])@)
                        ==> !self.tasks@[keys@[j]@].running,
            decreases keys.len() - i,
        {
            if self.task(keys[i].as_str()).running {
                self.tasks.remove(keys[i].as_str());
            }
            i += 1;
        }
        proof {
            assert forall|key: Seq<char>| #[trigger] self.tasks@.contains_key(key) implies !old(
                self,
            ).tasks@[key].running by {
                assert(names.contains(key));
                let j = choose|j: int| 0 <= j < names.len() && names[j] == key;
                assert(keys@[j]@ == key);
            }
            assert(self.tasks@ =~= idle_tasks(old(self).tasks@));
        }
        self.worker_active = false;
    }

    /// The worker has ended, in whatever way.
    pub fn worker_ended(&mut self)
        ensures
            !final(self).worker_active,
            final(self).tasks == old(self).tasks,
    {
        self.worker_active = false;
    }

    /// A worker is about to clean up a server: what was asked for up to now is
    /// being served. Tells whether it should go on.
    pub fn begin_run(&mut self, server: &str, shutting_down: bool) -> (run: bool)
        ensures
            run == !shutting_down,
            final(self).worker_active == old(self).worker_active,
            final(self).tasks@ == (if shutting_down {
                old(self).tasks@.remove(server@)
            } else {
                old(self).tasks@.insert(
                    server@,
                    CleanupTaskState {
                        running: task_of(old(self).tasks@, server@).running,
                        requested: false,
                    },
                )
            }),
    {
        if shutting_down {
            self.tasks.remove(server);
            return false;
        }
        let running = self.task(server).running;
        self.tasks.insert(server, CleanupTaskState { running, requested: false });
        true
    }
}

/// What a worker does after a run, how many runs have failed in a row then, and
/// what becomes of the tasks.
pub open spec fn after_run(
    tasks: Map<Seq<char>, CleanupTaskState>,
    server: Seq<char>,
    failures: u32,
    outcome: CleanupOutcome,
    build_active: bool,
    shutting_down: bool,
) -> (Map<Seq<char>, CleanupTaskState>, u32, CleanupNext) {
    let failed = if outcome is Failed {
        one_more(failures)
    } else {
        failures
    };
    let deferred = outcome matches CleanupOutcome::Completed(stats) && stats.deferred_for_build;
    if deferred {
        let pending = if tasks.contains_key(server) {
            tasks.insert(server, CleanupTaskState { requested: true, ..tasks[server] })
        } else {
            tasks
        };
        (
            pending,
            failed,
            if !build_active {
                CleanupNext::Again
            } else if shutting_down {
                CleanupNext::Stop
            } else {
                CleanupNext::WaitForBuilds
            },
        )
    } else if outcome is Failed && failed <= CLEANUP_RETRY_LIMIT && !shutting_down {
        (
            tasks,
            failed,
            CleanupNext::RetryAfter(Duration::of_millis(backoff_millis(failed) as u64)),
        )
    } else if waits(tasks, server) && !shutting_down {
        (tasks, 0, CleanupNext::Again)
    } else {
        (tasks.remove(server), failed, CleanupNext::Stop)
    }
}

/// The runs of a worker for one server.
#[derive(Debug, Clone, Copy, PartialEq, Eq)]
pub struct CleanupWorker {
    pub consecutive_failures: u32,
}

impl CleanupWorker {
    pub fn new() -> (worker: Self)
        ensures
            worker.consecutive_failures == 0,
    {
        CleanupWorker { consecutive_failures: 0 }
    }

    /// A run has ended. A run that gave way to a build is repeated when builds
    /// have changed, a failed one is retried a few times, and one during which
    /// another cleanup was asked for is followed by that one.
    pub fn run_ended(
        &mut self,
        registry: &mut CleanupRegistry,
        server: &str,
        outcome: CleanupOutcome,
        build_active: bool,
        shutting_down: bool,
    ) -> (next: CleanupNext)
        ensures
            final(registry).worker_active == old(registry).worker_active,
            (final(registry).tasks@, final(self).consecutive_failures, next) == after_run(
                old(registry).tasks@,
                server@,
                old(self).consecutive_failures,
                outcome,
                build_active,
                shutting_down,
            ),
    {
        match outcome {
            CleanupOutcome::Completed(stats) => {
                if stats.deferred_for_build {
                    if registry.tasks.contains_key(server) {
                        let running = registry.task(server).running;
                        registry.tasks.insert(
                            server,
                            CleanupTaskState { running, requested: true },
                        );
                    }
                    if !build_active {
                        return CleanupNext::Again;
                    }
                    if shutting_down {
                        return CleanupNext::Stop;
                    }
                    return CleanupNext::WaitForBuilds;
                }
            },
            CleanupOutcome::Failed => {
                self.consecutive_failures = self.consecutive_failures.saturating_add(1);
                if self.consecutive_failures <= CLEANUP_RETRY_LIMIT && !shutting_down {
                    return CleanupNext::RetryAfter(backoff(self.consecutive_failures));
                }
            },
        }
        if registry.task(server).requested && !shutting_down {
            self.consecutive_failures = 0;
            CleanupNext::Again
        } else {
            registry.tasks.remove(server);
            CleanupNext::Stop
        }
    }
}

/// What a pass over a server's obsolete generations waits for.
#[derive(Debug, Clone, Copy, PartialEq, Eq)]
pub enum PassPhase {
    /// Whether there is anything obsolete at all.
    First,
    /// Whether the gateway shuts down or builds.
    Round,
    /// Whether anything obsolete is left.
    Left,
    /// To hold the write lock.
    Lock,
    /// Whether anything obsolete is left now that nobody else writes.
    LeftUnderLock,
    /// The counts of a batch.
    Batch,
    /// To hold the write lock for a checkpoint.
    CheckpointLock,
    /// Nothing any more.
    Ended,
}

#[derive(Debug, Clone, Copy, PartialEq, Eq)]
pub enum PassInput {
    /// Whether anything obsolete is left.
    Obsolete(bool),
    /// What the gateway is doing.
    Gateway { shutting_down: bool, build_active: bool },
    /// The write lock is held; whether a build is active now.
    LockHeld { build_active: bool },
    /// How many rows a batch deleted.
    Deleted { fts_entries: u64, entries: u64, generations: u64 },
}

#[derive(Debug, Clone, Copy, PartialEq, Eq)]
pub enum PassAction {
    LookForObsolete,
    LookAtGateway,
    HoldLock,
    /// Delete one batch, then let others write.
    DeleteBatch,
    /// Pause before the next batch.
    Pause,
    /// Write back what was deleted, then let others write.
    Checkpoint,
    Done,
}

/// A pass over a server's obsolete generations, batch by batch.
#[derive(Debug, Clone, Copy, PartialEq, Eq)]
pub struct CleanupPass {
    pub phase: PassPhase,
    pub stats: CleanupStats,
    /// Whether a batch was begun.
    pub opened: bool,
}

impl CleanupPass {
    pub open spec fn initial() -> Self {
        CleanupPass { phase: PassPhase::First, stats: CleanupStats::none(), opened: false }
    }

    pub fn new() -> (pass: Self)
        ensures
            pass == CleanupPass::initial(),
    {
        CleanupPass { phase: PassPhase::First, stats: CleanupStats::default(), opened: false }
    }

    /// The pass once it deletes nothing more. What was deleted is checkpointed.
    pub open spec fn closing(self) -> (Self, PassAction) {
        if self.opened {
            (CleanupPass { phase: PassPhase::CheckpointLock, ..self }, PassAction::HoldLock)
        } else {
            (CleanupPass { phase: PassPhase::Ended, ..self }, PassAction::Done)
        }
    }

    pub open spec fn deferred(self) -> Self {
        CleanupPass { stats: CleanupStats { deferred_for_build: true, ..self.stats }, ..self }
    }

    /// What a pass does next. An input that it does not wait for changes
    /// nothing and ends it.
    pub open spec fn next(self, input: PassInput) -> (Self, PassAction) {
        match (self.phase, input) {
            (PassPhase::First, PassInput::Obsolete(left)) => if left {
                (CleanupPass { phase: PassPhase::Round, ..self }, PassAction::LookAtGateway)
            } else {
                (CleanupPass { phase: PassPhase::Ended, ..self }, PassAction::Done)
            },
            (PassPhase::Round, PassInput::Gateway { shutting_down, build_active }) => if shutting_down {
                CleanupPass {
                    stats: CleanupStats { stopped_for_shutdown: true, ..self.stats },
                    ..self
                }.closing()
            } else if build_active {
                self.deferred().closing()
            } else {
                (CleanupPass { phase: PassPhase::Left, ..self }, PassAction::LookForObsolete)
            },
            (PassPhase::Left, PassInput::Obsolete(left)) => if left {
                (CleanupPass { phase: PassPhase::Lock, ..self }, PassAction::HoldLock)
            } else {
                self.closing()
            },
            (PassPhase::Lock, PassInput::LockHeld { build_active }) => if build_active {
                self.deferred().closing()
            } else {
                (CleanupPass { phase: PassPhase::LeftUnderLock, ..self }, PassAction::LookForObsolete)
            },
            (PassPhase::LeftUnderLock, PassInput::Obsolete(left)) => if left {
                (
                    CleanupPass { phase: PassPhase::Batch, opened: true, ..self },
                    PassAction::DeleteBatch,
                )
            } else {
                self.closing()
            },
            (
                PassPhase::Batch,
                PassInput::Deleted { fts_entries, entries, generations },
            ) => {
                let counted = CleanupPass {
                    stats: CleanupStats {
                        batches: crate::numerals::capped_sum(self.stats.batches, 1),
                        fts_entries: crate::numerals::capped_sum(self.stats.fts_entries, fts_entries),
                        entries: crate::numerals::capped_sum(self.stats.entries, entries),
                        generations: crate::numerals::capped_sum(self.stats.generations, generations),
                        ..self.stats
                    },
                    ..self
                };
                if fts_entries == 0 && entries == 0 && generations == 0 {
                    counted.closing()
                } else {
                    (CleanupPass { phase: PassPhase::Round, ..counted }, PassAction::Pause)
                }
            },
            (PassPhase::CheckpointLock, PassInput::LockHeld { build_active }) => (
                CleanupPass { phase: PassPhase::Ended, ..self },
                if build_active {
                    PassAction::Done
                } else {
                    PassAction::Checkpoint
                },
            ),
            _ => (CleanupPass { phase: PassPhase::Ended, ..self }, PassAction::Done),
        }
    }

    fn close(&mut self) -> (action: PassAction)
        ensures
            (*final(self), action) == old(self).closing(),
    {
        if self.opened {
            self.phase = PassPhase::CheckpointLock;
            PassAction::HoldLock
        } else {
            self.phase = PassPhase::Ended;
            PassAction::Done
        }
    }

    /// Takes what came of the last action and says what to do next. A pass
    /// deletes nothing while a build is active or the gateway shuts down, and
    /// ends with the batch that finds nothing to delete.
    pub fn step(&mut self, input: PassInput) -> (action: PassAction)
        ensures
            (*final(self), action) == old(self).next(input),
    {
        match (self.phase, input) {
            (PassPhase::First, PassInput::Obsolete(left)) => {
                if left {
                    self.phase = PassPhase::Round;
                    PassAction::LookAtGateway
                } else {
                    self.phase = PassPhase::Ended;
                    PassAction::Done
                }
            },
            (PassPhase::Round, PassInput::Gateway { shutting_down, build_active }) => {
                if shutting_down {
                    self.stats.stopped_for_shutdown = true;
                    self.close()
                } else if build_active {
                    self.stats.deferred_for_build = true;
                    self.close()
                } else {
                    self.phase = PassPhase::Left;
                    PassAction::LookForObsolete
                }
            },
            (PassPhase::Left, PassInput::Obsolete(left)) => {
                if left {
                    self.phase = PassPhase::Lock;
                    PassAction::HoldLock
                } else {
                    self.close()
                }
            },
            (PassPhase::Lock, PassInput::LockHeld { build_active }) => {
                if build_active {
                    self.stats.deferred_for_build = true;
                    self.close()
                } else {
                    self.phase = PassPhase::LeftUnderLock;
                    PassAction::LookForObsolete
                }
            },
            (PassPhase::LeftUnderLock, PassInput::Obsolete(left)) => {
                if left {
                    self.phase = PassPhase::Batch;
                    self.opened = true;
                    PassAction::DeleteBatch
                } else {
                    self.close()
                }
            },
            (PassPhase::Batch, PassInput::Deleted { fts_entries, entries, generations }) => {
                self.stats.batches = self.stats.batches.saturating_add(1);
                self.stats.fts_entries = self.stats.fts_entries.saturating_add(fts_entries);
                self.stats.entries = self.stats.entries.saturating_add(entries);
                self.stats.generations = self.stats.generations.saturating_add(generations);
                if fts_entries == 0 && entries == 0 && generations == 0 {
                    self.close()
                } else {
                    self.phase = PassPhase::Round;
                    PassAction::Pause
                }
            },
            (PassPhase::CheckpointLock, PassInput::LockHeld { build_active }) => {
                self.phase = PassPhase::Ended;
                if build_active {
                    PassAction::Done
                } else {
                    PassAction::Checkpoint
                }
            },
            _ => {
                self.phase = PassPhase::Ended;
                PassAction::Done
            },
        }
    }
}

/// Before a batch is deleted the pass has seen, in this order, a gateway that
/// neither shuts down nor builds, something obsolete, no build with the write lock
/// held, and something obsolete still.
pub proof fn batches_give_way_to_builds(
    pass: CleanupPass,
    round: PassInput,
    left: PassInput,
    lock: PassInput,
    left_under_lock: PassInput,
)
    requires
        pass.phase is Round,
        pass.next(round).0.next(left).0.next(lock).0.next(left_under_lock).1 is DeleteBatch,
    ensures
        round == (PassInput::Gateway { shutting_down: false, build_active: false }),
        left == PassInput::Obsolete(true),
        lock == (PassInput::LockHeld { build_active: false }),
        left_under_lock == PassInput::Obsolete(true),
{
}

/// A batch is only ever deleted with the write lock held.
pub proof fn batches_follow_the_lock(pass: CleanupPass, input: PassInput)
    ensures
        pass.next(input).1 is DeleteBatch ==> pass.phase is LeftUnderLock,
        pass.next(input).0.phase is LeftUnderLock ==> pass.phase is Lock && input == (
        PassInput::LockHeld { build_active: false }),
{
}

/// A cleanup that is asked for while one runs is served by another run, unless
/// the gateway shuts down.
pub proof fn requests_during_a_run_are_served(
    tasks: Map<Seq<char>, CleanupTaskState>,
    server: Seq<char>,
    failures: u32,
    outcome: CleanupOutcome,
    build_active: bool,
)
    requires
        waits(tasks, server),
    ensures
        !(after_run(tasks, server, failures, outcome, build_active, false).2 is Stop),
{
}

/// A cleanup that gave way to a build stays asked for.
pub proof fn deferred_cleanups_stay_requested(
    tasks: Map<Seq<char>, CleanupTaskState>,
    server: Seq<char>,
    failures: u32,
    stats: CleanupStats,
    build_active: bool,
    shutting_down: bool,
)
    requires
        tasks.contains_key(server),
        stats.deferred_for_build,
    ensures
        waits(
            after_run(
                tasks,
                server,
                failures,
                CleanupOutcome::Completed(stats),
                build_active,
                shutting_down,
            ).0,
            server,
        ),
{
}

/// A failed cleanup that nobody asked for again is retried three times at most.
pub proof fn retries_are_bounded(
    tasks: Map<Seq<char>, CleanupTaskState>,
    server: Seq<char>,
    failures: u32,
    build_active: bool,
    shutting_down: bool,
)
    requires
        failures >= CLEANUP_RETRY_LIMIT,
        !waits(tasks, server),
    ensures
        after_run(
            tasks,
            server,
            failures,
            CleanupOutcome::Failed,
            build_active,
            shutting_down,
        ).2 is Stop,
{
}

/// What the batches of a pass have deleted, added up.
#[verifier::ext_equal]
pub struct Deletions {
    pub batches: int,
    pub fts_entries: int,
    pub entries: int,
    pub generations: int,
}

pub open spec fn deleted(inputs: Seq<PassInput>) -> Deletions
    decreases inputs.len(),
{
    if inputs.len() == 0 {
        Deletions { batches: 0, fts_entries: 0, entries: 0, generations: 0 }
    } else {
        let before = deleted(inputs.drop_last());
        match inputs.last() {
            PassInput::Deleted { fts_entries, entries, generations } => Deletions {
                batches: before.batches + 1,
                fts_entries: before.fts_entries + fts_entries,
                entries: before.entries + entries,
                generations: before.generations + generations,
            },
            _ => before,
        }
    }
}

/// A count, up to the largest number.
pub open spec fn capped(count: int) -> int {
    crate::controller::at_most(count, u64::MAX as int)
}

/// A pass after some inputs, one after the other.
pub open spec fn passed(pass: CleanupPass, inputs: Seq<PassInput>) -> CleanupPass
    decreases inputs.len(),
{
    if inputs.len() == 0 {
        pass
    } else {
        passed(pass, inputs.drop_last()).next(inputs.last()).0
    }
}

/// Whether every count of a batch came when the pass waited for one.
pub open spec fn counted_in_turn(pass: CleanupPass, inputs: Seq<PassInput>) -> bool
    decreases inputs.len(),
{
    inputs.len() == 0 || (counted_in_turn(pass, inputs.drop_last()) && (inputs.last() is Deleted
        ==> passed(pass, inputs.drop_last()).phase is Batch))
}

/// A pass reports as many batches as were deleted, and as many full-text
/// entries, entries and generations as they held, up to the largest number.
pub proof fn passes_count_what_they_delete(inputs: Seq<PassInput>)
    requires
        counted_in_turn(CleanupPass::initial(), inputs),
    ensures
        deleted(inputs).batches >= 0,
        deleted(inputs).fts_entries >= 0,
        deleted(inputs).entries >= 0,
        deleted(inputs).generations >= 0,
        ({
            let stats = passed(CleanupPass::initial(), inputs).stats;
            &&& stats.batches == capped(deleted(inputs).batches)
            &&& stats.fts_entries == capped(deleted(inputs).fts_entries)
            &&& stats.entries == capped(deleted(inputs).entries)
            &&& stats.generations == capped(deleted(inputs).generations)
        }),
    decreases inputs.len(),
{
    if inputs.len() > 0 {
        passes_count_what_they_delete(inputs.drop_last());
    }
}

/// A round of a pass deletes a batch, if there is anything obsolete and neither
/// a shutdown nor a build is in the way; and goes on round by round as long as
/// batches delete anything, counting what they delete.
pub proof fn rounds_delete_what_is_obsolete(
    pass: CleanupPass,
    fts_entries: u64,
    entries: u64,
    generations: u64,
)
    requires
        pass.phase is Round,
        pass.stats.batches < u64::MAX,
        pass.stats.fts_entries + fts_entries <= u64::MAX,
        pass.stats.entries + entries <= u64::MAX,
        pass.stats.generations + generations <= u64::MAX,
    ensures
        ({
            let looks = pass.next(PassInput::Gateway { shutting_down: false, build_active: false });
            let holds = looks.0.next(PassInput::Obsolete(true));
            let again = holds.0.next(PassInput::LockHeld { build_active: false });
            let deletes = again.0.next(PassInput::Obsolete(true));
            let counts = deletes.0.next(
                PassInput::Deleted { fts_entries, entries, generations },
            );
            &&& looks.1 is LookForObsolete
            &&& holds.1 is HoldLock
            &&& again.1 is LookForObsolete
            &&& deletes.1 is DeleteBatch
            &&& counts.0.stats.batches == pass.stats.batches + 1
            &&& counts.0.stats.fts_entries == pass.stats.fts_entries + fts_entries
            &&& counts.0.stats.entries == pass.stats.entries + entries
            &&& counts.0.stats.generations == pass.stats.generations + generations
            &&& fts_entries > 0 || entries > 0 || generations > 0 ==> counts.1 is Pause
                && counts.0.phase is Round
            &&& fts_entries == 0 && entries == 0 && generations == 0 ==> counts.1 is HoldLock && {
                let free = counts.0.next(PassInput::LockHeld { build_active: false });
                let busy = counts.0.next(PassInput::LockHeld { build_active: true });
                &&& free.1 is Checkpoint
                &&& busy.1 is Done
            }
        }),
{
}

/// A pass starts with a round where anything is obsolete, and is over at once
/// where nothing is, with nothing counted.
pub proof fn passes_start_where_something_is_obsolete()
    ensures
        ({
            let some = CleanupPass::initial().next(PassInput::Obsolete(true));
            let none = CleanupPass::initial().next(PassInput::Obsolete(false));
            &&& some.1 is LookAtGateway
            &&& some.0.phase is Round
            &&& none.1 is Done
            &&& some.0.stats.batches == 0 && some.0.stats.entries == 0
            &&& some.0.stats.fts_entries == 0 && some.0.stats.generations == 0
            &&& !some.0.stats.stopped_for_shutdown && !some.0.stats.deferred_for_build
            &&& none.0.stats == some.0.stats
        }),
{
}

/// A pass that meets a shutdown or a build says so, and ends without another
/// batch: after a checkpoint where it has deleted anything, and at once where it
/// has not. What it has counted stays.
pub proof fn passes_give_way(pass: CleanupPass, build_active: bool)
    requires
        pass.phase is Round,
    ensures
        ({
            let down = pass.next(PassInput::Gateway { shutting_down: true, build_active });
            let busy = pass.next(PassInput::Gateway { shutting_down: false, build_active: true });
            let locked = (CleanupPass { phase: PassPhase::Lock, ..pass }).next(
                PassInput::LockHeld { build_active: true },
            );
            let ends = if pass.opened {
                PassAction::HoldLock
            } else {
                PassAction::Done
            };
            &&& down.1 == ends && busy.1 == ends && locked.1 == ends
            &&& down.0.stats == (CleanupStats { stopped_for_shutdown: true, ..pass.stats })
            &&& busy.0.stats == (CleanupStats { deferred_for_build: true, ..pass.stats })
            &&& locked.0.stats == (CleanupStats { deferred_for_build: true, ..pass.stats })
        }),
{
}

/// A cleanup that fails is tried again, up to three times in a row, after a
/// tenth of a second, then after twice and after four times as long; its server
/// stays registered meanwhile.
pub proof fn failed_cleanups_are_retried(
    tasks: Map<Seq<char>, CleanupTaskState>,
    server: Seq<char>,
    failures: u32,
    build_active: bool,
)
    requires
        failures < u32::MAX,
    ensures
        ({
            let after = after_run(
                tasks,
                server,
                failures,
                CleanupOutcome::Failed,
                build_active,
                false,
            );
            &&& failures < 3 ==> after.2 is RetryAfter && after.0 == tasks && after.1 == failures
                + 1
            &&& failures == 0 ==> (after.2->RetryAfter_0).nanos == 100_000_000
            &&& failures == 1 ==> (after.2->RetryAfter_0).nanos == 200_000_000
            &&& failures == 2 ==> (after.2->RetryAfter_0).nanos == 400_000_000
            &&& failures >= 3 ==> !(after.2 is RetryAfter)
        }),
{
}

/// A cleanup that was asked for again while it ran is run again, with its
/// failures forgotten; one that was not is over, and its server is no longer
/// registered. A shutdown ends it either way. Other servers stay as they are.
pub proof fn requests_during_a_cleanup_count(
    tasks: Map<Seq<char>, CleanupTaskState>,
    server: Seq<char>,
    failures: u32,
    stats: CleanupStats,
    build_active: bool,
    shutting_down: bool,
    other: Seq<char>,
)
    requires
        !stats.deferred_for_build,
    ensures
        ({
            let after = after_run(
                tasks,
                server,
                failures,
                CleanupOutcome::Completed(stats),
                build_active,
                shutting_down,
            );
            let requested = tasks.contains_key(server) && tasks[server].requested;
            &&& requested && !shutting_down ==> after.2 is Again && after.1 == 0 && after.0 == tasks
            &&& !requested || shutting_down ==> after.2 is Stop && !after.0.contains_key(server)
            &&& other != server ==> after.0.contains_key(other) == tasks.contains_key(other)
            &&& other != server && tasks.contains_key(other) ==> after.0[other] == tasks[other]
        }),
{
}

/// A cleanup that gave way to a build stays asked for. It goes on at once if the
/// build is over by then, and otherwise waits for it, unless the gateway is
/// shutting down.
pub proof fn deferred_cleanups_come_back(
    tasks: Map<Seq<char>, CleanupTaskState>,
    server: Seq<char>,
    failures: u32,
    stats: CleanupStats,
    build_active: bool,
    shutting_down: bool,
)
    requires
        stats.deferred_for_build,
        tasks.contains_key(server),
    ensures
        ({
            let after = after_run(
                tasks,
                server,
                failures,
                CleanupOutcome::Completed(stats),
                build_active,
                shutting_down,
            );
            &&& after.0.contains_key(server)
            &&& after.0[server].requested
            &&& after.0[server].running == tasks[server].running
            &&& after.1 == failures
            &&& !build_active ==> after.2 is Again
            &&& build_active && !shutting_down ==> after.2 is WaitForBuilds
            &&& build_active && shutting_down ==> after.2 is Stop
        }),
{
}

/// When no worker can be started, the tasks that were running are dropped and
/// the others stay.
pub proof fn waiting_tasks_survive(
    tasks: Map<Seq<char>, CleanupTaskState>,
    server: Seq<char>,
)
    ensures
        idle_tasks(tasks).contains_key(server) <==> tasks.contains_key(server)
            && !tasks[server].running,
        idle_tasks(tasks).contains_key(server) ==> idle_tasks(tasks)[server] == tasks[server],
{
}

} // verus!
