//! The coordinator of the index: what it knows of every server, and what
//! requests, foreground work and builds make of it.

use crate::collections::{lists, StrMap, StrSet};
use crate::config::ResolvedIndexConfig;
use crate::controller::{ControllerState, InventoryLimits};
use crate::index::cache::QueryCache;
use crate::index::metrics::{ForegroundMetricState, ForegroundMetrics};
use crate::index::runtime::{
    HealthProbeState, PauseCommand, PauseOverlayState, RuntimeBuild, RuntimeState,
};
use crate::index::search::IndexedMatch;
use crate::index::storage::RetryState;
use crate::opc::InventoryProgress;
use crate::time::{Duration, Instant, SystemTime};
use vstd::prelude::*;

verus! {

#[derive(Debug, Clone, Copy, PartialEq, Eq, Structural)]
pub enum IndexControlAction {
    Pause,
    Resume,
    Cancel,
}

/// An answered query.
#[derive(Debug)]
pub struct CachedSearch {
    pub matches: Vec<IndexedMatch>,
    pub has_more: bool,
}

pub struct IndexManager {
    pub settings: ResolvedIndexConfig,
    pub runtime: StrMap<RuntimeState>,
    pub build_locks: StrSet,
    pub pending_cancels: StrSet,
    pub promoting: StrSet,
    pub foreground_users: StrMap<usize>,
    pub pause_overlays: StrMap<PauseOverlayState>,
    pub foreground_metrics: StrMap<ForegroundMetricState>,
    pub cache: QueryCache<CachedSearch>,
}

/// What operator control of a build asks of its inventory.
#[derive(Debug, Clone, Copy, PartialEq, Eq)]
pub struct ControlOutcome {
    pub cancel: Option<u64>,
    pub pause: Option<PauseCommand>,
}

/// The states after an update of a server's build, where it has one.
pub open spec fn with_build(
    runtime: Map<Seq<char>, RuntimeState>,
    server: Seq<char>,
    update: spec_fn(RuntimeBuild) -> RuntimeBuild,
) -> Map<Seq<char>, RuntimeState> {
    if has_build(runtime, server) {
        runtime.insert(
            server,
            RuntimeState { build: Some(update(runtime[server].build->0)), ..runtime[server] },
        )
    } else {
        runtime
    }
}

pub open spec fn has_build(runtime: Map<Seq<char>, RuntimeState>, server: Seq<char>) -> bool {
    runtime.contains_key(server) && runtime[server].build is Some
}

pub open spec fn build_of(runtime: Map<Seq<char>, RuntimeState>, server: Seq<char>) -> RuntimeBuild {
    runtime[server].build->0
}

/// The overlay of a server, none where none is set.
pub open spec fn overlay_of(
    overlays: Map<Seq<char>, PauseOverlayState>,
    server: Seq<char>,
) -> PauseOverlayState {
    if overlays.contains_key(server) {
        overlays[server]
    } else {
        PauseOverlayState::none()
    }
}

/// The pause reasons brought up to date.
pub open spec fn reconciled(
    runtime: Map<Seq<char>, RuntimeState>,
    server: Seq<char>,
    overlay: PauseOverlayState,
    now: Instant,
) -> Map<Seq<char>, RuntimeState> {
    with_build(
        runtime,
        server,
        |build: RuntimeBuild|
            RuntimeBuild { pause_reason: build.due_pause(overlay, now), ..build },
    )
}

/// What the inventory of a server is told: to pause exactly when the build has
/// a reason to.
pub open spec fn pause_command(
    runtime: Map<Seq<char>, RuntimeState>,
    server: Seq<char>,
    overlay: PauseOverlayState,
    now: Instant,
) -> Option<PauseCommand> {
    if has_build(runtime, server) {
        match build_of(runtime, server).control {
            Some(control) => Some(
                PauseCommand {
                    control,
                    pause: build_of(runtime, server).due_pause(overlay, now) is Some,
                },
            ),
            None => None,
        }
    } else {
        None
    }
}

/// How many foreground operations run on a server.
pub open spec fn users_of(users: Map<Seq<char>, usize>, server: Seq<char>) -> usize {
    if users.contains_key(server) {
        users[server]
    } else {
        0
    }
}

pub open spec fn one_more_user(users: Map<Seq<char>, usize>, server: Seq<char>) -> usize {
    if users_of(users, server) == usize::MAX {
        usize::MAX
    } else {
        (users_of(users, server) + 1) as usize
    }
}

/// The users after one of a server has left.
pub open spec fn one_user_less(users: Map<Seq<char>, usize>, server: Seq<char>) -> Map<
    Seq<char>,
    usize,
> {
    if users_of(users, server) <= 1 {
        users.remove(server)
    } else {
        users.insert(server, (users_of(users, server) - 1) as usize)
    }
}

/// The overlays after a change of one server's.
pub open spec fn overlaid(
    overlays: Map<Seq<char>, PauseOverlayState>,
    server: Seq<char>,
    maintenance: Option<bool>,
    health: Option<bool>,
) -> Map<Seq<char>, PauseOverlayState> {
    let before = overlay_of(overlays, server);
    let after = PauseOverlayState {
        maintenance: crate::config::or_default(maintenance, before.maintenance),
        health: crate::config::or_default(health, before.health),
    };
    if after == PauseOverlayState::none() {
        overlays.remove(server)
    } else {
        overlays.insert(server, after)
    }
}

/// The retry state that a server takes over from what was stored: an open
/// circuit counts only until its time has come.
pub open spec fn adopted(persisted: RetryState, wall: SystemTime) -> RetryState {
    RetryState {
        circuit_open: persisted.circuit_open && (persisted.retry_after matches Some(retry)
            && wall.nanos < retry.nanos),
        ..persisted
    }
}

pub open spec fn state_of(
    runtime: Map<Seq<char>, RuntimeState>,
    server: Seq<char>,
) -> RuntimeState {
    if runtime.contains_key(server) {
        runtime[server]
    } else {
        RuntimeState::initial()
    }
}

impl IndexManager {
    pub open spec fn wf(self) -> bool {
        &&& self.build_locks.wf()
        &&& self.pending_cancels.wf()
        &&& self.promoting.wf()
        &&& self.cache.wf()
        &&& self.cache.capacity >= 1
        &&& forall|server: Seq<char>|
            self.foreground_metrics@.contains_key(server) ==> (
            #[trigger] self.foreground_metrics@[server]).wf()
    }

    pub fn new(settings: ResolvedIndexConfig) -> (manager: Self)
        ensures
            manager.wf(),
            manager.settings == settings,
            manager.runtime@ == Map::<Seq<char>, RuntimeState>::empty(),
            manager.build_locks@ == Set::<Seq<char>>::empty(),
            manager.pending_cancels@ == Set::<Seq<char>>::empty(),
            manager.promoting@ == Set::<Seq<char>>::empty(),
            manager.foreground_users@ == Map::<Seq<char>, usize>::empty(),
            manager.pause_overlays@ == Map::<Seq<char>, PauseOverlayState>::empty(),
            manager.foreground_metrics@ == Map::<Seq<char>, ForegroundMetricState>::empty(),
            manager.cache.entries@.len() == 0,
            manager.cache.capacity == crate::config::positive(
                settings.query_cache_capacity as int,
            ),
    {
        let capacity: usize = if settings.query_cache_capacity < 1 {
            1
        } else {
            settings.query_cache_capacity
        };
        IndexManager {
            settings,
            runtime: StrMap::new(),
            build_locks: StrSet::new(),
            pending_cancels: StrSet::new(),
            promoting: StrSet::new(),
            foreground_users: StrMap::new(),
            pause_overlays: StrMap::new(),
            foreground_metrics: StrMap::new(),
            cache: QueryCache::new(capacity),
        }
    }

    pub fn max_results(&self) -> (limit: u32)
        ensures
            limit == self.settings.max_results,
    {
        self.settings.max_results
    }

    pub open spec fn configures(self, server: Seq<char>) -> bool {
        crate::text::texts(self.settings.servers@).contains(server)
    }

    pub fn is_configured(&self, server: &str) -> (configured: bool)
        ensures
            configured == self.configures(server@),
    {
        lists(&self.settings.servers, server)
    }

    pub fn require_configured(&self, server: &str) -> (result: Result<(), String>)
        ensures
            result is Ok <==> self.configures(server@),
            result matches Err(message) ==> message@
                == "server is not configured for namespace indexing"@,
    {
        if self.is_configured(server) {
            Ok(())
        } else {
            Err("server is not configured for namespace indexing".to_owned())
        }
    }

    /// Takes a server's build out of its state.
    fn open_build(&mut self, server: &str) -> (build: Option<RuntimeBuild>)
        ensures
            build is Some <==> has_build(old(self).runtime@, server@),
            *final(self) == (IndexManager { runtime: final(self).runtime, ..*old(self) }),
            build is None ==> final(self).runtime@ == old(self).runtime@,
            build matches Some(b) ==> b == build_of(old(self).runtime@, server@)
                && final(self).runtime@ == old(self).runtime@.insert(
                server@,
                RuntimeState { build: None, ..old(self).runtime@[server@] },
            ),
    {
        match self.runtime.take(server) {
            Some(state) => {
                let mut state = state;
                let build = state.build;
                state.build = None;
                self.runtime.insert(server, state);
                proof {
                    if build is None {
                        assert(self.runtime@ =~= old(self).runtime@);
                    } else {
                        assert(self.runtime@ =~= old(self).runtime@.insert(server@, state));
                    }
                }
                build
            },
            None => {
                assert(self.runtime@ =~= old(self).runtime@);
                None
            },
        }
    }

    /// Puts a build back into its server's state.
    fn close_build(&mut self, server: &str, build: RuntimeBuild)
        requires
            old(self).runtime@.contains_key(server@),
        ensures
            *final(self) == (IndexManager { runtime: final(self).runtime, ..*old(self) }),
            final(self).runtime@ == old(self).runtime@.insert(
                server@,
                RuntimeState { build: Some(build), ..old(self).runtime@[server@] },
            ),
    {
        let mut state = match self.runtime.take(server) {
            Some(state) => state,
            None => RuntimeState::default(),
        };
        state.build = Some(build);
        self.runtime.insert(server, state);
        assert(self.runtime@ =~= old(self).runtime@.insert(server@, state));
    }

    /// Brings the pause reason of a server's build up to date and says what its
    /// inventory is told.
    pub fn reconcile_pause_state(&mut self, server: &str, now: Instant) -> (command: Option<
        PauseCommand,
    >)
        ensures
            *final(self) == (IndexManager { runtime: final(self).runtime, ..*old(self) }),
            final(self).runtime@ == reconciled(
                old(self).runtime@,
                server@,
                overlay_of(old(self).pause_overlays@, server@),
                now,
            ),
            command == pause_command(
                old(self).runtime@,
                server@,
                overlay_of(old(self).pause_overlays@, server@),
                now,
            ),
    {
        let overlay = self.overlay(server);
        match self.open_build(server) {
            Some(build) => {
                let mut build = build;
                let reason = build.pause_due(overlay, now);
                build.pause_reason = reason;
                let command = match build.control {
                    Some(control) => Some(PauseCommand { control, pause: reason.is_some() }),
                    None => None,
                };
                self.close_build(server, build);
                assert(self.runtime@ =~= reconciled(
                    old(self).runtime@,
                    server@,
                    overlay,
                    now,
                ));
                command
            },
            None => None,
        }
    }

    fn overlay(&self, server: &str) -> (overlay: PauseOverlayState)
        ensures
            overlay == overlay_of(self.pause_overlays@, server@),
    {
        match self.pause_overlays.get(server) {
            Some(overlay) => *overlay,
            None => PauseOverlayState::default(),
        }
    }

    pub fn set_pause_overlay(
        &mut self,
        server: &str,
        maintenance: Option<bool>,
        health: Option<bool>,
        now: Instant,
    ) -> (command: Option<PauseCommand>)
        ensures
            *final(self) == (IndexManager {
                runtime: final(self).runtime,
                pause_overlays: final(self).pause_overlays,
                ..*old(self)
            }),
            final(self).pause_overlays@ == overlaid(
                old(self).pause_overlays@,
                server@,
                maintenance,
                health,
            ),
            final(self).runtime@ == reconciled(
                old(self).runtime@,
                server@,
                overlay_of(final(self).pause_overlays@, server@),
                now,
            ),
            command == pause_command(
                old(self).runtime@,
                server@,
                overlay_of(final(self).pause_overlays@, server@),
                now,
            ),
    {
        let mut overlay = self.overlay(server);
        if let Some(value) = maintenance {
            overlay.maintenance = value;
        }
        if let Some(value) = health {
            overlay.health = value;
        }
        if !overlay.maintenance && !overlay.health {
            self.pause_overlays.remove(server);
        } else {
            self.pause_overlays.insert(server, overlay);
        }
        self.reconcile_pause_state(server, now)
    }

    pub fn clear_pause_overlays(&mut self, server: &str)
        ensures
            *final(self) == (IndexManager {
                pause_overlays: final(self).pause_overlays,
                ..*old(self)
            }),
            final(self).pause_overlays@ == old(self).pause_overlays@.remove(server@),
    {
        self.pause_overlays.remove(server);
    }

    pub fn health_overlay_active(&self, server: &str) -> (active: bool)
        ensures
            active == overlay_of(self.pause_overlays@, server@).health,
    {
        self.overlay(server).health
    }

    /// How many foreground operations run on a server.
    pub fn foreground_count(&self, server: &str) -> (count: usize)
        ensures
            count == users_of(self.foreground_users@, server@),
    {
        match self.foreground_users.get(server) {
            Some(count) => *count,
            None => 0,
        }
    }

    pub fn foreground_active(&self, server: &str) -> (active: bool)
        ensures
            active == (users_of(self.foreground_users@, server@) > 0),
    {
        self.foreground_count(server) > 0
    }

    /// A foreground operation on a server begins.
    pub fn foreground_guard(&mut self, server: &str, now: Instant) -> (command: Option<
        PauseCommand,
    >)
        ensures
            *final(self) == (IndexManager {
                runtime: final(self).runtime,
                foreground_users: final(self).foreground_users,
                ..*old(self)
            }),
            final(self).foreground_users@ == old(self).foreground_users@.insert(
                server@,
                one_more_user(old(self).foreground_users@, server@),
            ),
            ({
                let begun = with_build(
                    old(self).runtime@,
                    server@,
                    |build: RuntimeBuild|
                        RuntimeBuild {
                            foreground_users: one_more_user(old(self).foreground_users@, server@),
                            quiet_until: None,
                            ..build
                        },
                );
                let overlay = overlay_of(old(self).pause_overlays@, server@);
                &&& final(self).runtime@ == reconciled(begun, server@, overlay, now)
                &&& command == pause_command(begun, server@, overlay, now)
            }),
            command matches Some(told) ==> told.pause,
            has_build(old(self).runtime@, server@) && build_of(
                old(self).runtime@,
                server@,
            ).control is Some ==> command is Some,
    {
        let count: usize = self.foreground_count(server).saturating_add(1);
        self.foreground_users.insert(server, count);
        if let Some(build) = self.open_build(server) {
            let mut build = build;
            build.foreground_users = count;
            build.quiet_until = None;
            self.close_build(server, build);
        }
        let ghost begun = with_build(
            old(self).runtime@,
            server@,
            |build: RuntimeBuild|
                RuntimeBuild { foreground_users: count, quiet_until: None, ..build },
        );
        assert(self.runtime@ =~= begun);
        self.reconcile_pause_state(server, now)
    }

    pub open spec fn quiet_period(self) -> Duration {
        Duration::of_secs(self.settings.quiet_period_seconds)
    }

    /// A foreground operation on a server ends. Its build stays quiet for a
    /// while.
    pub fn foreground_end(&mut self, server: &str, now: Instant) -> (command: Option<
        PauseCommand,
    >)
        requires
            now.can_add(old(self).quiet_period()),
        ensures
            *final(self) == (IndexManager {
                runtime: final(self).runtime,
                foreground_users: final(self).foreground_users,
                ..*old(self)
            }),
            final(self).foreground_users@ == one_user_less(old(self).foreground_users@, server@),
            ({
                let left = users_of(final(self).foreground_users@, server@);
                let ended = with_build(
                    old(self).runtime@,
                    server@,
                    |build: RuntimeBuild|
                        RuntimeBuild {
                            foreground_users: left,
                            quiet_until: if left == 0 {
                                Some(now.after(old(self).quiet_period()))
                            } else {
                                build.quiet_until
                            },
                            ..build
                        },
                );
                let overlay = overlay_of(old(self).pause_overlays@, server@);
                &&& final(self).runtime@ == reconciled(ended, server@, overlay, now)
                &&& command == pause_command(ended, server@, overlay, now)
            }),
    {
        let count: usize = self.foreground_count(server);
        let left: usize = if count <= 1 {
            0
        } else {
            count - 1
        };
        if left == 0 {
            self.foreground_users.remove(server);
        } else {
            self.foreground_users.insert(server, left);
        }
        let quiet_until = now.plus(Duration::from_secs(self.settings.quiet_period_seconds));
        if let Some(build) = self.open_build(server) {
            let mut build = build;
            build.foreground_users = left;
            if left == 0 {
                build.quiet_until = Some(quiet_until);
            }
            self.close_build(server, build);
        }
        let ghost ended = with_build(
            old(self).runtime@,
            server@,
            |build: RuntimeBuild|
                RuntimeBuild {
                    foreground_users: left,
                    quiet_until: if left == 0 {
                        Some(now.after(old(self).quiet_period()))
                    } else {
                        build.quiet_until
                    },
                    ..build
                },
        );
        assert(self.runtime@ =~= ended);
        self.reconcile_pause_state(server, now)
    }

    /// The quiet period after foreground work may have run out: the build
    /// resumes unless something else holds it.
    pub fn foreground_quiet_elapsed(&mut self, server: &str, now: Instant) -> (command: Option<
        PauseCommand,
    >)
        ensures
            *final(self) == (IndexManager { runtime: final(self).runtime, ..*old(self) }),
            !(has_build(old(self).runtime@, server@) && build_of(
                old(self).runtime@,
                server@,
            ).quiet_is_over(now)) ==> command is None && final(self).runtime@ == old(
                self,
            ).runtime@,
            has_build(old(self).runtime@, server@) && build_of(
                old(self).runtime@,
                server@,
            ).quiet_is_over(now) ==> ({
                let resumed = with_build(
                    old(self).runtime@,
                    server@,
                    |build: RuntimeBuild| RuntimeBuild { quiet_until: None, ..build },
                );
                let overlay = overlay_of(old(self).pause_overlays@, server@);
                &&& final(self).runtime@ == reconciled(resumed, server@, overlay, now)
                &&& command == pause_command(resumed, server@, overlay, now)
            }),
    {
        match self.open_build(server) {
            Some(build) => {
                let mut build = build;
                let over = build.quiet_over(now);
                if over {
                    build.quiet_until = None;
                }
                self.close_build(server, build);
                if over {
                    let ghost resumed = with_build(
                        old(self).runtime@,
                        server@,
                        |build: RuntimeBuild| RuntimeBuild { quiet_until: None, ..build },
                    );
                    assert(self.runtime@ =~= resumed);
                    self.reconcile_pause_state(server, now)
                } else {
                    assert(self.runtime@ =~= old(self).runtime@);
                    None
                }
            },
            None => None,
        }
    }

    /// Whether one more operation on a server can be counted.
    pub open spec fn counts_more(self, server: Seq<char>, error: bool, bad_quality: bool) -> bool {
        self.foreground_metrics@.contains_key(server) ==> self.foreground_metrics@[server].has_room(
            error,
            bad_quality,
        )
    }

    pub fn can_record_operation(&self, server: &str, error: bool, bad_quality: bool) -> (can: bool)
        ensures
            can == self.counts_more(server@, error, bad_quality),
    {
        match self.foreground_metrics.get(server) {
            Some(state) => (!error || state.errors < u64::MAX) && (!bad_quality
                || state.bad_quality < u64::MAX),
            None => true,
        }
    }

    /// What is recorded of the operations on a server.
    pub open spec fn metrics_of(self, server: Seq<char>) -> Option<ForegroundMetricState> {
        if self.foreground_metrics@.contains_key(server) {
            Some(self.foreground_metrics@[server])
        } else {
            None
        }
    }

    /// Records a foreground operation. An error counts against the server's
    /// health.
    pub fn record_foreground_operation(
        &mut self,
        server: &str,
        now: Instant,
        elapsed: Duration,
        error: bool,
        bad_quality: bool,
    )
        requires
            old(self).wf(),
            old(self).counts_more(server@, error, bad_quality),
        ensures
            final(self).recorded_operation(
                *old(self),
                server@,
                now,
                elapsed,
                error,
                bad_quality,
                error,
            ),
            final(self).wf(),
    {
        self.record_foreground_operation_with_health(
            server,
            now,
            elapsed,
            error,
            bad_quality,
            error,
        );
    }

    /// What recording a foreground operation makes of the manager.
    pub open spec fn recorded_operation(
        self,
        before: Self,
        server: Seq<char>,
        now: Instant,
        elapsed: Duration,
        error: bool,
        bad_quality: bool,
        health_failure: bool,
    ) -> bool {
        &&& self == (IndexManager { foreground_metrics: self.foreground_metrics, ..before })
        &&& self.foreground_metrics@.dom() == before.foreground_metrics@.dom().insert(server)
        &&& self.foreground_metrics@.remove(server) == before.foreground_metrics@.remove(server)
        &&& exists|start: ForegroundMetricState|
            {
                &&& before.foreground_metrics@.contains_key(server) ==> start
                    == before.foreground_metrics@[server]
                &&& !before.foreground_metrics@.contains_key(server) ==> start.latencies_ms@
                    == Seq::<u64>::empty() && start.operations == 0 && start.errors == 0
                    && start.bad_quality == 0 && start.last_health_failure_at is None
                    && start.last_bad_quality_at is None
                &&& #[trigger] self.foreground_metrics@[server].recorded(
                    start,
                    now,
                    elapsed.capped_millis(),
                    error,
                    bad_quality,
                    health_failure,
                )
            }
    }

    /// Records a foreground operation and, apart from its error, whether it
    /// counts against the server's health.
    pub fn record_foreground_operation_with_health(
        &mut self,
        server: &str,
        now: Instant,
        elapsed: Duration,
        error: bool,
        bad_quality: bool,
        health_failure: bool,
    )
        requires
            old(self).wf(),
            old(self).counts_more(server@, error, bad_quality),
        ensures
            final(self).recorded_operation(
                *old(self),
                server@,
                now,
                elapsed,
                error,
                bad_quality,
                health_failure,
            ),
            final(self).wf(),
    {
        let latency_ms: u64 = elapsed.as_millis_u64();
        let mut state = match self.foreground_metrics.take(server) {
            Some(state) => state,
            None => ForegroundMetricState::default(),
        };
        let ghost start = state;
        state.record_health_at(now, latency_ms, error, bad_quality, health_failure);
        self.foreground_metrics.insert(server, state);
        proof {
            let after = self.foreground_metrics@;
            let before = old(self).foreground_metrics@;
            assert(after.dom() =~= before.dom().insert(server@));
            assert(after.remove(server@) =~= before.remove(server@));
            assert(after[server@].recorded(
                start,
                now,
                latency_ms,
                error,
                bad_quality,
                health_failure,
            ));
            assert forall|other: Seq<char>| after.contains_key(other) implies (
            #[trigger] after[other]).wf() by {
                if other != server@ {
                    assert(after.remove(server@)[other] == before[other]);
                    assert(before[other].wf());
                }
            }
        }
    }

    /// The foreground metrics of a server at the moment.
    pub open spec fn foreground_summary(self, server: Seq<char>) -> ForegroundMetrics {
        let active = users_of(self.foreground_users@, server) as u64;
        match self.metrics_of(server) {
            Some(state) => state.summary(active),
            None => ForegroundMetrics::unused(active),
        }
    }

    pub fn foreground_snapshot(&self, server: &str) -> (metrics: ForegroundMetrics)
        requires
            self.wf(),
        ensures
            metrics == self.foreground_summary(server@),
    {
        let active: u64 = self.foreground_count(server) as u64;
        match self.foreground_metrics.get(server) {
            Some(state) => state.snapshot(active),
            None => ForegroundMetrics::without_operations(active),
        }
    }

    /// Applies an operator's action to a server's build.
    pub fn control(
        &mut self,
        server: &str,
        action: IndexControlAction,
        now: Instant,
    ) -> (outcome: Result<ControlOutcome, String>)
        requires
            old(self).wf(),
        ensures
            final(self).wf(),
            outcome is Ok <==> old(self).configures(server@),
            outcome matches Err(message) ==> message@
                == "server is not configured for namespace indexing"@ && *final(self) == *old(
                self,
            ),
            *final(self) == (IndexManager {
                runtime: final(self).runtime,
                pending_cancels: final(self).pending_cancels,
                ..*old(self)
            }),
            outcome matches Ok(done) ==> match action {
                IndexControlAction::Cancel => {
                    let build = build_of(old(self).runtime@, server@);
                    let waiting = has_build(old(self).runtime@, server@) && build.control is None;
                    &&& final(self).runtime@ == old(self).runtime@
                    &&& done.pause is None
                    &&& done.cancel == (if has_build(old(self).runtime@, server@) {
                        build.control
                    } else {
                        None
                    })
                    &&& final(self).pending_cancels@ == (if waiting {
                        old(self).pending_cancels@.insert(server@)
                    } else {
                        old(self).pending_cancels@
                    })
                },
                _ => {
                    let asked = with_build(
                        old(self).runtime@,
                        server@,
                        |build: RuntimeBuild|
                            RuntimeBuild {
                                operator_paused: action == IndexControlAction::Pause,
                                quiet_until: if action == IndexControlAction::Resume
                                    && build.quiet_is_over(now) {
                                    None
                                } else {
                                    build.quiet_until
                                },
                                ..build
                            },
                    );
                    let overlay = overlay_of(old(self).pause_overlays@, server@);
                    &&& final(self).runtime@ == reconciled(asked, server@, overlay, now)
                    &&& final(self).pending_cancels == old(self).pending_cancels
                    &&& done.cancel is None
                    &&& done.pause == pause_command(asked, server@, overlay, now)
                },
            },
            outcome matches Ok(done) ==> action == IndexControlAction::Pause ==> (
            done.pause matches Some(told) ==> told.pause),
    {
        if let Err(message) = self.require_configured(server) {
            return Err(message);
        }
        let mut cancel: Option<u64> = None;
        if let Some(build) = self.open_build(server) {
            let mut build = build;
            match action {
                IndexControlAction::Pause => {
                    build.operator_paused = true;
                },
                IndexControlAction::Resume => {
                    build.operator_paused = false;
                    if build.quiet_over(now) {
                        build.quiet_until = None;
                    }
                },
                IndexControlAction::Cancel => match build.control {
                    Some(control) => {
                        cancel = Some(control);
                    },
                    None => {
                        self.pending_cancels.insert(server);
                    },
                },
            }
            self.close_build(server, build);
        }
        if matches!(action, IndexControlAction::Cancel) {
            assert(self.runtime@ =~= old(self).runtime@);
            return Ok(ControlOutcome { cancel, pause: None });
        }
        let ghost asked = with_build(
            old(self).runtime@,
            server@,
            |build: RuntimeBuild|
                RuntimeBuild {
                    operator_paused: action == IndexControlAction::Pause,
                    quiet_until: if action == IndexControlAction::Resume && build.quiet_is_over(
                        now,
                    ) {
                        None
                    } else {
                        build.quiet_until
                    },
                    ..build
                },
        );
        assert(self.runtime@ =~= asked);
        let pause = self.reconcile_pause_state(server, now);
        Ok(ControlOutcome { cancel, pause })
    }

    pub fn mark_promoting(&mut self, server: &str)
        requires
            old(self).wf(),
        ensures
            final(self).wf(),
            *final(self) == (IndexManager { promoting: final(self).promoting, ..*old(self) }),
            final(self).promoting@ == old(self).promoting@.insert(server@),
    {
        self.promoting.insert(server);
    }

    pub fn clear_promoting(&mut self, server: &str)
        requires
            old(self).wf(),
        ensures
            final(self).wf(),
            *final(self) == (IndexManager { promoting: final(self).promoting, ..*old(self) }),
            final(self).promoting@ == old(self).promoting@.remove(server@),
    {
        let _ = self.promoting.remove(server);
    }

    pub fn is_promoting(&self, server: &str) -> (promoting: bool)
        ensures
            promoting == self.promoting@.contains(server@),
    {
        self.promoting.contains(server)
    }

    /// Takes note of a cancellation that came before the inventory had started.
    pub fn take_pending_cancel(&mut self, server: &str) -> (pending: bool)
        requires
            old(self).wf(),
        ensures
            final(self).wf(),
            *final(self) == (IndexManager {
                pending_cancels: final(self).pending_cancels,
                ..*old(self)
            }),
            final(self).pending_cancels@ == old(self).pending_cancels@.remove(server@),
            pending == old(self).pending_cancels@.contains(server@),
    {
        self.pending_cancels.remove(server)
    }

    /// Takes over the retry state that was stored for a server, unless it is
    /// being built.
    pub fn load_persisted_retry_state(
        &mut self,
        server: &str,
        persisted: RetryState,
        wall: SystemTime,
    )
        ensures
            *final(self) == (IndexManager { runtime: final(self).runtime, ..*old(self) }),
            final(self).runtime@ == old(self).runtime@.insert(
                server@,
                if has_build(old(self).runtime@, server@) {
                    old(self).runtime@[server@]
                } else {
                    RuntimeState {
                        retry: adopted(persisted, wall),
                        ..state_of(old(self).runtime@, server@)
                    }
                },
            ),
    {
        let mut state = match self.runtime.take(server) {
            Some(state) => state,
            None => RuntimeState::default(),
        };
        if state.build.is_none() {
            let waiting = match persisted.retry_after {
                Some(retry) => wall.nanos < retry.nanos,
                None => false,
            };
            state.retry = RetryState {
                retry_after: persisted.retry_after,
                consecutive_failures: persisted.consecutive_failures,
                circuit_open: persisted.circuit_open && waiting,
            };
        }
        self.runtime.insert(server, state);
        assert(self.runtime@ =~= old(self).runtime@.insert(server@, state));
    }

    pub fn update_health_state(&mut self, server: &str, health: HealthProbeState, now: Instant)
        ensures
            *final(self) == (IndexManager { runtime: final(self).runtime, ..*old(self) }),
            final(self).runtime@ == (if old(self).runtime@.contains_key(server@) {
                old(self).runtime@.insert(
                    server@,
                    RuntimeState {
                        health,
                        sentinel_checked_at: Some(now),
                        ..old(self).runtime@[server@]
                    },
                )
            } else {
                old(self).runtime@
            }),
    {
        match self.runtime.take(server) {
            Some(state) => {
                let mut state = state;
                state.health = health;
                state.sentinel_checked_at = Some(now);
                self.runtime.insert(server, state);
                assert(self.runtime@ =~= old(self).runtime@.insert(server@, state));
            },
            None => {
                assert(self.runtime@ =~= old(self).runtime@);
            },
        }
    }

    pub fn update_runtime_controller(
        &mut self,
        server: &str,
        limits: InventoryLimits,
        state: ControllerState,
        recovery_deadline: Option<Instant>,
        now: Instant,
    ) -> (command: Option<PauseCommand>)
        ensures
            *final(self) == (IndexManager { runtime: final(self).runtime, ..*old(self) }),
            ({
                let steered = with_build(
                    old(self).runtime@,
                    server@,
                    |build: RuntimeBuild|
                        RuntimeBuild {
                            effective_limits: Some(limits),
                            controller_state: Some(state),
                            recovery_deadline,
                            ..build
                        },
                );
                let overlay = overlay_of(old(self).pause_overlays@, server@);
                &&& final(self).runtime@ == reconciled(steered, server@, overlay, now)
                &&& command == pause_command(steered, server@, overlay, now)
            }),
    {
        if let Some(build) = self.open_build(server) {
            let mut build = build;
            build.effective_limits = Some(limits);
            build.controller_state = Some(state);
            build.recovery_deadline = recovery_deadline;
            self.close_build(server, build);
        }
        let ghost steered = with_build(
            old(self).runtime@,
            server@,
            |build: RuntimeBuild|
                RuntimeBuild {
                    effective_limits: Some(limits),
                    controller_state: Some(state),
                    recovery_deadline,
                    ..build
                },
        );
        assert(self.runtime@ =~= steered);
        self.reconcile_pause_state(server, now)
    }

    pub fn update_runtime_progress(&mut self, server: &str, progress: InventoryProgress)
        ensures
            *final(self) == (IndexManager { runtime: final(self).runtime, ..*old(self) }),
            final(self).runtime@ == with_build(
                old(self).runtime@,
                server@,
                |build: RuntimeBuild| RuntimeBuild { progress: Some(progress), ..build },
            ),
    {
        if let Some(build) = self.open_build(server) {
            let mut build = build;
            build.progress = Some(progress);
            self.close_build(server, build);
        }
        assert(self.runtime@ =~= with_build(
            old(self).runtime@,
            server@,
            |build: RuntimeBuild| RuntimeBuild { progress: Some(progress), ..build },
        ));
    }

    /// Records how long the latest commit of a build took.
    pub fn record_commit_latency(&mut self, server: &str, elapsed: Duration)
        ensures
            *final(self) == (IndexManager { runtime: final(self).runtime, ..*old(self) }),
            final(self).runtime@ == with_build(
                old(self).runtime@,
                server@,
                |build: RuntimeBuild|
                    RuntimeBuild {
                        last_commit_latency_ms: Some(elapsed.capped_millis()),
                        ..build
                    },
            ),
    {
        let latency: u64 = elapsed.as_millis_u64();
        if let Some(build) = self.open_build(server) {
            let mut build = build;
            build.last_commit_latency_ms = Some(latency);
            self.close_build(server, build);
        }
        assert(self.runtime@ =~= with_build(
            old(self).runtime@,
            server@,
            |build: RuntimeBuild|
                RuntimeBuild {
                    last_commit_latency_ms: Some(elapsed.capped_millis()),
                    ..build
                },
        ));
    }

    /// Whether a server's build may run under the overlays as they are.
    pub fn build_may_run(&self, server: &str, now: Instant) -> (may: bool)
        ensures
            may == (has_build(self.runtime@, server@) && build_of(self.runtime@, server@).may_run(
                overlay_of(self.pause_overlays@, server@),
                now,
            )),
    {
        let overlay = self.overlay(server);
        match self.runtime.get(server) {
            Some(state) => match &state.build {
                Some(build) => build.build_can_resume(overlay, now),
                None => false,
            },
            None => false,
        }
    }
}

/// A foreground operation that begins and ends leaves the count of its server,
/// and every other, as it was.
pub proof fn foreground_work_is_counted_out(users: Map<Seq<char>, usize>, server: Seq<char>)
    requires
        users_of(users, server) < usize::MAX,
        users.contains_key(server) ==> users[server] > 0,
    ensures
        one_user_less(users.insert(server, one_more_user(users, server)), server) == users,
{
    assert(one_user_less(users.insert(server, one_more_user(users, server)), server) =~= users);
}

/// While foreground work runs on a server its build does not run.
pub proof fn foreground_work_comes_first(
    build: RuntimeBuild,
    overlay: PauseOverlayState,
    now: Instant,
)
    requires
        build.foreground_users > 0,
    ensures
        !build.may_run(overlay, now),
        build.due_pause(overlay, now) is Some,
{
}

/// A change to the build of a server leaves everything else alone: other
/// servers, what is known of the server besides its build, and a server without
/// a build.
pub proof fn changes_stay_with_the_build(
    runtime: Map<Seq<char>, RuntimeState>,
    server: Seq<char>,
    update: spec_fn(RuntimeBuild) -> RuntimeBuild,
    other: Seq<char>,
)
    ensures
        ({
            let after = with_build(runtime, server, update);
            let built = runtime.contains_key(server) && runtime[server].build is Some;
            &&& built ==> after.contains_key(server) && after[server].build == Some(
                update(runtime[server].build->0),
            )
            &&& built ==> after[server] == (RuntimeState {
                build: after[server].build,
                ..runtime[server]
            })
            &&& !built ==> after == runtime
            &&& other != server ==> after.contains_key(other) == runtime.contains_key(other)
            &&& other != server && runtime.contains_key(other) ==> after[other] == runtime[other]
        }),
{
}

/// A build is told to pause exactly while there is a reason to, and the reason is
/// noted; one that cannot be told yet has it noted all the same. Nothing else of
/// the build changes.
pub proof fn builds_are_told_to_pause(
    runtime: Map<Seq<char>, RuntimeState>,
    server: Seq<char>,
    overlay: PauseOverlayState,
    now: Instant,
)
    requires
        runtime.contains_key(server),
        runtime[server].build is Some,
    ensures
        ({
            let build = runtime[server].build->0;
            let after = reconciled(runtime, server, overlay, now);
            let command = pause_command(runtime, server, overlay, now);
            let used = build.foreground_users > 0 || (build.quiet_until is Some && (
            build.quiet_until->0).nanos > now.nanos);
            let steered = build.controller_state is Some && build.controller_state->0 is Paused;
            let held = build.operator_paused || used || overlay.maintenance || overlay.health
                || steered;
            &&& command is Some <==> build.control is Some
            &&& command is Some ==> (command->0).control == build.control->0 && ((
            command->0).pause <==> held)
            &&& after.contains_key(server) && after[server].build is Some
            &&& (after[server].build->0).pause_reason is Some <==> held
            &&& after[server].build->0 == (RuntimeBuild {
                pause_reason: (after[server].build->0).pause_reason,
                ..build
            })
        }),
{
}

/// Users are counted one by one: a user who comes counts, one who leaves no
/// longer does, and the users of other servers are not touched.
pub proof fn users_are_counted(
    users: Map<Seq<char>, usize>,
    server: Seq<char>,
    other: Seq<char>,
)
    ensures
        ({
            let count = if users.contains_key(server) {
                users[server] as int
            } else {
                0
            };
            let less = one_user_less(users, server);
            &&& count < usize::MAX ==> one_more_user(users, server) == count + 1
            &&& count > 1 ==> less.contains_key(server) && less[server] == count - 1
            &&& count <= 1 ==> !less.contains_key(server)
            &&& other != server ==> less.contains_key(other) == users.contains_key(other)
            &&& other != server && users.contains_key(other) ==> less[other] == users[other]
        }),
{
}

/// What is asked for of an overlay is set, and what is not asked for stays; the
/// overlays of other servers stay too, and an overlay that holds nothing is not
/// kept.
pub proof fn overlays_are_set_one_by_one(
    overlays: Map<Seq<char>, PauseOverlayState>,
    server: Seq<char>,
    maintenance: Option<bool>,
    health: Option<bool>,
    other: Seq<char>,
)
    ensures
        ({
            let after = overlaid(overlays, server, maintenance, health);
            let waits = after.contains_key(server) && after[server].maintenance;
            let ails = after.contains_key(server) && after[server].health;
            &&& maintenance is Some ==> (waits <==> maintenance->0)
            &&& maintenance is None ==> (waits <==> overlays.contains_key(server)
                && overlays[server].maintenance)
            &&& health is Some ==> (ails <==> health->0)
            &&& health is None ==> (ails <==> overlays.contains_key(server)
                && overlays[server].health)
            &&& after.contains_key(server) <==> waits || ails
            &&& other != server ==> after.contains_key(other) == overlays.contains_key(other)
            &&& other != server && overlays.contains_key(other) ==> after[other] == overlays[other]
        }),
{
}

/// A stored retry is taken over as it is, but for a circuit whose time has come,
/// which is closed.
pub proof fn stored_retries_are_taken_over(persisted: RetryState, wall: SystemTime)
    ensures
        ({
            let taken = adopted(persisted, wall);
            &&& taken.retry_after == persisted.retry_after
            &&& taken.consecutive_failures == persisted.consecutive_failures
            &&& taken.circuit_open <==> persisted.circuit_open && persisted.retry_after is Some && (
            persisted.retry_after->0).nanos > wall.nanos
        }),
{
}

/// A foreground operation counts for its server and for no other. Its latency
/// counts in whole milliseconds.
pub proof fn operations_count_for_their_server(
    before: IndexManager,
    after: IndexManager,
    server: Seq<char>,
    now: Instant,
    elapsed: Duration,
    error: bool,
    bad_quality: bool,
    health_failure: bool,
    other: Seq<char>,
)
    requires
        before.wf(),
        after.recorded_operation(
            before,
            server,
            now,
            elapsed,
            error,
            bad_quality,
            health_failure,
        ),
        elapsed.nanos / 1_000_000 <= u64::MAX,
    ensures
        ({
            let known = before.foreground_metrics@.contains_key(server);
            let earlier = before.foreground_metrics@[server];
            let metrics = after.foreground_metrics@[server];
            &&& after.foreground_metrics@.contains_key(server)
            &&& metrics.latencies_ms@.last() == elapsed.nanos / 1_000_000
            &&& metrics.last_error == error
            &&& metrics.last_bad_quality == bad_quality
            &&& health_failure ==> metrics.last_health_failure_at == Some(now)
            &&& bad_quality ==> metrics.last_bad_quality_at == Some(now)
            &&& known && earlier.operations < u64::MAX ==> metrics.operations
                == earlier.operations + 1
            &&& !known ==> metrics.operations == 1
            &&& known && error ==> metrics.errors == earlier.errors + 1
            &&& known && !error ==> metrics.errors == earlier.errors
            &&& other != server && before.foreground_metrics@.contains_key(other)
                ==> after.foreground_metrics@.contains_key(other) && after.foreground_metrics@[other]
                == before.foreground_metrics@[other]
        }),
{
    if other != server && before.foreground_metrics@.contains_key(other) {
        assert(before.foreground_metrics@.remove(server).contains_key(other));
        assert(before.foreground_metrics@.remove(server)[other]
            == before.foreground_metrics@[other]);
        assert(after.foreground_metrics@.remove(server)[other]
            == after.foreground_metrics@[other]);
    }
    assert(after.foreground_metrics@.dom().contains(server));
}

/// The metrics of a server say how many use it, and of one that was never used
/// that nothing was counted.
pub proof fn metrics_tell_the_users(manager: IndexManager, server: Seq<char>)
    ensures
        ({
            let shown = manager.foreground_summary(server);
            &&& manager.foreground_users@.contains_key(server) ==> shown.active_count
                == manager.foreground_users@[server]
            &&& !manager.foreground_users@.contains_key(server) ==> shown.active_count == 0
            &&& manager.foreground_metrics@.contains_key(server) ==> shown.operations
                == manager.foreground_metrics@[server].operations && shown.errors
                == manager.foreground_metrics@[server].errors
            &&& !manager.foreground_metrics@.contains_key(server) ==> shown.operations == 0
                && shown.errors == 0 && shown.bad_quality == 0 && shown.latency_max_ms is None
        }),
{
}

/// Indexed are the servers that the settings list.
pub proof fn listed_servers_are_configured(manager: IndexManager, server: Seq<char>)
    ensures
        manager.configures(server) <==> exists|i: int|
            0 <= i < manager.settings.servers@.len() && (
            #[trigger] manager.settings.servers@[i])@ == server,
{
    let names = crate::text::texts(manager.settings.servers@);
    if manager.configures(server) {
        let i = choose|i: int| 0 <= i < names.len() && names[i] == server;
        assert(manager.settings.servers@[i]@ == server);
    }
    if exists|i: int|
        0 <= i < manager.settings.servers@.len() && (
        #[trigger] manager.settings.servers@[i])@ == server {
        let i = choose|i: int|
            0 <= i < manager.settings.servers@.len() && (
            #[trigger] manager.settings.servers@[i])@ == server;
        assert(names[i] == server);
    }
}

/// Recording an operation changes nothing but the metrics.
pub proof fn operations_change_nothing_else(
    before: IndexManager,
    after: IndexManager,
    server: Seq<char>,
    now: Instant,
    elapsed: Duration,
    error: bool,
    bad_quality: bool,
    health_failure: bool,
    other: Seq<char>,
)
    requires
        after.recorded_operation(
            before,
            server,
            now,
            elapsed,
            error,
            bad_quality,
            health_failure,
        ),
    ensures
        after == (IndexManager { foreground_metrics: after.foreground_metrics, ..before }),
        other != server ==> after.foreground_metrics@.contains_key(other)
            == before.foreground_metrics@.contains_key(other),
{
    if other != server {
        assert(after.foreground_metrics@.dom().contains(other)
            == before.foreground_metrics@.dom().contains(other));
    }
}

} // verus!
