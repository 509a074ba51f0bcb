//! The status of a server's index.

use crate::controller::{ControllerState, HostMetrics, InventoryLimits, PauseReason};
use crate::index::builds::at_least_one;
use crate::index::generations::{find_newest, GenerationRow, GenerationState};
use crate::index::manager::IndexManager;
use crate::index::metrics::ForegroundMetrics;
use crate::index::runtime::{HealthProbeState, RuntimeBuild};
use crate::index::schedule::{
    deterministic_jitter, instant_timestamp, parse_timestamp, system_time_timestamp,
};
use crate::index::search::IndexedMatch;
use crate::index::storage::StorageDiagnostics;
use crate::opc::{BrowseSource, InventoryProgress, NamespaceOrganization};
use crate::text::copy_text;
use crate::time::{Duration, Instant, SystemTime};
use vstd::prelude::*;

verus! {

#[derive(Debug, Clone, Copy, PartialEq, Eq, Structural)]
pub enum IndexState {
    NotIndexed,
    Partial,
    Ready,
    Stale,
    Refreshing,
    Promoting,
    Failed,
}

#[derive(Debug, PartialEq, Eq)]
pub struct SchedulerDiagnostics {
    pub next_refresh_at: Option<String>,
    pub last_attempt_at: Option<String>,
    pub last_success_at: Option<String>,
    pub last_success_duration_ms: Option<u64>,
    pub retry_after: Option<String>,
    pub consecutive_failures: u32,
    pub circuit_open: bool,
}

/// What the diagnostics of the scheduler say.
#[verifier::ext_equal]
pub struct SchedulerView {
    pub next_refresh_at: Option<Seq<char>>,
    pub last_attempt_at: Option<Seq<char>>,
    pub last_success_at: Option<Seq<char>>,
    pub last_success_duration_ms: Option<u64>,
    pub retry_after: Option<Seq<char>>,
    pub consecutive_failures: u32,
    pub circuit_open: bool,
}

impl View for SchedulerDiagnostics {
    type V = SchedulerView;

    open spec fn view(&self) -> SchedulerView {
        SchedulerView {
            next_refresh_at: crate::text::optional_view(self.next_refresh_at),
            last_attempt_at: crate::text::optional_view(self.last_attempt_at),
            last_success_at: crate::text::optional_view(self.last_success_at),
            last_success_duration_ms: self.last_success_duration_ms,
            retry_after: crate::text::optional_view(self.retry_after),
            consecutive_failures: self.consecutive_failures,
            circuit_open: self.circuit_open,
        }
    }
}

impl SchedulerView {
    pub open spec fn nothing() -> Self {
        SchedulerView {
            next_refresh_at: None,
            last_attempt_at: None,
            last_success_at: None,
            last_success_duration_ms: None,
            retry_after: None,
            consecutive_failures: 0,
            circuit_open: false,
        }
    }
}

impl Default for SchedulerDiagnostics {
    fn default() -> (scheduler: Self)
        ensures
            scheduler@ == SchedulerView::nothing(),
    {
        SchedulerDiagnostics {
            next_refresh_at: None,
            last_attempt_at: None,
            last_success_at: None,
            last_success_duration_ms: None,
            retry_after: None,
            consecutive_failures: 0,
            circuit_open: false,
        }
    }
}

#[derive(Debug, PartialEq, Eq)]
pub struct IndexStatus {
    pub server: String,
    pub state: IndexState,
    pub configured: bool,
    pub active_generation: u64,
    pub entry_count: u64,
    pub unique_item_count: u64,
    pub started_at: Option<String>,
    pub completed_at: Option<String>,
    pub last_error: Option<String>,
    pub database_bytes: u64,
    pub organization: NamespaceOrganization,
    pub source: BrowseSource,
    pub progress: Option<InventoryProgress>,
    pub effective_limits: Option<InventoryLimits>,
    pub controller_state: Option<ControllerState>,
    pub pause_reason: Option<PauseReason>,
    pub recovery_deadline: Option<String>,
    pub foreground_metrics: ForegroundMetrics,
    pub host_metrics: HostMetrics,
    pub health: HealthProbeState,
    pub sentinel_configured: bool,
    pub storage: StorageDiagnostics,
    pub scheduler: SchedulerDiagnostics,
}

/// What a status says.
#[verifier::ext_equal]
pub struct StatusView {
    pub server: Seq<char>,
    pub state: IndexState,
    pub configured: bool,
    pub active_generation: u64,
    pub entry_count: u64,
    pub unique_item_count: u64,
    pub started_at: Option<Seq<char>>,
    pub completed_at: Option<Seq<char>>,
    pub last_error: Option<Seq<char>>,
    pub database_bytes: u64,
    pub organization: NamespaceOrganization,
    pub source: BrowseSource,
    pub progress: Option<InventoryProgress>,
    pub effective_limits: Option<InventoryLimits>,
    pub controller_state: Option<ControllerState>,
    pub pause_reason: Option<PauseReason>,
    pub recovery_deadline: Option<Seq<char>>,
    pub foreground_metrics: ForegroundMetrics,
    pub host_metrics: HostMetrics,
    pub health: HealthProbeState,
    pub sentinel_configured: bool,
    pub storage: StorageDiagnostics,
    pub scheduler: SchedulerView,
}

impl View for IndexStatus {
    type V = StatusView;

    open spec fn view(&self) -> StatusView {
        StatusView {
            server: self.server@,
            state: self.state,
            configured: self.configured,
            active_generation: self.active_generation,
            entry_count: self.entry_count,
            unique_item_count: self.unique_item_count,
            started_at: crate::text::optional_view(self.started_at),
            completed_at: crate::text::optional_view(self.completed_at),
            last_error: crate::text::optional_view(self.last_error),
            database_bytes: self.database_bytes,
            organization: self.organization,
            source: self.source,
            progress: self.progress,
            effective_limits: self.effective_limits,
            controller_state: self.controller_state,
            pause_reason: self.pause_reason,
            recovery_deadline: crate::text::optional_view(self.recovery_deadline),
            foreground_metrics: self.foreground_metrics,
            host_metrics: self.host_metrics,
            health: self.health,
            sentinel_configured: self.sentinel_configured,
            storage: self.storage,
            scheduler: self.scheduler@,
        }
    }
}

/// The answer to a search.
#[derive(Debug, PartialEq, Eq)]
pub struct IndexedSearch {
    pub matches: Vec<IndexedMatch>,
    pub has_more: bool,
    pub status: IndexStatus,
}

/// The status of a server of which nothing is stored.
pub open spec fn blank(server: Seq<char>, configured: bool, state: IndexState) -> StatusView {
    StatusView {
        server,
        state,
        configured,
        active_generation: 0,
        entry_count: 0,
        unique_item_count: 0,
        started_at: None,
        completed_at: None,
        last_error: None,
        database_bytes: 0,
        organization: NamespaceOrganization::Unspecified,
        source: BrowseSource::Unspecified,
        progress: None,
        effective_limits: None,
        controller_state: None,
        pause_reason: None,
        recovery_deadline: None,
        foreground_metrics: ForegroundMetrics::unused(0),
        host_metrics: HostMetrics::unavailable(),
        health: HealthProbeState::Unavailable,
        sentinel_configured: false,
        storage: StorageDiagnostics::unknown(),
        scheduler: SchedulerView::nothing(),
    }
}

pub fn empty_status(server: &str, configured: bool, state: IndexState) -> (status: IndexStatus)
    ensures
        status@ == blank(server@, configured, state),
{
    IndexStatus {
        server: server.to_owned(),
        state,
        configured,
        active_generation: 0,
        entry_count: 0,
        unique_item_count: 0,
        started_at: None,
        completed_at: None,
        last_error: None,
        database_bytes: 0,
        organization: NamespaceOrganization::Unspecified,
        source: BrowseSource::Unspecified,
        progress: None,
        effective_limits: None,
        controller_state: None,
        pause_reason: None,
        recovery_deadline: None,
        foreground_metrics: ForegroundMetrics::default(),
        host_metrics: HostMetrics::default(),
        health: HealthProbeState::Unavailable,
        sentinel_configured: false,
        storage: StorageDiagnostics::default(),
        scheduler: SchedulerDiagnostics::default(),
    }
}

/// The status that a stored generation gives.
pub open spec fn of_row(
    server: Seq<char>,
    row: GenerationRow,
    state: IndexState,
    progress: Option<InventoryProgress>,
    database_bytes: u64,
) -> StatusView {
    StatusView {
        active_generation: if row.state == GenerationState::Active {
            row.generation
        } else {
            0
        },
        entry_count: row.entry_count,
        unique_item_count: row.unique_item_count,
        started_at: Some(row.started_at@),
        completed_at: crate::text::optional_view(row.completed_at),
        last_error: crate::text::optional_view(row.last_error),
        database_bytes,
        organization: row.organization,
        source: row.source,
        progress,
        ..blank(server, true, state)
    }
}

pub fn status_from_row(
    server: &str,
    row: &GenerationRow,
    state: IndexState,
    progress: Option<InventoryProgress>,
    database_bytes: u64,
) -> (status: IndexStatus)
    ensures
        status@ == of_row(server@, *row, state, progress, database_bytes),
{
    let mut status = empty_status(server, true, state);
    if row.state == GenerationState::Active {
        status.active_generation = row.generation;
    }
    status.entry_count = row.entry_count;
    status.unique_item_count = row.unique_item_count;
    status.started_at = Some(row.started_at.clone());
    status.completed_at = copy_text(&row.completed_at);
    status.last_error = copy_text(&row.last_error);
    status.database_bytes = database_bytes;
    status.organization = row.organization;
    status.source = row.source;
    status.progress = progress;
    status
}

/// The newest stored generation in a state.
pub open spec fn newest_row(rows: Seq<GenerationRow>, state: GenerationState) -> Option<
    GenerationRow,
> {
    if crate::index::generations::any_in_state(rows, state) {
        Some(rows[choose|at: int| crate::index::generations::is_newest(rows, state, at)])
    } else {
        None
    }
}

proof fn newest_row_is_at(rows: Seq<GenerationRow>, state: GenerationState, at: int)
    requires
        crate::index::generations::numbers_differ(rows),
        crate::index::generations::is_newest(rows, state, at),
    ensures
        newest_row(rows, state) == Some(rows[at]),
{
    assert(crate::index::generations::in_state(rows, at, state));
    let other = choose|k: int| crate::index::generations::is_newest(rows, state, k);
    assert(crate::index::generations::is_newest(rows, state, other));
    assert(rows[other].generation <= rows[at].generation);
    assert(rows[at].generation <= rows[other].generation);
    if other < at {
        assert(rows[other].generation != rows[at].generation);
    } else if at < other {
        assert(rows[at].generation != rows[other].generation);
    }
}

/// Whether an index was completed longer ago than the refresh interval.
pub open spec fn is_stale(
    completed_at: Option<Seq<char>>,
    refresh_interval_seconds: u64,
    wall: SystemTime,
) -> bool {
    completed_at matches Some(text) && (crate::index::schedule::parsed_stamp(
        text,
    ) matches Some(completed) && wall.nanos - completed.nanos > refresh_interval_seconds
        * crate::time::NANOS_PER_SEC)
}

/// When the next scheduled refresh is due after a completion.
pub open spec fn refresh_due(
    completed: SystemTime,
    server: Seq<char>,
    refresh_interval_seconds: u64,
    schedule_jitter_seconds: u64,
) -> int {
    completed.nanos + (crate::config::positive(refresh_interval_seconds as int)
        + crate::index::schedule::jitter_seconds(server, schedule_jitter_seconds))
        * crate::time::NANOS_PER_SEC
}

/// How long the active index took to build, where its timestamps tell.
pub open spec fn build_millis(row: GenerationRow) -> Option<u64> {
    match row.completed_at {
        Some(completed_at) => match crate::index::schedule::parsed_stamp(completed_at@) {
            Some(completed) => match crate::index::schedule::parsed_stamp(row.started_at@) {
                Some(started) => match completed.since(started) {
                    Some(took) => Some(took.capped_millis()),
                    None => None,
                },
                None => None,
            },
            None => None,
        },
        None => None,
    }
}

impl IndexManager {
    /// The part of a status that the stored generations and a running build
    /// decide.
    pub open spec fn stored_status(
        self,
        server: Seq<char>,
        rows: Seq<GenerationRow>,
        database_bytes: u64,
        wall: SystemTime,
    ) -> StatusView {
        let active = newest_row(rows, GenerationState::Active);
        let staging = newest_row(rows, GenerationState::Staging);
        let failed = newest_row(rows, GenerationState::Failed);
        let promoting = self.promoting@.contains(server);
        let state = crate::index::manager::state_of(self.runtime@, server);
        match state.build {
            Some(build) => {
                let started = Some(build.started_at@);
                match crate::collections::first_of(crate::collections::first_of(active, staging), failed) {
                    Some(row) => StatusView {
                        started_at: started,
                        ..of_row(
                            server,
                            row,
                            if promoting {
                                IndexState::Promoting
                            } else if active is Some {
                                IndexState::Refreshing
                            } else if staging is Some {
                                IndexState::Partial
                            } else {
                                IndexState::Failed
                            },
                            build.progress,
                            database_bytes,
                        )
                    },
                    None => StatusView {
                        entry_count: match build.progress {
                            Some(p) => p.entries_seen,
                            None => 0,
                        },
                        unique_item_count: match build.progress {
                            Some(p) => p.unique_items,
                            None => 0,
                        },
                        started_at: started,
                        database_bytes,
                        progress: build.progress,
                        ..blank(
                            server,
                            true,
                            if promoting {
                                IndexState::Promoting
                            } else {
                                IndexState::Partial
                            },
                        )
                    },
                }
            },
            None => match active {
                Some(row) => {
                    let superseding = failed matches Some(f) && f.generation > row.generation;
                    StatusView {
                        last_error: if superseding {
                            crate::text::optional_view(failed->0.last_error)
                        } else {
                            crate::text::optional_view(row.last_error)
                        },
                        ..of_row(
                            server,
                            row,
                            if superseding {
                                IndexState::Failed
                            } else if is_stale(
                                crate::text::optional_view(row.completed_at),
                                self.settings.refresh_interval_seconds,
                                wall,
                            ) {
                                IndexState::Stale
                            } else {
                                IndexState::Ready
                            },
                            None,
                            database_bytes,
                        )
                    }
                },
                None => match staging {
                    Some(row) => of_row(server, row, IndexState::Partial, None, database_bytes),
                    None => match failed {
                        Some(row) => of_row(server, row, IndexState::Failed, None, database_bytes),
                        None => StatusView {
                            database_bytes,
                            ..blank(server, true, IndexState::NotIndexed)
                        },
                    },
                },
            },
        }
    }

    /// The scheduler's part of a status.
    pub open spec fn schedule_view(self, server: Seq<char>, rows: Seq<GenerationRow>) -> SchedulerView {
        let active = newest_row(rows, GenerationState::Active);
        let failed = newest_row(rows, GenerationState::Failed);
        let state = crate::index::manager::state_of(self.runtime@, server);
        let completed_at = match active {
            Some(row) => crate::text::optional_view(row.completed_at),
            None => None,
        };
        SchedulerView {
            next_refresh_at: match completed_at {
                Some(text) => match crate::index::schedule::parsed_stamp(text) {
                    Some(completed) => Some(
                        crate::index::schedule::stamp(
                            SystemTime {
                                nanos: refresh_due(
                                    completed,
                                    server,
                                    self.settings.refresh_interval_seconds,
                                    self.settings.schedule_jitter_seconds,
                                ) as i128,
                            },
                        ),
                    ),
                    None => None,
                },
                None => None,
            },
            last_attempt_at: match state.build {
                Some(build) => Some(build.started_at@),
                None => match crate::collections::first_of(failed, active) {
                    Some(row) => Some(row.started_at@),
                    None => None,
                },
            },
            last_success_at: completed_at,
            last_success_duration_ms: match active {
                Some(row) => build_millis(row),
                None => None,
            },
            retry_after: match state.retry.retry_after {
                Some(at) => Some(crate::index::schedule::stamp(at)),
                None => None,
            },
            consecutive_failures: state.retry.consecutive_failures,
            circuit_open: state.retry.circuit_open,
        }
    }

    /// The full status of a configured server. `read_error` tells why its
    /// stored generations could not be read during a promotion.
    pub open spec fn full_status(
        self,
        server: Seq<char>,
        rows: Seq<GenerationRow>,
        read_error: Option<Seq<char>>,
        storage: StorageDiagnostics,
        host: HostMetrics,
        now: Instant,
        wall: SystemTime,
    ) -> StatusView {
        let state = crate::index::manager::state_of(self.runtime@, server);
        let base = self.stored_status(server, rows, storage.total(), wall);
        let broken = state.build is None && state.last_error is Some;
        StatusView {
            state: if broken {
                IndexState::Failed
            } else {
                base.state
            },
            last_error: match read_error {
                Some(error) => Some(error),
                None => if broken {
                    crate::text::optional_view(state.last_error)
                } else {
                    base.last_error
                },
            },
            effective_limits: match state.build {
                Some(build) => build.effective_limits,
                None => None,
            },
            controller_state: match state.build {
                Some(build) => build.controller_state,
                None => None,
            },
            pause_reason: match state.build {
                Some(build) => build.pause_reason,
                None => None,
            },
            recovery_deadline: match state.build {
                Some(build) => match build.recovery_deadline {
                    Some(deadline) => Some(
                        crate::index::schedule::stamp(
                            crate::index::schedule::wall_moment(deadline, now, wall),
                        ),
                    ),
                    None => None,
                },
                None => None,
            },
            foreground_metrics: self.foreground_summary(server),
            host_metrics: host,
            health: state.health,
            sentinel_configured: self.settings.sentinel_tag is Some,
            storage: StorageDiagnostics {
                last_commit_latency_ms: match state.build {
                    Some(build) => build.last_commit_latency_ms,
                    None => storage.last_commit_latency_ms,
                },
                ..storage
            },
            scheduler: self.schedule_view(server, rows),
            ..base
        }
    }

    /// Whether the wall clock can represent the recovery deadline of a
    /// server's build.
    pub open spec fn deadline_fits(self, server: Seq<char>, now: Instant, wall: SystemTime) -> bool {
        crate::index::manager::state_of(self.runtime@, server).build matches Some(build) ==> (
        build.recovery_deadline matches Some(deadline) ==> wall.nanos + deadline.since(now).nanos
            <= i128::MAX)
    }

    fn stored_part(
        &self,
        server: &str,
        rows: &Vec<GenerationRow>,
        database_bytes: u64,
        wall: SystemTime,
    ) -> (status: IndexStatus)
        requires
            crate::index::generations::numbers_differ(rows@),
        ensures
            status@ == self.stored_status(server@, rows@, database_bytes, wall),
    {
        let active = find_newest(rows, GenerationState::Active);
        let staging = find_newest(rows, GenerationState::Staging);
        let failed = find_newest(rows, GenerationState::Failed);
        proof {
            if let Some(i) = active {
                newest_row_is_at(rows@, GenerationState::Active, i as int);
            }
            if let Some(i) = staging {
                newest_row_is_at(rows@, GenerationState::Staging, i as int);
            }
            if let Some(i) = failed {
                newest_row_is_at(rows@, GenerationState::Failed, i as int);
            }
        }
        let promoting = self.is_promoting(server);
        let build: Option<&RuntimeBuild> = match self.runtime.get(server) {
            Some(state) => match &state.build {
                Some(build) => Some(build),
                None => None,
            },
            None => None,
        };
        match build {
            Some(build) => {
                let shown: Option<usize> = match active {
                    Some(i) => Some(i),
                    None => match staging {
                        Some(i) => Some(i),
                        None => failed,
                    },
                };
                match shown {
                    Some(i) => {
                        let state = if promoting {
                            IndexState::Promoting
                        } else if active.is_some() {
                            IndexState::Refreshing
                        } else if staging.is_some() {
                            IndexState::Partial
                        } else {
                            IndexState::Failed
                        };
                        let mut status = status_from_row(
                            server,
                            &rows[i],
                            state,
                            build.progress,
                            database_bytes,
                        );
                        status.started_at = Some(build.started_at.clone());
                        status
                    },
                    None => {
                        let state = if promoting {
                            IndexState::Promoting
                        } else {
                            IndexState::Partial
                        };
                        let mut status = empty_status(server, true, state);
                        if let Some(progress) = build.progress {
                            status.entry_count = progress.entries_seen;
                            status.unique_item_count = progress.unique_items;
                        }
                        status.started_at = Some(build.started_at.clone());
                        status.database_bytes = database_bytes;
                        status.progress = build.progress;
                        status
                    },
                }
            },
            None => match active {
                Some(i) => {
                    let row = &rows[i];
                    let superseding: Option<usize> = match failed {
                        Some(f) => if rows[f].generation > row.generation {
                            Some(f)
                        } else {
                            None
                        },
                        None => None,
                    };
                    let stale = stale_since(
                        &row.completed_at,
                        self.settings.refresh_interval_seconds,
                        wall,
                    );
                    let state = if superseding.is_some() {
                        IndexState::Failed
                    } else if stale {
                        IndexState::Stale
                    } else {
                        IndexState::Ready
                    };
                    let mut status = status_from_row(server, row, state, None, database_bytes);
                    if let Some(f) = superseding {
                        status.last_error = copy_text(&rows[f].last_error);
                    }
                    status
                },
                None => match staging {
                    Some(i) => status_from_row(
                        server,
                        &rows[i],
                        IndexState::Partial,
                        None,
                        database_bytes,
                    ),
                    None => match failed {
                        Some(i) => status_from_row(
                            server,
                            &rows[i],
                            IndexState::Failed,
                            None,
                            database_bytes,
                        ),
                        None => {
                            let mut status = empty_status(server, true, IndexState::NotIndexed);
                            status.database_bytes = database_bytes;
                            status
                        },
                    },
                },
            },
        }
    }

    fn schedule_part(&self, server: &str, rows: &Vec<GenerationRow>) -> (scheduler:
        SchedulerDiagnostics)
        requires
            crate::index::generations::numbers_differ(rows@),
        ensures
            scheduler@ == self.schedule_view(server@, rows@),
    {
        let active = find_newest(rows, GenerationState::Active);
        let failed = find_newest(rows, GenerationState::Failed);
        proof {
            if let Some(i) = active {
                newest_row_is_at(rows@, GenerationState::Active, i as int);
            }
            if let Some(i) = failed {
                newest_row_is_at(rows@, GenerationState::Failed, i as int);
            }
        }
        let mut scheduler = SchedulerDiagnostics::default();
        if let Some(i) = active {
            let row = &rows[i];
            scheduler.last_attempt_at = Some(row.started_at.clone());
            scheduler.last_success_at = copy_text(&row.completed_at);
            if let Some(text) = &row.completed_at {
                if let Some(completed) = parse_timestamp(text.as_str()) {
                    let due = self.scheduled_after(server, completed);
                    scheduler.next_refresh_at = Some(system_time_timestamp(due));
                    if let Some(started) = parse_timestamp(row.started_at.as_str()) {
                        if let Some(took) = completed.duration_since(started) {
                            scheduler.last_success_duration_ms = Some(took.as_millis_u64());
                        }
                    }
                }
            }
        }
        if let Some(i) = failed {
            scheduler.last_attempt_at = Some(rows[i].started_at.clone());
        }
        if let Some(state) = self.runtime.get(server) {
            if let Some(build) = &state.build {
                scheduler.last_attempt_at = Some(build.started_at.clone());
            }
            if let Some(at) = state.retry.retry_after {
                scheduler.retry_after = Some(system_time_timestamp(at));
            }
            scheduler.consecutive_failures = state.retry.consecutive_failures;
            scheduler.circuit_open = state.retry.circuit_open;
        }
        scheduler
    }

    fn scheduled_after(&self, server: &str, completed: SystemTime) -> (due: SystemTime)
        requires
            0 <= completed.nanos <= u64::MAX * 1_000_000,
        ensures
            due.nanos == refresh_due(
                completed,
                server@,
                self.settings.refresh_interval_seconds,
                self.settings.schedule_jitter_seconds,
            ),
    {
        proof {
            crate::index::schedule::jitter_is_bounded(
                server@,
                self.settings.schedule_jitter_seconds,
            );
        }
        let interval = Duration::from_secs(
            at_least_one(self.settings.refresh_interval_seconds),
        ).saturating_add(deterministic_jitter(server, self.settings.schedule_jitter_seconds));
        match completed.checked_add(interval) {
            Some(due) => due,
            None => completed,
        }
    }

    /// The status of a server. `rows` are its stored generations; during a
    /// promotion they may be unreadable, and `read_error` says why.
    pub fn status(
        &self,
        server: &str,
        rows: &Vec<GenerationRow>,
        read_error: Option<String>,
        storage: StorageDiagnostics,
        host: HostMetrics,
        now: Instant,
        wall: SystemTime,
    ) -> (status: IndexStatus)
        requires
            self.wf(),
            crate::index::generations::numbers_differ(rows@),
            self.deadline_fits(server@, now, wall),
        ensures
            !self.configures(server@) ==> status@ == blank(
                server@,
                false,
                IndexState::NotIndexed,
            ),
            self.configures(server@) ==> status@ == self.full_status(
                server@,
                rows@,
                crate::text::optional_view(read_error),
                storage,
                host,
                now,
                wall,
            ),
    {
        if !self.is_configured(server) {
            return empty_status(server, false, IndexState::NotIndexed);
        }
        let mut status = self.stored_part(server, rows, storage.database_bytes(), wall);
        status.sentinel_configured = self.settings.sentinel_tag.is_some();
        status.foreground_metrics = self.foreground_snapshot(server);
        status.host_metrics = host;
        status.storage = storage;
        status.scheduler = self.schedule_part(server, rows);
        if let Some(state) = self.runtime.get(server) {
            status.health = state.health;
            match &state.build {
                Some(build) => {
                    status.effective_limits = build.effective_limits;
                    status.controller_state = build.controller_state;
                    status.pause_reason = build.pause_reason;
                    status.recovery_deadline =
                    match build.recovery_deadline {
                        Some(deadline) => Some(instant_timestamp(deadline, now, wall)),
                        None => None,
                    };
                    status.storage.last_commit_latency_ms = build.last_commit_latency_ms;
                },
                None => {
                    if let Some(error) = &state.last_error {
                        status.state = IndexState::Failed;
                        status.last_error = Some(error.clone());
                    }
                },
            }
        }
        if let Some(error) = read_error {
            status.last_error = Some(error);
        }
        status
    }
}

fn stale_since(
    completed_at: &Option<String>,
    refresh_interval_seconds: u64,
    wall: SystemTime,
) -> (stale: bool)
    ensures
        stale == is_stale(
            crate::text::optional_view(*completed_at),
            refresh_interval_seconds,
            wall,
        ),
{
    match completed_at {
        Some(text) => match parse_timestamp(text.as_str()) {
            Some(completed) => match wall.duration_since(completed) {
                Some(age) => age.nanos > Duration::from_secs(refresh_interval_seconds).nanos,
                None => false,
            },
            None => false,
        },
        None => false,
    }
}

/// The status of a configured server names its active generation, and none only
/// where there is none.
pub proof fn status_names_the_active_generation(
    manager: IndexManager,
    server: Seq<char>,
    rows: Seq<GenerationRow>,
    read_error: Option<Seq<char>>,
    storage: StorageDiagnostics,
    host: HostMetrics,
    now: Instant,
    wall: SystemTime,
)
    requires
        crate::index::generations::table_ok(rows),
    ensures
        ({
            let named = manager.full_status(
                server,
                rows,
                read_error,
                storage,
                host,
                now,
                wall,
            ).active_generation;
            &&& named == (match crate::index::generations::newest(rows, GenerationState::Active) {
                Some(generation) => generation,
                None => 0,
            })
            &&& named > 0 <==> crate::index::generations::any_in_state(
                rows,
                GenerationState::Active,
            )
        }),
{
    newest_row_is_in_state(rows, GenerationState::Active);
    newest_row_is_in_state(rows, GenerationState::Staging);
    newest_row_is_in_state(rows, GenerationState::Failed);
}

proof fn newest_row_is_in_state(rows: Seq<GenerationRow>, state: GenerationState)
    requires
        crate::index::generations::numbers_differ(rows),
    ensures
        newest_row(rows, state) matches Some(row) ==> row.state == state
            && crate::index::generations::newest(rows, state) == Some(row.generation) && (
        crate::index::generations::table_ok(rows) ==> row.generation >= 1),
{
    if crate::index::generations::any_in_state(rows, state) {
        crate::index::generations::some_row_is_newest(rows, state);
        let at = choose|at: int| crate::index::generations::is_newest(rows, state, at);
        assert(crate::index::generations::in_state(rows, at, state));
    }
}

/// As long as no build runs and none has failed since its active generation, a
/// server is ready or stale, and never anything else. Older failures do not
/// count.
pub proof fn undisturbed_index_is_ready_or_stale(
    manager: IndexManager,
    server: Seq<char>,
    rows: Seq<GenerationRow>,
    storage: StorageDiagnostics,
    host: HostMetrics,
    now: Instant,
    wall: SystemTime,
)
    requires
        crate::index::generations::numbers_differ(rows),
        crate::index::generations::any_in_state(rows, GenerationState::Active),
        crate::index::generations::newest(rows, GenerationState::Failed) matches Some(failed)
            ==> failed < crate::index::generations::newest(rows, GenerationState::Active)->0,
        crate::index::manager::state_of(manager.runtime@, server).build is None,
        crate::index::manager::state_of(manager.runtime@, server).last_error is None,
    ensures
        ({
            let state = manager.full_status(server, rows, None, storage, host, now, wall).state;
            state is Ready || state is Stale
        }),
{
    newest_row_is_in_state(rows, GenerationState::Active);
    newest_row_is_in_state(rows, GenerationState::Failed);
}

/// Whether a row is the newest in its state.
pub open spec fn leads(rows: Seq<GenerationRow>, state: GenerationState, at: int) -> bool {
    &&& 0 <= at < rows.len()
    &&& rows[at].state == state
    &&& forall|i: int|
        0 <= i < rows.len() && (#[trigger] rows[i]).state == state ==> rows[i].generation
            <= rows[at].generation
}

/// Whether no row is in a state.
pub open spec fn lacks(rows: Seq<GenerationRow>, state: GenerationState) -> bool {
    forall|i: int| 0 <= i < rows.len() ==> (#[trigger] rows[i]).state != state
}

proof fn leaders_are_newest(rows: Seq<GenerationRow>, state: GenerationState, at: int)
    requires
        crate::index::generations::numbers_differ(rows),
    ensures
        leads(rows, state, at) ==> newest_row(rows, state) == Some(rows[at]),
        lacks(rows, state) ==> newest_row(rows, state) is None,
{
    if leads(rows, state, at) {
        assert(crate::index::generations::in_state(rows, at, state));
        assert(crate::index::generations::is_newest(rows, state, at));
        newest_row_is_at(rows, state, at);
    }
}

/// While a server is indexed its status shows the build: when it was started,
/// how far it is, how it is limited and why it is held up. It is promoting while
/// its generation is promoted, refreshing where an index is in use, partial
/// where only a part of one is, and failed where only a failure is stored.
pub proof fn a_running_build_shows(
    manager: IndexManager,
    server: Seq<char>,
    rows: Seq<GenerationRow>,
    read_error: Option<Seq<char>>,
    storage: StorageDiagnostics,
    host: HostMetrics,
    now: Instant,
    wall: SystemTime,
    active: int,
    staging: int,
    failed: int,
)
    requires
        crate::index::generations::numbers_differ(rows),
        manager.runtime@.contains_key(server),
        manager.runtime@[server].build is Some,
        leads(rows, GenerationState::Active, active) || lacks(rows, GenerationState::Active),
        leads(rows, GenerationState::Staging, staging) || lacks(rows, GenerationState::Staging),
        leads(rows, GenerationState::Failed, failed) || lacks(rows, GenerationState::Failed),
    ensures
        ({
            let build = manager.runtime@[server].build->0;
            let status = manager.full_status(server, rows, read_error, storage, host, now, wall);
            let promoting = manager.promoting@.contains(server);
            let indexed = leads(rows, GenerationState::Active, active);
            let begun = leads(rows, GenerationState::Staging, staging);
            let broken = leads(rows, GenerationState::Failed, failed);
            let row = if indexed {
                rows[active]
            } else if begun {
                rows[staging]
            } else {
                rows[failed]
            };
            &&& status.state is Promoting <==> promoting
            &&& !promoting && indexed ==> status.state is Refreshing
            &&& !promoting && !indexed && (begun || !broken) ==> status.state is Partial
            &&& !promoting && !indexed && !begun && broken ==> status.state is Failed
            &&& status.progress == build.progress
            &&& status.started_at == Some(build.started_at@)
            &&& status.scheduler.last_attempt_at == Some(build.started_at@)
            &&& status.effective_limits == build.effective_limits
            &&& status.controller_state == build.controller_state
            &&& status.pause_reason == build.pause_reason
            &&& status.recovery_deadline is Some == build.recovery_deadline is Some
            &&& status.storage.last_commit_latency_ms == build.last_commit_latency_ms
            &&& indexed || begun || broken ==> {
                &&& status.entry_count == row.entry_count
                &&& status.unique_item_count == row.unique_item_count
                &&& status.completed_at == crate::text::optional_view(row.completed_at)
                &&& status.organization == row.organization
                &&& status.source == row.source
            }
            &&& !indexed && !begun && !broken && build.progress is Some ==> {
                &&& status.entry_count == (build.progress->0).entries_seen
                &&& status.unique_item_count == (build.progress->0).unique_items
            }
        }),
{
    leaders_are_newest(rows, GenerationState::Active, active);
    leaders_are_newest(rows, GenerationState::Staging, staging);
    leaders_are_newest(rows, GenerationState::Failed, failed);
}

/// With no build running and nothing gone wrong since, the status shows what is
/// stored: the active generation, which is stale once its interval has passed,
/// and failed once a later build has; else a generation that was begun, else one
/// that failed, else nothing.
pub proof fn a_stored_index_shows(
    manager: IndexManager,
    server: Seq<char>,
    rows: Seq<GenerationRow>,
    storage: StorageDiagnostics,
    host: HostMetrics,
    now: Instant,
    wall: SystemTime,
    active: int,
    staging: int,
    failed: int,
)
    requires
        crate::index::generations::numbers_differ(rows),
        manager.runtime@.contains_key(server) ==> manager.runtime@[server].build is None
            && manager.runtime@[server].last_error is None,
        leads(rows, GenerationState::Active, active) || lacks(rows, GenerationState::Active),
        leads(rows, GenerationState::Staging, staging) || lacks(rows, GenerationState::Staging),
        leads(rows, GenerationState::Failed, failed) || lacks(rows, GenerationState::Failed),
    ensures
        ({
            let status = manager.full_status(server, rows, None, storage, host, now, wall);
            let indexed = leads(rows, GenerationState::Active, active);
            let begun = leads(rows, GenerationState::Staging, staging);
            let broken = leads(rows, GenerationState::Failed, failed);
            let row = if indexed {
                rows[active]
            } else if begun {
                rows[staging]
            } else {
                rows[failed]
            };
            let completed = crate::index::schedule::parsed_stamp((row.completed_at->0)@);
            let old = row.completed_at is Some && completed is Some && wall.nanos
                - (completed->0).nanos > manager.settings.refresh_interval_seconds
                * 1_000_000_000;
            &&& indexed && broken && rows[failed].generation > rows[active].generation ==> {
                &&& status.state is Failed
                &&& status.last_error == crate::text::optional_view(rows[failed].last_error)
            }
            &&& indexed && !(broken && rows[failed].generation > rows[active].generation) ==> {
                &&& status.state is Stale <==> old
                &&& status.state is Ready <==> !old
                &&& status.last_error == crate::text::optional_view(row.last_error)
            }
            &&& !indexed && begun ==> status.state is Partial
            &&& !indexed && !begun && broken ==> status.state is Failed && status.last_error
                == crate::text::optional_view(row.last_error)
            &&& !indexed && !begun && !broken ==> {
                &&& status.state is NotIndexed
                &&& status.entry_count == 0
                &&& status.unique_item_count == 0
                &&& status.started_at is None
                &&& status.completed_at is None
            }
            &&& indexed || begun || broken ==> {
                &&& status.entry_count == row.entry_count
                &&& status.unique_item_count == row.unique_item_count
                &&& status.started_at == Some(row.started_at@)
                &&& status.completed_at == crate::text::optional_view(row.completed_at)
                &&& status.organization == row.organization
                &&& status.source == row.source
            }
            &&& status.active_generation == if indexed {
                rows[active].generation as int
            } else {
                0
            }
            &&& status.progress is None
            &&& status.effective_limits is None
            &&& status.controller_state is None
            &&& status.pause_reason is None
            &&& status.recovery_deadline is None
        }),
{
    leaders_are_newest(rows, GenerationState::Active, active);
    leaders_are_newest(rows, GenerationState::Staging, staging);
    leaders_are_newest(rows, GenerationState::Failed, failed);
}

/// What went wrong outside the stored generations shows: a failure since the
/// last build makes the status a failed one, and a failure to read the stored
/// generations is named before any other.
pub proof fn failures_show(
    manager: IndexManager,
    server: Seq<char>,
    rows: Seq<GenerationRow>,
    read_error: Option<Seq<char>>,
    storage: StorageDiagnostics,
    host: HostMetrics,
    now: Instant,
    wall: SystemTime,
)
    ensures
        ({
            let status = manager.full_status(server, rows, read_error, storage, host, now, wall);
            &&& read_error is Some ==> status.last_error == read_error
            &&& manager.runtime@.contains_key(server) && manager.runtime@[server].build is None
                && manager.runtime@[server].last_error is Some ==> {
                &&& status.state is Failed
                &&& read_error is None ==> status.last_error == Some(
                    (manager.runtime@[server].last_error->0)@,
                )
            }
        }),
{
}

/// Every status of a configured server names it, and says what is known of its
/// files, its host, its health and its foreground load.
pub proof fn a_status_is_complete(
    manager: IndexManager,
    server: Seq<char>,
    rows: Seq<GenerationRow>,
    read_error: Option<Seq<char>>,
    storage: StorageDiagnostics,
    host: HostMetrics,
    now: Instant,
    wall: SystemTime,
)
    ensures
        ({
            let status = manager.full_status(server, rows, read_error, storage, host, now, wall);
            let bytes = storage.main_bytes + storage.wal_bytes + storage.shm_bytes;
            &&& status.server == server
            &&& status.configured
            &&& status.sentinel_configured == manager.settings.sentinel_tag is Some
            &&& status.host_metrics == host
            &&& status.foreground_metrics == manager.foreground_summary(server)
            &&& manager.runtime@.contains_key(server) ==> status.health
                == manager.runtime@[server].health
            &&& status.storage.main_bytes == storage.main_bytes
            &&& status.storage.wal_bytes == storage.wal_bytes
            &&& status.storage.shm_bytes == storage.shm_bytes
            &&& status.storage.free_bytes == storage.free_bytes
            &&& bytes <= u64::MAX ==> status.database_bytes == bytes
        }),
{
}

/// The scheduler's part of a status tells the pending retry and the failures
/// that led to it, when the index in use was completed and how long that took,
/// and when its next refresh is due: after its interval, and before that and the
/// jitter have passed.
pub proof fn the_schedule_shows(
    manager: IndexManager,
    server: Seq<char>,
    rows: Seq<GenerationRow>,
    active: int,
    failed: int,
)
    requires
        crate::index::generations::numbers_differ(rows),
        leads(rows, GenerationState::Active, active) || lacks(rows, GenerationState::Active),
        leads(rows, GenerationState::Failed, failed) || lacks(rows, GenerationState::Failed),
    ensures
        ({
            let shown = manager.schedule_view(server, rows);
            let indexed = leads(rows, GenerationState::Active, active);
            let broken = leads(rows, GenerationState::Failed, failed);
            let known = manager.runtime@.contains_key(server);
            let state = manager.runtime@[server];
            let completed = crate::index::schedule::parsed_stamp(
                (rows[active].completed_at->0)@,
            );
            let started = crate::index::schedule::parsed_stamp(rows[active].started_at@);
            let dated = indexed && rows[active].completed_at is Some && completed is Some;
            &&& known ==> shown.consecutive_failures == state.retry.consecutive_failures
            &&& known ==> shown.circuit_open == state.retry.circuit_open
            &&& known ==> shown.retry_after is Some == state.retry.retry_after is Some
            &&& known && state.retry.retry_after is Some && (state.retry.retry_after->0).nanos
                >= 0 ==> shown.retry_after == Some(
                crate::numerals::decimal(
                    ((state.retry.retry_after->0).nanos / 1_000_000) as nat,
                ),
            )
            &&& indexed ==> shown.last_success_at == crate::text::optional_view(
                rows[active].completed_at,
            )
            &&& !indexed ==> shown.last_success_at is None && shown.last_success_duration_ms
                is None && shown.next_refresh_at is None
            &&& !(known && state.build is Some) && broken ==> shown.last_attempt_at == Some(
                rows[failed].started_at@,
            )
            &&& !(known && state.build is Some) && !broken && indexed ==> shown.last_attempt_at
                == Some(rows[active].started_at@)
            &&& !(known && state.build is Some) && !broken && !indexed ==> shown.last_attempt_at
                is None
            &&& shown.next_refresh_at is Some <==> dated
            &&& shown.last_success_duration_ms is Some <==> dated && started is Some
                && (started->0).nanos <= (completed->0).nanos
            &&& shown.last_success_duration_ms is Some ==> shown.last_success_duration_ms->0
                == ((completed->0).nanos - (started->0).nanos) / 1_000_000
        }),
{
    leaders_are_newest(rows, GenerationState::Active, active);
    leaders_are_newest(rows, GenerationState::Failed, failed);
}

/// A refresh is due once the interval has passed since the index was completed,
/// and not later than the jitter allows after that. Every interval is at least
/// a second.
pub proof fn refreshes_keep_their_interval(
    completed: SystemTime,
    server: Seq<char>,
    refresh_interval_seconds: u64,
    schedule_jitter_seconds: u64,
)
    ensures
        ({
            let due = refresh_due(
                completed,
                server,
                refresh_interval_seconds,
                schedule_jitter_seconds,
            );
            let interval = if refresh_interval_seconds == 0 {
                1
            } else {
                refresh_interval_seconds as int
            };
            &&& completed.nanos + interval * 1_000_000_000 <= due
            &&& due <= completed.nanos + (interval + schedule_jitter_seconds) * 1_000_000_000
        }),
{
    crate::index::schedule::jitter_is_bounded(server, schedule_jitter_seconds);
}

/// The status of a server of which nothing is known says so: nothing is stored,
/// counted, scheduled, measured or limited.
pub proof fn blank_statuses_say_nothing(server: Seq<char>, configured: bool, state: IndexState)
    ensures
        ({
            let status = blank(server, configured, state);
            &&& status.server == server && status.configured == configured && status.state == state
            &&& status.active_generation == 0 && status.entry_count == 0
            &&& status.unique_item_count == 0 && status.database_bytes == 0
            &&& status.started_at is None && status.completed_at is None
            &&& status.last_error is None && status.progress is None
            &&& status.organization is Unspecified && status.source is Unspecified
            &&& status.effective_limits is None && status.controller_state is None
            &&& status.pause_reason is None && status.recovery_deadline is None
            &&& status.health is Unavailable && !status.sentinel_configured
            &&& status.foreground_metrics.active_count == 0
            &&& status.foreground_metrics.operations == 0 && status.foreground_metrics.errors == 0
            &&& status.foreground_metrics.bad_quality == 0
            &&& !status.foreground_metrics.last_error
            &&& !status.foreground_metrics.last_bad_quality
            &&& status.foreground_metrics.latency_p50_ms is None
            &&& status.foreground_metrics.latency_p95_ms is None
            &&& status.foreground_metrics.latency_max_ms is None
            &&& status.storage.main_bytes == 0 && status.storage.wal_bytes == 0
            &&& status.storage.shm_bytes == 0 && status.storage.free_bytes is None
            &&& status.storage.last_commit_latency_ms is None
            &&& status.scheduler.next_refresh_at is None
            &&& status.scheduler.last_attempt_at is None
            &&& status.scheduler.last_success_at is None
            &&& status.scheduler.last_success_duration_ms is None
            &&& status.scheduler.retry_after is None
            &&& status.scheduler.consecutive_failures == 0 && !status.scheduler.circuit_open
        }),
{
}

} // verus!
