//! When servers are indexed without being asked to.
use crate::config::InitialBuildPolicy;
use crate::index::builds::at_least_one;
use crate::index::manager::IndexManager;
use crate::index::profile::{index_profile_is_compatible, StoredIndexProfile};
use crate::index::schedule::{deterministic_jitter, parse_timestamp, retry_delay};
use crate::index::status::{IndexState, IndexStatus};
use crate::opc::{BrowseSource, NamespaceOrganization};
use crate::time::{Duration, SystemTime};
use vstd::prelude::*;

verus! {

/// The first step of an automatic refresh.
#[derive(Debug, Clone, Copy, PartialEq, Eq, Structural)]
pub enum DueStep {
    Nothing,
    /// Compare the index with what the server reports.
    ProbeProfile,
    Refresh,
}

/// What a compared index calls for.
#[derive(Debug, Clone, Copy, PartialEq, Eq, Structural)]
pub enum DueAction {
    Nothing,
    Refresh,
    /// Drop the index and build it anew at once.
    Rebuild,
}

/// Whether the index of a server no longer fits what the server reports. An
/// unknown profile counts as fitting.
pub fn active_profile_changed(
    stored: Option<StoredIndexProfile>,
    organization: NamespaceOrganization,
    source: BrowseSource,
) -> (changed: bool)
    ensures
        changed == (stored matches Some(profile) && !crate::index::profile::compatible(
            profile.organization,
            profile.source,
            profile.compatibility_fallback,
            organization,
            source,
        )),
{
    match stored {
        Some(profile) => !index_profile_is_compatible(
            profile.organization,
            profile.source,
            profile.compatibility_fallback,
            organization,
            source,
        ),
        None => false,
    }
}

/// The longest time between two rounds of the scheduler, in seconds.
pub const ROUND_SECONDS: u64 = 60;

/// How long the scheduler sleeps before its next round: as long as the server
/// that is due first, and a minute at most.
pub fn next_round(delays: &Vec<Duration>) -> (delay: Duration)
    ensures
        delay.nanos <= Duration::of_secs(ROUND_SECONDS).nanos,
        delay.nanos <= 60_000_000_000,
        delays@.len() == 0 ==> delay.nanos == 60_000_000_000,
        forall|i: int| 0 <= i < delays@.len() ==> delay.nanos <= (#[trigger] delays@[i]).nanos,
        delay == Duration::of_secs(ROUND_SECONDS) || delays@.contains(delay),
{
    let mut delay = Duration::from_secs(ROUND_SECONDS);
    let mut i: usize = 0;
    while i < delays.len()
        invariant
            i <= delays.len(),
            delay.nanos <= Duration::of_secs(ROUND_SECONDS).nanos,
            forall|j: int| 0 <= j < i ==> delay.nanos <= (#[trigger] delays@[j]).nanos,
            delay == Duration::of_secs(ROUND_SECONDS) || delays@.contains(delay),
        decreases delays.len() - i,
    {
        if delays[i].nanos < delay.nanos {
            delay = delays[i];
            assert(delays@[i as int] == delay);
        }
        i += 1;
    }
    delay
}

/// The state of background tasks: how many run, and whether more may start.
#[derive(Debug, Clone, Copy, PartialEq, Eq, Structural)]
pub struct BackgroundTaskState {
    pub active: usize,
    pub shutting_down: bool,
}

impl BackgroundTaskState {
    pub fn new() -> (state: Self)
        ensures
            state == (BackgroundTaskState { active: 0, shutting_down: false }),
    {
        BackgroundTaskState { active: 0, shutting_down: false }
    }

    pub fn is_shutting_down(&self) -> (down: bool)
        ensures
            down == self.shutting_down,
    {
        self.shutting_down
    }

    /// Asks for the shutdown and tells whether it had not been asked for
    /// before.
    pub fn request_shutdown(&mut self) -> (first: bool)
        ensures
            first == !old(self).shutting_down,
            *final(self) == (BackgroundTaskState { shutting_down: true, ..*old(self) }),
    {
        let first = !self.shutting_down;
        self.shutting_down = true;
        first
    }

    /// Counts a task in, unless the gateway is shutting down.
    pub fn start(&mut self) -> (started: bool)
        ensures
            started == !old(self).shutting_down,
            final(self).shutting_down == old(self).shutting_down,
            final(self).active == (if started && old(self).active < usize::MAX {
                old(self).active + 1
            } else {
                old(self).active as int
            }),
    {
        if self.shutting_down {
            return false;
        }
        self.active = self.active.saturating_add(1);
        true
    }

    /// Counts a task out and tells whether it was the last one.
    pub fn finish(&mut self) -> (idle: bool)
        ensures
            final(self).shutting_down == old(self).shutting_down,
            final(self).active == (if old(self).active > 0 {
                old(self).active - 1
            } else {
                0
            }),
            idle == (final(self).active == 0),
    {
        self.active = self.active.saturating_sub(1);
        self.active == 0
    }
}

impl IndexManager {
    /// Whether a server may be refreshed without being asked to. A first build
    /// goes by its policy, a later one by the maintenance windows.
    pub open spec fn allows_automatic(self, active_generation: u64, window_open: bool) -> bool {
        if active_generation == 0 {
            match self.settings.initial_build_policy {
                InitialBuildPolicy::Immediate => true,
                InitialBuildPolicy::Manual => false,
                InitialBuildPolicy::MaintenanceWindow => window_open,
            }
        } else {
            self.settings.maintenance_windows@.len() == 0 || window_open
        }
    }

    pub fn automatic_refresh_allowed(&self, status: &IndexStatus, window_open: bool) -> (allowed:
        bool)
        ensures
            allowed == self.allows_automatic(status.active_generation, window_open),
    {
        if status.active_generation == 0 {
            match self.settings.initial_build_policy {
                InitialBuildPolicy::Immediate => true,
                InitialBuildPolicy::Manual => false,
                InitialBuildPolicy::MaintenanceWindow => window_open,
            }
        } else {
            self.settings.maintenance_windows.len() == 0 || window_open
        }
    }

    /// What an automatic refresh starts with. A server with an index is
    /// compared first; one without goes straight to its build.
    pub open spec fn due(self, status: IndexStatus, window_open: bool) -> DueStep {
        if status.active_generation > 0 && status.state != IndexState::Refreshing {
            DueStep::ProbeProfile
        } else if (status.state == IndexState::NotIndexed || status.state == IndexState::Partial
            || status.state == IndexState::Stale || status.state == IndexState::Failed)
            && self.allows_automatic(status.active_generation, window_open) {
            DueStep::Refresh
        } else {
            DueStep::Nothing
        }
    }

    pub fn refresh_if_due(&self, status: &IndexStatus, window_open: bool) -> (step: DueStep)
        ensures
            step == self.due(*status, window_open),
    {
        if status.active_generation > 0 && status.state != IndexState::Refreshing {
            return DueStep::ProbeProfile;
        }
        let open = matches!(
            status.state,
            IndexState::NotIndexed | IndexState::Partial | IndexState::Stale | IndexState::Failed
        );
        if open && self.automatic_refresh_allowed(status, window_open) {
            DueStep::Refresh
        } else {
            DueStep::Nothing
        }
    }

    /// What a compared index calls for: one that no longer fits is rebuilt, one
    /// that fits is refreshed once it is stale or failed, both only when
    /// allowed.
    pub open spec fn due_after_probe(
        self,
        status: IndexStatus,
        profile_changed: bool,
        window_open: bool,
    ) -> DueAction {
        if !self.allows_automatic(status.active_generation, window_open) {
            DueAction::Nothing
        } else if profile_changed {
            DueAction::Rebuild
        } else if status.state == IndexState::Stale || status.state == IndexState::Failed
            || status.state == IndexState::NotIndexed {
            DueAction::Refresh
        } else {
            DueAction::Nothing
        }
    }

    pub fn refresh_after_probe(
        &self,
        status: &IndexStatus,
        profile_changed: bool,
        window_open: bool,
    ) -> (action: DueAction)
        ensures
            action == self.due_after_probe(*status, profile_changed, window_open),
    {
        if !self.automatic_refresh_allowed(status, window_open) {
            return DueAction::Nothing;
        }
        if profile_changed {
            return DueAction::Rebuild;
        }
        if matches!(
            status.state,
            IndexState::Stale | IndexState::Failed | IndexState::NotIndexed
        ) {
            DueAction::Refresh
        } else {
            DueAction::Nothing
        }
    }

    /// The time until a pending retry, at least a second.
    pub open spec fn retry_wait(self, server: Seq<char>, wall: SystemTime) -> Option<Duration> {
        match crate::index::manager::state_of(self.runtime@, server).retry.retry_after {
            Some(at) => match at.since(wall) {
                Some(remaining) => Some(remaining.longest(Duration::of_secs(1))),
                None => None,
            },
            None => None,
        }
    }

    /// The time until the next scheduled refresh of a completed index.
    pub open spec fn refresh_wait(
        self,
        server: Seq<char>,
        completed_at: Option<Seq<char>>,
        wall: SystemTime,
    ) -> Duration {
        let completed = match completed_at {
            Some(text) => crate::index::schedule::parsed_stamp(text),
            None => None,
        };
        match completed {
            Some(at) => if wall.nanos >= at.nanos {
                let due = crate::index::status::refresh_due(
                    at,
                    server,
                    self.settings.refresh_interval_seconds,
                    self.settings.schedule_jitter_seconds,
                );
                Duration {
                    nanos: if due > wall.nanos {
                        (due - wall.nanos) as u128
                    } else {
                        0
                    },
                }
            } else {
                Duration::of_secs(1)
            },
            None => Duration::of_secs(1),
        }
    }

    pub open spec fn first_retry(self, server: Seq<char>) -> Duration {
        Duration::of_secs(
            crate::index::schedule::retry_seconds(
                server,
                1,
                false,
                self.settings.circuit_open_seconds,
            ) as u64,
        )
    }

    /// How long the scheduler leaves a server alone. `status` is absent where it
    /// could not be read.
    pub open spec fn wait_for(
        self,
        server: Seq<char>,
        status: Option<IndexStatus>,
        window_open: bool,
        wall: SystemTime,
    ) -> Duration {
        match self.retry_wait(server, wall) {
            Some(remaining) => remaining,
            None => match status {
                None => self.first_retry(server),
                Some(status) => match status.state {
                    IndexState::Ready => self.refresh_wait(
                        server,
                        crate::text::optional_view(status.completed_at),
                        wall,
                    ),
                    IndexState::Stale => if window_open {
                        self.refresh_wait(
                            server,
                            crate::text::optional_view(status.completed_at),
                            wall,
                        )
                    } else if self.settings.maintenance_windows@.len() == 0 {
                        Duration::of_secs(1)
                    } else {
                        Duration::of_secs(60)
                    },
                    IndexState::Refreshing => Duration::of_secs(30),
                    IndexState::Partial => Duration::of_secs(30),
                    IndexState::Promoting => Duration::of_secs(1),
                    IndexState::Failed => self.first_retry(server),
                    IndexState::NotIndexed => match self.settings.initial_build_policy {
                        InitialBuildPolicy::Immediate => self.first_retry(server),
                        InitialBuildPolicy::MaintenanceWindow => if
                        self.settings.maintenance_windows@.len() > 0 {
                            Duration::of_secs(60)
                        } else {
                            Duration::of_secs(3600)
                        },
                        InitialBuildPolicy::Manual => Duration::of_secs(3600),
                    },
                },
            },
        }
    }

    fn refresh_remaining(&self, server: &str, completed_at: &Option<String>, wall: SystemTime) -> (wait:
        Duration)
        ensures
            wait == self.refresh_wait(server@, crate::text::optional_view(*completed_at), wall),
    {
        let completed = match completed_at {
            Some(text) => parse_timestamp(text.as_str()),
            None => None,
        };
        match completed {
            Some(at) => match wall.duration_since(at) {
                Some(elapsed) => {
                    proof {
                        crate::index::schedule::jitter_is_bounded(
                            server@,
                            self.settings.schedule_jitter_seconds,
                        );
                    }
                    let scheduled = Duration::from_secs(
                        at_least_one(self.settings.refresh_interval_seconds),
                    ).saturating_add(
                        deterministic_jitter(server, self.settings.schedule_jitter_seconds),
                    );
                    scheduled.saturating_sub(elapsed)
                },
                None => Duration::from_secs(1),
            },
            None => Duration::from_secs(1),
        }
    }

    pub fn background_refresh_delay(
        &self,
        server: &str,
        status: Option<&IndexStatus>,
        window_open: bool,
        wall: SystemTime,
    ) -> (delay: Duration)
        ensures
            delay == self.wait_for(
                server@,
                match status {
                    Some(status) => Some(*status),
                    None => None,
                },
                window_open,
                wall,
            ),
    {
        if let Some(state) = self.runtime.get(server) {
            if let Some(at) = state.retry.retry_after {
                if let Some(remaining) = at.duration_since(wall) {
                    return remaining.max(Duration::from_secs(1));
                }
            }
        }
        let status = match status {
            Some(status) => status,
            None => return retry_delay(server, 1, false, self.settings.circuit_open_seconds),
        };
        match status.state {
            IndexState::Ready => self.refresh_remaining(server, &status.completed_at, wall),
            IndexState::Stale => {
                if window_open {
                    self.refresh_remaining(server, &status.completed_at, wall)
                } else if self.settings.maintenance_windows.len() == 0 {
                    Duration::from_secs(1)
                } else {
                    Duration::from_secs(60)
                }
            },
            IndexState::Refreshing => Duration::from_secs(30),
            IndexState::Partial => Duration::from_secs(30),
            IndexState::Promoting => Duration::from_secs(1),
            IndexState::Failed => retry_delay(
                server,
                1,
                false,
                self.settings.circuit_open_seconds,
            ),
            IndexState::NotIndexed => match self.settings.initial_build_policy {
                InitialBuildPolicy::Immediate => retry_delay(
                    server,
                    1,
                    false,
                    self.settings.circuit_open_seconds,
                ),
                InitialBuildPolicy::MaintenanceWindow => {
                    if self.settings.maintenance_windows.len() > 0 {
                        Duration::from_secs(60)
                    } else {
                        Duration::from_secs(3600)
                    }
                },
                InitialBuildPolicy::Manual => Duration::from_secs(3600),
            },
        }
    }

    /// Whether the scheduler has anything to run for.
    pub fn start_background_indexing(&self, already_started: bool) -> (start: bool)
        ensures
            start == (self.settings.enabled && !self.settings.paused && !already_started
                && self.settings.servers@.len() > 0),
    {
        self.settings.enabled && !self.settings.paused && !already_started
            && self.settings.servers.len() > 0
    }
}

/// No automatic build of a server is started before its first manual one, where
/// that is the policy.
pub proof fn manual_policy_waits_for_the_operator(
    manager: IndexManager,
    status: IndexStatus,
    window_open: bool,
    profile_changed: bool,
)
    requires
        manager.settings.initial_build_policy == InitialBuildPolicy::Manual,
        status.active_generation == 0,
    ensures
        manager.due(status, window_open) == DueStep::Nothing,
        manager.due_after_probe(status, profile_changed, window_open) == DueAction::Nothing,
{
}

/// With maintenance windows configured, an existing index is refreshed without
/// being asked to only while one is open.
pub proof fn refreshes_keep_to_the_windows(
    manager: IndexManager,
    status: IndexStatus,
    profile_changed: bool,
)
    requires
        manager.settings.maintenance_windows@.len() > 0,
        status.active_generation > 0,
    ensures
        manager.due(status, false) != DueStep::Refresh,
        manager.due_after_probe(status, profile_changed, false) == DueAction::Nothing,
{
}

/// Where automatic refreshes are allowed, an index that no longer fits its
/// server is rebuilt, and one that fits is refreshed once it is stale or its
/// last build failed; one that fits and is neither stale, failed nor missing is
/// left as it is. An existing index may be refreshed in an open maintenance
/// window, and at any time where none are configured.
pub proof fn overdue_indexes_are_refreshed(
    manager: IndexManager,
    status: IndexStatus,
    profile_changed: bool,
    window_open: bool,
)
    requires
        status.active_generation > 0,
        manager.settings.maintenance_windows@.len() == 0 || window_open,
    ensures
        profile_changed ==> manager.due_after_probe(status, profile_changed, window_open)
            == DueAction::Rebuild,
        !profile_changed && (status.state is Stale || status.state is Failed
            || status.state is NotIndexed) ==> manager.due_after_probe(
            status,
            profile_changed,
            window_open,
        ) == DueAction::Refresh,
        !profile_changed && (status.state is Ready || status.state is Partial
            || status.state is Refreshing || status.state is Promoting)
            ==> manager.due_after_probe(status, profile_changed, window_open)
            == DueAction::Nothing,
{
}

/// A server with an index is compared with what it reports before anything is
/// done, unless it is being refreshed already; one that is being refreshed, or
/// whose first index is ready or being promoted, is left alone.
pub proof fn indexes_are_compared_first(
    manager: IndexManager,
    status: IndexStatus,
    window_open: bool,
)
    ensures
        status.active_generation > 0 && !(status.state is Refreshing) ==> manager.due(
            status,
            window_open,
        ) == DueStep::ProbeProfile,
        status.active_generation == 0 ==> manager.due(status, window_open)
            != DueStep::ProbeProfile,
        status.state is Refreshing ==> manager.due(status, window_open) == DueStep::Nothing,
        status.active_generation == 0 && (status.state is Ready || status.state is Promoting)
            ==> manager.due(status, window_open) == DueStep::Nothing,
{
}

/// A server without an index gets its first one: at once where that is the
/// policy, and otherwise in an open maintenance window where that is.
pub proof fn first_builds_go_by_their_policy(
    manager: IndexManager,
    status: IndexStatus,
    window_open: bool,
)
    requires
        status.active_generation == 0,
        status.state is NotIndexed || status.state is Partial || status.state is Stale
            || status.state is Failed,
    ensures
        manager.settings.initial_build_policy is Immediate ==> manager.due(status, window_open)
            == DueStep::Refresh,
        manager.settings.initial_build_policy is MaintenanceWindow ==> manager.due(
            status,
            window_open,
        ) == (if window_open {
            DueStep::Refresh
        } else {
            DueStep::Nothing
        }),
        manager.settings.initial_build_policy is Manual ==> manager.due(status, window_open)
            == DueStep::Nothing,
{
}

/// A pending retry comes first: the scheduler returns to its server when it is
/// due, and after a second at the earliest.
pub proof fn retries_are_waited_for(
    manager: IndexManager,
    server: Seq<char>,
    status: Option<IndexStatus>,
    window_open: bool,
    wall: SystemTime,
)
    requires
        manager.runtime@.contains_key(server),
        manager.runtime@[server].retry.retry_after is Some,
        (manager.runtime@[server].retry.retry_after->0).nanos >= wall.nanos,
    ensures
        ({
            let left = (manager.runtime@[server].retry.retry_after->0).nanos - wall.nanos;
            manager.wait_for(server, status, window_open, wall).nanos == if left
                < 1_000_000_000 {
                1_000_000_000
            } else {
                left
            }
        }),
{
}

/// With no retry pending, a ready index is left alone until its interval and its
/// share of the jitter have passed since it was completed, and no longer.
pub proof fn ready_indexes_wait_for_their_interval(
    manager: IndexManager,
    server: Seq<char>,
    status: IndexStatus,
    window_open: bool,
    wall: SystemTime,
)
    requires
        manager.retry_wait(server, wall) is None,
        status.state is Ready || (status.state is Stale && window_open),
        status.completed_at is Some,
        crate::index::schedule::parsed_stamp((status.completed_at->0)@) is Some,
        (crate::index::schedule::parsed_stamp((status.completed_at->0)@)->0).nanos <= wall.nanos,
    ensures
        ({
            let completed = crate::index::schedule::parsed_stamp(
                (status.completed_at->0)@,
            )->0;
            let interval = if manager.settings.refresh_interval_seconds == 0 {
                1
            } else {
                manager.settings.refresh_interval_seconds as int
            };
            let wait = manager.wait_for(server, Some(status), window_open, wall).nanos;
            let passed = wall.nanos - completed.nanos;
            &&& interval * 1_000_000_000 - passed <= wait
            &&& wait > 0 ==> wait <= (interval + manager.settings.schedule_jitter_seconds)
                * 1_000_000_000 - passed
        }),
{
    crate::index::schedule::jitter_is_bounded(server, manager.settings.schedule_jitter_seconds);
}

/// How long the scheduler leaves a server alone with no retry pending: half a
/// minute while it is indexed, a minute where it waits for a maintenance
/// window, an hour where only the operator can change anything, and a second
/// where there is something to do at once.
pub proof fn the_scheduler_comes_back(
    manager: IndexManager,
    server: Seq<char>,
    status: IndexStatus,
    window_open: bool,
    wall: SystemTime,
)
    requires
        manager.retry_wait(server, wall) is None,
    ensures
        ({
            let wait = manager.wait_for(server, Some(status), window_open, wall).nanos;
            let windows = manager.settings.maintenance_windows@.len() > 0;
            let policy = manager.settings.initial_build_policy;
            &&& status.state is Refreshing || status.state is Partial ==> wait == 30_000_000_000
            &&& status.state is Promoting ==> wait == 1_000_000_000
            &&& status.state is Stale && !window_open && windows ==> wait == 60_000_000_000
            &&& status.state is Stale && !window_open && !windows ==> wait == 1_000_000_000
            &&& status.state is NotIndexed && policy is Manual ==> wait == 3_600_000_000_000
            &&& status.state is NotIndexed && policy is MaintenanceWindow && windows ==> wait
                == 60_000_000_000
            &&& status.state is NotIndexed && policy is MaintenanceWindow && !windows ==> wait
                == 3_600_000_000_000
            &&& status.state is Failed || (status.state is NotIndexed && policy is Immediate)
                ==> wait == manager.wait_for(server, None, window_open, wall).nanos
        }),
{
}

} // verus!
