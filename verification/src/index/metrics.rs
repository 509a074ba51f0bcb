//! Rolling metrics of foreground operations.

use crate::time::{Duration, Instant};
use std::collections::VecDeque;
use vstd::prelude::*;

verus! {

/// How many of the latest latencies count.
pub const LATENCY_WINDOW: usize = 128;

#[derive(Debug, Clone, Copy, PartialEq, Eq)]
pub struct ForegroundMetrics {
    pub active_count: u64,
    pub operations: u64,
    pub errors: u64,
    pub bad_quality: u64,
    pub latency_p50_ms: Option<u64>,
    pub latency_p95_ms: Option<u64>,
    pub latency_max_ms: Option<u64>,
    pub last_error: bool,
    pub last_bad_quality: bool,
}

impl ForegroundMetrics {
    /// The metrics of a server on which nothing was recorded yet.
    pub open spec fn unused(active_count: u64) -> Self {
        ForegroundMetrics {
            active_count,
            operations: 0,
            errors: 0,
            bad_quality: 0,
            latency_p50_ms: None,
            latency_p95_ms: None,
            latency_max_ms: None,
            last_error: false,
            last_bad_quality: false,
        }
    }

    pub fn without_operations(active_count: u64) -> (metrics: Self)
        ensures
            metrics == Self::unused(active_count),
    {
        ForegroundMetrics {
            active_count,
            operations: 0,
            errors: 0,
            bad_quality: 0,
            latency_p50_ms: None,
            latency_p95_ms: None,
            latency_max_ms: None,
            last_error: false,
            last_bad_quality: false,
        }
    }
}

impl Default for ForegroundMetrics {
    fn default() -> (metrics: Self)
        ensures
            metrics == ForegroundMetrics::unused(0),
    {
        ForegroundMetrics::without_operations(0)
    }
}

/// Values in ascending order.
pub open spec fn ascending(values: Seq<u64>) -> Seq<u64> {
    values.sort_by(|a: u64, b: u64| a <= b)
}

/// The place of a percentile among `len` values in ascending order, by the
/// nearest-rank method.
pub open spec fn percentile_place(len: int, percentile: int) -> int {
    let rank = (len * percentile + 99) / 100;
    let place = if rank < 1 {
        0
    } else {
        rank - 1
    };
    if place > len - 1 {
        len - 1
    } else {
        place
    }
}

/// A percentile of values that are already in order.
pub open spec fn percentile_of(sorted: Seq<u64>, percentile: int) -> Option<u64> {
    if sorted.len() == 0 {
        None
    } else {
        Some(sorted[percentile_place(sorted.len() as int, percentile)])
    }
}

pub fn percentile(values: &Vec<u64>, percent: usize) -> (value: Option<u64>)
    requires
        values@.len() * percent <= usize::MAX,
    ensures
        value == percentile_of(values@, percent as int),
{
    if values.len() == 0 {
        return None;
    }
    proof {
        assert(values@.len() * percent >= 0) by (nonlinear_arith);
    }
    let scaled: usize = values.len() * percent;
    let whole: usize = scaled / 100;
    let rank: usize = if scaled % 100 > 0 {
        whole + 1
    } else {
        whole
    };
    let place: usize = if rank < 1 {
        0
    } else {
        rank - 1
    };
    let index: usize = if place > values.len() - 1 {
        values.len() - 1
    } else {
        place
    };
    Some(values[index])
}

/// Inserts a value into values in ascending order.
fn insert_ascending(sorted: &mut Vec<u64>, value: u64)
    requires
        vstd::relations::sorted_by(old(sorted)@, |a: u64, b: u64| a <= b),
    ensures
        vstd::relations::sorted_by(final(sorted)@, |a: u64, b: u64| a <= b),
        final(sorted)@.to_multiset() == old(sorted)@.to_multiset().insert(value),
{
    let ghost before = sorted@;
    let ghost leq = |a: u64, b: u64| a <= b;
    let mut at: usize = sorted.len();
    while at > 0 && sorted[at - 1] > value
        invariant
            at <= sorted.len(),
            sorted@ == before,
            forall|k: int| at <= k < sorted.len() ==> #[trigger] sorted@[k] > value,
        decreases at,
    {
        at -= 1;
    }
    sorted.insert(at, value);
    proof {
        assert(sorted@ =~= before.insert(at as int, value));
        vstd::seq_lib::to_multiset_insert(before, at as int, value);
        assert forall|i: int, j: int| 0 <= i < j < sorted.len() implies #[trigger] leq(
            sorted@[i],
            sorted@[j],
        ) by {
            if i < at && j < at {
                assert(leq(before[i], before[j]));
            } else if i < at && j == at {
                if i < at - 1 {
                    assert(leq(before[i], before[at - 1]));
                }
            } else if i < at {
                assert(leq(before[i], before[j - 1]));
            } else if i == at {
                assert(before[j - 1] > value);
            } else {
                assert(leq(before[i - 1], before[j - 1]));
            }
        }
    }
}

#[derive(Debug)]
pub struct ForegroundMetricState {
    pub latencies_ms: VecDeque<u64>,
    pub operations: u64,
    pub errors: u64,
    pub bad_quality: u64,
    pub last_error: bool,
    pub last_bad_quality: bool,
    pub last_health_failure_at: Option<Instant>,
    pub last_bad_quality_at: Option<Instant>,
}

impl Default for ForegroundMetricState {
    fn default() -> (state: Self)
        ensures
            state.latencies_ms@ == Seq::<u64>::empty(),
            state.operations == 0,
            state.errors == 0,
            state.bad_quality == 0,
            !state.last_error,
            !state.last_bad_quality,
            state.last_health_failure_at is None,
            state.last_bad_quality_at is None,
    {
        ForegroundMetricState {
            latencies_ms: VecDeque::new(),
            operations: 0,
            errors: 0,
            bad_quality: 0,
            last_error: false,
            last_bad_quality: false,
            last_health_failure_at: None,
            last_bad_quality_at: None,
        }
    }
}

/// The latest latencies after one more.
pub open spec fn rolled(latencies: Seq<u64>, latency_ms: u64) -> Seq<u64> {
    let all = latencies.push(latency_ms);
    if all.len() > LATENCY_WINDOW {
        all.drop_first()
    } else {
        all
    }
}

/// Whether something recorded is at most `max_age` old.
pub open spec fn recent(recorded: Option<Instant>, now: Instant, max_age: Duration) -> bool {
    recorded matches Some(at) && now.since(at).nanos <= max_age.nanos
}

impl ForegroundMetricState {
    pub open spec fn wf(self) -> bool {
        self.latencies_ms@.len() <= LATENCY_WINDOW
    }

    /// Whether one more operation can be counted.
    pub open spec fn has_room(self, error: bool, bad_quality: bool) -> bool {
        &&& error ==> self.errors < u64::MAX
        &&& bad_quality ==> self.bad_quality < u64::MAX
    }

    /// What recording an operation makes of the state.
    pub open spec fn recorded(
        self,
        before: Self,
        now: Instant,
        latency_ms: u64,
        error: bool,
        bad_quality: bool,
        health_failure: bool,
    ) -> bool {
        &&& self.latencies_ms@ == rolled(before.latencies_ms@, latency_ms)
        &&& self.operations == (if before.operations == u64::MAX {
            u64::MAX as int
        } else {
            before.operations + 1
        })
        &&& self.errors == before.errors + (if error {
            1int
        } else {
            0
        })
        &&& self.bad_quality == before.bad_quality + (if bad_quality {
            1int
        } else {
            0
        })
        &&& self.last_error == error
        &&& self.last_bad_quality == bad_quality
        &&& self.last_health_failure_at == (if health_failure {
            Some(now)
        } else {
            before.last_health_failure_at
        })
        &&& self.last_bad_quality_at == (if bad_quality {
            Some(now)
        } else {
            before.last_bad_quality_at
        })
    }

    pub fn record_health_at(
        &mut self,
        now: Instant,
        latency_ms: u64,
        error: bool,
        bad_quality: bool,
        health_failure: bool,
    )
        requires
            old(self).wf(),
            old(self).has_room(error, bad_quality),
        ensures
            final(self).wf(),
            final(self).recorded(*old(self), now, latency_ms, error, bad_quality, health_failure),
    {
        self.latencies_ms.push_back(latency_ms);
        if self.latencies_ms.len() > LATENCY_WINDOW {
            let _ = self.latencies_ms.pop_front();
            assert(self.latencies_ms@ =~= old(self).latencies_ms@.push(latency_ms).drop_first());
        }
        self.operations = self.operations.saturating_add(1);
        if error {
            self.errors = self.errors + 1;
        }
        if bad_quality {
            self.bad_quality = self.bad_quality + 1;
        }
        self.last_error = error;
        self.last_bad_quality = bad_quality;
        if health_failure {
            self.last_health_failure_at = Some(now);
        }
        if bad_quality {
            self.last_bad_quality_at = Some(now);
        }
    }

    pub fn recent_health_failure(&self, now: Instant, max_age: Duration) -> (b: bool)
        ensures
            b == recent(self.last_health_failure_at, now, max_age),
    {
        match self.last_health_failure_at {
            Some(recorded) => now.saturating_duration_since(recorded).nanos <= max_age.nanos,
            None => false,
        }
    }

    pub fn recent_bad_quality(&self, now: Instant, max_age: Duration) -> (b: bool)
        ensures
            b == recent(self.last_bad_quality_at, now, max_age),
    {
        match self.last_bad_quality_at {
            Some(recorded) => now.saturating_duration_since(recorded).nanos <= max_age.nanos,
            None => false,
        }
    }

    pub open spec fn summary(self, active_count: u64) -> ForegroundMetrics {
        let sorted = ascending(self.latencies_ms@);
        ForegroundMetrics {
            active_count,
            operations: self.operations,
            errors: self.errors,
            bad_quality: self.bad_quality,
            latency_p50_ms: percentile_of(sorted, 50),
            latency_p95_ms: percentile_of(sorted, 95),
            latency_max_ms: if sorted.len() == 0 {
                None
            } else {
                Some(sorted.last())
            },
            last_error: self.last_error,
            last_bad_quality: self.last_bad_quality,
        }
    }

    pub fn snapshot(&self, active_count: u64) -> (metrics: ForegroundMetrics)
        requires
            self.wf(),
        ensures
            metrics == self.summary(active_count),
    {
        let mut sorted: Vec<u64> = Vec::new();
        let ghost leq = |a: u64, b: u64| a <= b;
        let ghost all = self.latencies_ms@;
        let mut i: usize = 0;
        proof {
            assert(all.take(0) =~= sorted@);
        }
        while i < self.latencies_ms.len()
            invariant
                i <= self.latencies_ms.len(),
                all == self.latencies_ms@,
                vstd::relations::sorted_by(sorted@, |a: u64, b: u64| a <= b),
                sorted@.to_multiset() == all.take(i as int).to_multiset(),
            decreases self.latencies_ms.len() - i,
        {
            insert_ascending(&mut sorted, self.latencies_ms[i]);
            proof {
                broadcast use vstd::seq_lib::group_to_multiset_ensures;

                assert(all.take(i + 1) =~= all.take(i as int).push(all[i as int]));
            }
            i += 1;
        }
        proof {
            assert(all.take(all.len() as int) =~= all);
            all.lemma_sort_by_ensures(leq);
            vstd::seq_lib::lemma_sorted_unique(sorted@, ascending(all), leq);
            sorted@.to_multiset_ensures();
            all.to_multiset_ensures();
            assert(sorted@.len() == all.len());
        }
        let latency_max_ms = if sorted.len() == 0 {
            None
        } else {
            Some(sorted[sorted.len() - 1])
        };
        ForegroundMetrics {
            active_count,
            operations: self.operations,
            errors: self.errors,
            bad_quality: self.bad_quality,
            latency_p50_ms: percentile(&sorted, 50),
            latency_p95_ms: percentile(&sorted, 95),
            latency_max_ms,
            last_error: self.last_error,
            last_bad_quality: self.last_bad_quality,
        }
    }
}

/// The median never exceeds the 95th percentile, nor that the maximum; all
/// three are latencies of the window, and there are none exactly when the
/// window is empty.
pub proof fn percentiles_are_ordered(state: ForegroundMetricState, active_count: u64)
    ensures
        ({
            let metrics = state.summary(active_count);
            if state.latencies_ms@.len() == 0 {
                metrics.latency_p50_ms is None && metrics.latency_p95_ms is None
                    && metrics.latency_max_ms is None
            } else {
                &&& metrics.latency_p50_ms is Some
                &&& metrics.latency_p95_ms is Some
                &&& metrics.latency_max_ms is Some
                &&& metrics.latency_p50_ms->0 <= metrics.latency_p95_ms->0
                    <= metrics.latency_max_ms->0
                &&& state.latencies_ms@.contains(metrics.latency_p50_ms->0)
                &&& state.latencies_ms@.contains(metrics.latency_p95_ms->0)
                &&& state.latencies_ms@.contains(metrics.latency_max_ms->0)
            }
        }),
{
    let all = state.latencies_ms@;
    let leq = |a: u64, b: u64| a <= b;
    let sorted = ascending(all);
    all.lemma_sort_by_ensures(leq);
    sorted.to_multiset_ensures();
    all.to_multiset_ensures();
    assert(sorted.len() == all.len());
    if all.len() > 0 {
        let n = all.len() as int;
        let median = percentile_place(n, 50);
        let high = percentile_place(n, 95);
        assert(0 <= median <= high <= n - 1);
        if median < high {
            assert(leq(sorted[median], sorted[high]));
        }
        if high < n - 1 {
            assert(leq(sorted[high], sorted[n - 1]));
        }
        assert(sorted.contains(sorted[median]));
        assert(sorted.contains(sorted[high]));
        assert(sorted.contains(sorted[n - 1]));
    }
}

/// However many operations are recorded, at most the window's worth of
/// latencies is kept, the newest among them.
pub proof fn window_keeps_the_newest(latencies: Seq<u64>, latency_ms: u64)
    requires
        latencies.len() <= LATENCY_WINDOW,
    ensures
        rolled(latencies, latency_ms).len() <= LATENCY_WINDOW,
        rolled(latencies, latency_ms).last() == latency_ms,
{
}

/// Whether a value is the percentile of others by nearest rank: put in order, as
/// many of them as the percentage asks for do not come after it, and fewer come
/// before it.
pub open spec fn is_percentile(values: Seq<u64>, value: u64, percent: int) -> bool {
    exists|ordered: Seq<u64>, place: int| #[trigger]
        stands_at(values, ordered, value, place) && 100 * place < percent * values.len() <= 100 * (
        place + 1)
}

/// Whether a value stands at a place of others that were put in order.
pub open spec fn stands_at(values: Seq<u64>, ordered: Seq<u64>, value: u64, place: int) -> bool {
    &&& ordered.to_multiset() == values.to_multiset()
    &&& ordered.len() == values.len()
    &&& forall|i: int, j: int|
        0 <= i < j < ordered.len() ==> #[trigger] ordered[i] <= #[trigger] ordered[j]
    &&& 0 <= place < ordered.len()
    &&& ordered[place] == value
}

/// The latencies are summed up by their median, by the latency that 95 of a
/// hundred do not exceed, and by the longest.
pub proof fn summaries_take_the_nearest_rank(state: ForegroundMetricState, active_count: u64)
    requires
        state.latencies_ms@.len() > 0,
    ensures
        ({
            let all = state.latencies_ms@;
            let metrics = state.summary(active_count);
            &&& metrics.latency_p50_ms is Some && is_percentile(all, metrics.latency_p50_ms->0, 50)
            &&& metrics.latency_p95_ms is Some && is_percentile(all, metrics.latency_p95_ms->0, 95)
            &&& metrics.latency_max_ms is Some && all.contains(metrics.latency_max_ms->0)
            &&& forall|i: int|
                0 <= i < all.len() ==> #[trigger] all[i] <= metrics.latency_max_ms->0
        }),
{
    let all = state.latencies_ms@;
    let leq = |a: u64, b: u64| a <= b;
    let sorted = ascending(all);
    all.lemma_sort_by_ensures(leq);
    sorted.to_multiset_ensures();
    all.to_multiset_ensures();
    let n = all.len() as int;
    assert(sorted.len() == n);
    assert forall|i: int, j: int| 0 <= i < j < sorted.len() implies #[trigger] sorted[i]
        <= #[trigger] sorted[j] by {
        assert(leq(sorted[i], sorted[j]));
    }
    let median = percentile_place(n, 50);
    let high = percentile_place(n, 95);
    assert(stands_at(all, sorted, sorted[median], median));
    assert(stands_at(all, sorted, sorted[high], high));
    assert(sorted.contains(sorted[n - 1]));
    assert forall|i: int| 0 <= i < all.len() implies #[trigger] all[i] <= sorted[n - 1] by {
        assert(all.contains(all[i]));
        assert(all.to_multiset().count(all[i]) > 0);
        assert(sorted.to_multiset().count(all[i]) > 0);
        assert(sorted.contains(all[i]));
        let k = choose|k: int| 0 <= k < sorted.len() && sorted[k] == all[i];
    }
}

/// A summary says how often the server was used, how often in vain, and what the
/// last use was like.
pub proof fn summaries_count_every_operation(state: ForegroundMetricState, active_count: u64)
    ensures
        ({
            let metrics = state.summary(active_count);
            &&& metrics.active_count == active_count
            &&& metrics.operations == state.operations
            &&& metrics.errors == state.errors
            &&& metrics.bad_quality == state.bad_quality
            &&& metrics.last_error == state.last_error
            &&& metrics.last_bad_quality == state.last_bad_quality
        }),
{
}

/// An operation is counted once, and as an error or as one of bad quality if it
/// was one; its latency joins the last 128, in place of the oldest of as many.
/// The time of a failure is kept until the next.
pub proof fn operations_are_counted_once(
    before: ForegroundMetricState,
    after: ForegroundMetricState,
    now: Instant,
    latency_ms: u64,
    error: bool,
    bad_quality: bool,
    health_failure: bool,
)
    requires
        before.wf(),
        before.operations < u64::MAX,
        after.recorded(before, now, latency_ms, error, bad_quality, health_failure),
    ensures
        after.operations == before.operations + 1,
        error ==> after.errors == before.errors + 1,
        !error ==> after.errors == before.errors,
        bad_quality ==> after.bad_quality == before.bad_quality + 1,
        !bad_quality ==> after.bad_quality == before.bad_quality,
        after.last_error == error && after.last_bad_quality == bad_quality,
        health_failure ==> after.last_health_failure_at == Some(now),
        !health_failure ==> after.last_health_failure_at == before.last_health_failure_at,
        bad_quality ==> after.last_bad_quality_at == Some(now),
        !bad_quality ==> after.last_bad_quality_at == before.last_bad_quality_at,
        after.latencies_ms@.last() == latency_ms,
        before.latencies_ms@.len() < 128 ==> after.latencies_ms@ == before.latencies_ms@.push(
            latency_ms,
        ),
        before.latencies_ms@.len() == 128 ==> after.latencies_ms@.len() == 128 && forall|i: int|
            0 <= i < 127 ==> #[trigger] after.latencies_ms@[i] == before.latencies_ms@[i + 1],
{
}

/// What happened is recent for as long as was asked for, and what did not happen
/// never is.
pub proof fn recent_is_within_the_age(recorded: Option<Instant>, now: Instant, max_age: Duration)
    ensures
        recorded is None ==> !recent(recorded, now, max_age),
        recorded is Some ==> (recent(recorded, now, max_age) <==> now.nanos - (
        recorded->0).nanos <= max_age.nanos),
{
}

} // verus!
