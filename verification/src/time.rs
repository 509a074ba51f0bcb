//! Points in time and spans of time as plain counts of nanoseconds.
//!
//! The gateway reads its clocks at the edge and hands the readings over as
//! values of these types.

use vstd::prelude::*;

verus! {

pub const NANOS_PER_MILLI: u128 = 1_000_000;

pub const NANOS_PER_SEC: u128 = 1_000_000_000;

/// A span of time.
#[derive(Debug, Clone, Copy, PartialEq, Eq, Structural)]
pub struct Duration {
    pub nanos: u128,
}

impl Duration {
    pub fn zero() -> (d: Self)
        ensures
            d == (Duration { nanos: 0 }),
    {
        Duration { nanos: 0 }
    }

    pub open spec fn of_secs(secs: u64) -> Self {
        Duration { nanos: (secs * NANOS_PER_SEC) as u128 }
    }

    pub open spec fn of_millis(millis: u64) -> Self {
        Duration { nanos: (millis * NANOS_PER_MILLI) as u128 }
    }

    pub fn from_secs(secs: u64) -> (d: Self)
        ensures
            d == Duration::of_secs(secs),
            d.nanos == secs * NANOS_PER_SEC,
    {
        Duration { nanos: secs as u128 * NANOS_PER_SEC }
    }

    pub fn from_millis(millis: u64) -> (d: Self)
        ensures
            d == Duration::of_millis(millis),
            d.nanos == millis * NANOS_PER_MILLI,
    {
        Duration { nanos: millis as u128 * NANOS_PER_MILLI }
    }

    pub fn from_nanos(nanos: u64) -> (d: Self)
        ensures
            d.nanos == nanos,
    {
        Duration { nanos: nanos as u128 }
    }

    pub fn is_zero(self) -> (b: bool)
        ensures
            b == (self.nanos == 0),
    {
        self.nanos == 0
    }

    /// Whole milliseconds, the remainder dropped.
    pub fn as_millis(self) -> (millis: u128)
        ensures
            millis == self.nanos / NANOS_PER_MILLI,
    {
        self.nanos / NANOS_PER_MILLI
    }

    /// Whole milliseconds, capped at the largest 64-bit count.
    pub open spec fn capped_millis(self) -> u64 {
        if self.nanos / NANOS_PER_MILLI <= u64::MAX {
            (self.nanos / NANOS_PER_MILLI) as u64
        } else {
            u64::MAX
        }
    }

    pub fn as_millis_u64(self) -> (millis: u64)
        ensures
            millis == self.capped_millis(),
    {
        let millis: u128 = self.nanos / NANOS_PER_MILLI;
        if millis <= u64::MAX as u128 {
            millis as u64
        } else {
            u64::MAX
        }
    }

    /// The later of two spans.
    pub open spec fn longest(self, other: Self) -> Self {
        if self.nanos >= other.nanos {
            self
        } else {
            other
        }
    }

    /// The shorter of two spans.
    pub open spec fn shortest(self, other: Self) -> Self {
        if self.nanos <= other.nanos {
            self
        } else {
            other
        }
    }

    pub fn max(self, other: Self) -> (d: Self)
        ensures
            d == self.longest(other),
    {
        if self.nanos >= other.nanos {
            self
        } else {
            other
        }
    }

    pub fn min(self, other: Self) -> (d: Self)
        ensures
            d == self.shortest(other),
    {
        if self.nanos <= other.nanos {
            self
        } else {
            other
        }
    }

    pub fn checked_mul(self, factor: u32) -> (d: Option<Self>)
        ensures
            self.nanos * factor <= u128::MAX ==> d == Some(
                Duration { nanos: (self.nanos * factor) as u128 },
            ),
            self.nanos * factor > u128::MAX ==> d is None,
    {
        match self.nanos.checked_mul(factor as u128) {
            Some(nanos) => Some(Duration { nanos }),
            None => None,
        }
    }

    pub open spec fn plus_capped(self, other: Self) -> Self {
        if self.nanos + other.nanos <= u128::MAX {
            Duration { nanos: (self.nanos + other.nanos) as u128 }
        } else {
            Duration { nanos: u128::MAX }
        }
    }

    pub fn saturating_add(self, other: Self) -> (d: Self)
        ensures
            d == self.plus_capped(other),
    {
        Duration { nanos: self.nanos.saturating_add(other.nanos) }
    }

    pub open spec fn minus_floored(self, other: Self) -> Self {
        if self.nanos >= other.nanos {
            Duration { nanos: (self.nanos - other.nanos) as u128 }
        } else {
            Duration { nanos: 0 }
        }
    }

    pub fn saturating_sub(self, other: Self) -> (d: Self)
        ensures
            d == self.minus_floored(other),
    {
        Duration { nanos: self.nanos.saturating_sub(other.nanos) }
    }
}

/// A reading of the monotonic clock, counted from a fixed origin.
#[derive(Debug, Clone, Copy, PartialEq, Eq, Structural)]
pub struct Instant {
    pub nanos: u128,
}

impl Instant {
    /// Whether the clock can represent the point `d` after this one.
    pub open spec fn can_add(self, d: Duration) -> bool {
        self.nanos + d.nanos <= u128::MAX
    }

    pub open spec fn after(self, d: Duration) -> Self {
        Instant { nanos: (self.nanos + d.nanos) as u128 }
    }

    pub fn plus(self, d: Duration) -> (later: Self)
        requires
            self.can_add(d),
        ensures
            later == self.after(d),
            later.nanos == self.nanos + d.nanos,
    {
        Instant { nanos: self.nanos + d.nanos }
    }

    /// The time elapsed since `earlier`, zero when `earlier` lies ahead.
    pub open spec fn since(self, earlier: Self) -> Duration {
        if self.nanos >= earlier.nanos {
            Duration { nanos: (self.nanos - earlier.nanos) as u128 }
        } else {
            Duration { nanos: 0 }
        }
    }

    pub fn saturating_duration_since(self, earlier: Self) -> (d: Duration)
        ensures
            d == self.since(earlier),
    {
        Duration { nanos: self.nanos.saturating_sub(earlier.nanos) }
    }
}

/// A reading of the wall clock, counted from the Unix epoch.
#[derive(Debug, Clone, Copy, PartialEq, Eq, Structural)]
pub struct SystemTime {
    pub nanos: i128,
}

impl SystemTime {
    pub fn unix_epoch() -> (t: Self)
        ensures
            t == (SystemTime { nanos: 0 }),
    {
        SystemTime { nanos: 0 }
    }

    /// The point `d` after this one, when the clock can represent it.
    pub open spec fn after(self, d: Duration) -> Option<Self> {
        if self.nanos + d.nanos <= i128::MAX {
            Some(SystemTime { nanos: (self.nanos + d.nanos) as i128 })
        } else {
            None
        }
    }

    pub fn checked_add(self, d: Duration) -> (t: Option<Self>)
        ensures
            t == self.after(d),
    {
        match self.nanos.checked_add_unsigned(d.nanos) {
            Some(nanos) => Some(SystemTime { nanos }),
            None => None,
        }
    }

    /// The time elapsed since `earlier`; `None` when `earlier` lies ahead.
    pub open spec fn since(self, earlier: Self) -> Option<Duration> {
        if self.nanos >= earlier.nanos {
            Some(Duration { nanos: (self.nanos - earlier.nanos) as u128 })
        } else {
            None
        }
    }

    pub fn duration_since(self, earlier: Self) -> (d: Option<Duration>)
        ensures
            d == self.since(earlier),
    {
        if self.nanos < earlier.nanos {
            return None;
        }
        let nanos: u128 = if earlier.nanos >= 0 {
            (self.nanos - earlier.nanos) as u128
        } else if self.nanos < 0 {
            (self.nanos - earlier.nanos) as u128
        } else {
            let below: u128 = (-(earlier.nanos + 1)) as u128 + 1;
            self.nanos as u128 + below
        };
        Some(Duration { nanos })
    }
}

/// A second is a thousand milliseconds and a million of nanoseconds each; whole
/// milliseconds are counted.
pub proof fn spans_have_their_length(secs: u64, millis: u64, span: Duration)
    ensures
        Duration::of_secs(secs).nanos == secs * 1_000_000_000,
        Duration::of_millis(millis).nanos == millis * 1_000_000,
        secs <= u64::MAX / 1_000 ==> Duration::of_secs(secs) == Duration::of_millis(
            (secs * 1_000) as u64,
        ),
        Duration::of_millis(millis).capped_millis() == millis,
        span.capped_millis() < u64::MAX ==> span.capped_millis() * 1_000_000 <= span.nanos < (
        span.capped_millis() + 1) * 1_000_000,
{
}

/// The longer and the shorter of two spans are the two, and enclose them.
pub proof fn spans_compare(a: Duration, b: Duration)
    ensures
        a.shortest(b).nanos <= a.nanos <= a.longest(b).nanos,
        a.shortest(b).nanos <= b.nanos <= a.longest(b).nanos,
        a.longest(b) == a && a.shortest(b) == b || a.longest(b) == b && a.shortest(b) == a,
{
}

/// A moment some time after another lies that time after it. Nothing passes
/// before a moment has come.
pub proof fn moments_lie_apart(moment: Instant, wall: SystemTime, span: Duration)
    ensures
        moment.can_add(span) ==> moment.after(span).since(moment) == span,
        moment.can_add(span) ==> moment.since(moment.after(span)).nanos == 0,
        wall.nanos + span.nanos <= i128::MAX ==> wall.after(span) is Some && (wall.after(
            span,
        )->0).since(wall) == Some(span),
        wall.nanos + span.nanos > i128::MAX ==> wall.after(span) is None,
        wall.nanos + span.nanos <= i128::MAX && span.nanos > 0 ==> wall.since(
            wall.after(span)->0,
        ) is None,
{
}

/// Adding a span and taking it away again changes nothing, where there is room.
pub proof fn spans_add_up(a: Duration, b: Duration)
    ensures
        a.nanos + b.nanos <= u128::MAX ==> a.plus_capped(b).nanos == a.nanos + b.nanos,
        a.nanos + b.nanos <= u128::MAX ==> a.plus_capped(b).minus_floored(b) == a,
        a.nanos <= b.nanos ==> a.minus_floored(b).nanos == 0,
        a.nanos + b.nanos > u128::MAX ==> a.plus_capped(b).nanos == u128::MAX,
{
}

} // verus!
