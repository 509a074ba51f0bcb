//! Timestamps, jitter, retry delays, pacing and maintenance windows.

use crate::controller::InventoryLimits;
use crate::numerals::{decimal_text, hex16_text, parse_decimal, push_decimal};
use crate::opc::{InventoryPacing, MAX_NATIVE_INVENTORY_BATCH_SIZE};
use crate::text::{push_text, split_once};
use crate::time::{Duration, Instant, SystemTime};
use vstd::prelude::*;

verus! {

pub const RETRY_INITIAL_BACKOFF_SECONDS: u64 = 300;

pub const RETRY_MAX_BACKOFF_SECONDS: u64 = 86_400;

pub const HASH_OFFSET: u64 = 0xcbf29ce484222325;

pub const HASH_PRIME: u64 = 0x100000001b3;

/// The 64-bit FNV-1a hash of a row of bytes.
pub open spec fn fnv1a(bytes: Seq<u8>) -> u64
    decreases bytes.len(),
{
    if bytes.len() == 0 {
        HASH_OFFSET
    } else {
        (((fnv1a(bytes.drop_last()) ^ (bytes.last() as u64)) * HASH_PRIME)
            % 0x1_0000_0000_0000_0000) as u64
    }
}

/// The hash of a text in its UTF-8 encoding.
pub open spec fn text_hash(text: Seq<char>) -> u64 {
    fnv1a(vstd::utf8::encode_utf8(text))
}

fn hash_text(text: &str) -> (hash: u64)
    ensures
        hash == text_hash(text@),
{
    let bytes = text.as_bytes();
    let mut hash: u64 = HASH_OFFSET;
    let mut i: usize = 0;
    while i < bytes.len()
        invariant
            i <= bytes.len(),
            hash == fnv1a(bytes@.take(i as int)),
        decreases bytes.len() - i,
    {
        proof {
            assert(bytes@.take(i + 1).drop_last() =~= bytes@.take(i as int));
        }
        let mixed: u64 = hash ^ (bytes[i] as u64);
        hash = mixed.wrapping_mul(HASH_PRIME);
        i += 1;
    }
    assert(bytes@.take(bytes.len() as int) =~= bytes@);
    hash
}

/// A file name part that is stable for a server.
pub fn stable_server_hash(server: &str) -> (hash: String)
    ensures
        hash@ == crate::numerals::hex16(text_hash(server@)),
{
    hex16_text(hash_text(server))
}

/// A delay spread over `0..=maximum_seconds` by the hash of the server.
pub open spec fn jitter_seconds(server: Seq<char>, maximum_seconds: u64) -> int {
    if maximum_seconds == 0 {
        0
    } else if maximum_seconds == u64::MAX {
        text_hash(server) as int % u64::MAX as int
    } else {
        text_hash(server) as int % (maximum_seconds + 1)
    }
}

pub fn deterministic_jitter(server: &str, maximum_seconds: u64) -> (jitter: Duration)
    ensures
        jitter == Duration::of_secs(jitter_seconds(server@, maximum_seconds) as u64),
        jitter.nanos == jitter_seconds(server@, maximum_seconds) * crate::time::NANOS_PER_SEC,
{
    if maximum_seconds == 0 {
        return Duration::from_secs(0);
    }
    let hash: u64 = hash_text(server);
    let range: u64 = maximum_seconds.saturating_add(1);
    Duration::from_secs(hash % range)
}

/// Jitter never exceeds its bound.
pub proof fn jitter_is_bounded(server: Seq<char>, maximum_seconds: u64)
    ensures
        0 <= jitter_seconds(server, maximum_seconds) <= maximum_seconds,
{
}

pub open spec fn doublings(consecutive_failures: u32) -> int {
    if consecutive_failures == 0 {
        0
    } else if consecutive_failures - 1 > 8 {
        8
    } else {
        consecutive_failures - 1
    }
}

/// The backoff before jitter: five minutes, doubled once per further failure,
/// at most eight times.
pub open spec fn retry_base_seconds(consecutive_failures: u32) -> int {
    RETRY_INITIAL_BACKOFF_SECONDS * crate::controller::power_of_two(
        doublings(consecutive_failures) as nat,
    )
}

pub open spec fn retry_label(server: Seq<char>, consecutive_failures: u32) -> Seq<char> {
    server + ":retry:"@ + crate::numerals::decimal(consecutive_failures as nat)
}

/// The wait before the next attempt: the backoff and up to a fifth of it as
/// jitter, at least as long as the circuit stays open, and never over a day.
pub open spec fn retry_seconds(
    server: Seq<char>,
    consecutive_failures: u32,
    circuit_open: bool,
    circuit_open_seconds: u64,
) -> int {
    let base = retry_base_seconds(consecutive_failures);
    let jitter = jitter_seconds(retry_label(server, consecutive_failures), (base / 5) as u64);
    let exponential = crate::controller::at_most(
        base + jitter,
        RETRY_MAX_BACKOFF_SECONDS as int,
    );
    if circuit_open {
        crate::controller::at_least(
            exponential,
            crate::controller::at_most(
                circuit_open_seconds as int,
                RETRY_MAX_BACKOFF_SECONDS as int,
            ),
        )
    } else {
        exponential
    }
}

proof fn retry_base_range(consecutive_failures: u32)
    ensures
        300 <= retry_base_seconds(consecutive_failures) <= 76_800,
{
    reveal_with_fuel(crate::controller::power_of_two, 10);
}

/// Every retry waits at least five minutes and at most a day.
pub proof fn retry_delay_is_bounded(
    server: Seq<char>,
    consecutive_failures: u32,
    circuit_open: bool,
    circuit_open_seconds: u64,
)
    ensures
        300 <= retry_seconds(server, consecutive_failures, circuit_open, circuit_open_seconds)
            <= RETRY_MAX_BACKOFF_SECONDS,
{
    retry_base_range(consecutive_failures);
    jitter_is_bounded(
        retry_label(server, consecutive_failures),
        (retry_base_seconds(consecutive_failures) / 5) as u64,
    );
}

/// An open circuit never shortens the wait.
pub proof fn open_circuit_waits_longer(
    server: Seq<char>,
    consecutive_failures: u32,
    circuit_open_seconds: u64,
)
    ensures
        retry_seconds(server, consecutive_failures, false, circuit_open_seconds) <= retry_seconds(
            server,
            consecutive_failures,
            true,
            circuit_open_seconds,
        ),
{
}

pub fn retry_delay(
    server: &str,
    consecutive_failures: u32,
    circuit_open: bool,
    circuit_open_seconds: u64,
) -> (delay: Duration)
    ensures
        delay == Duration::of_secs(
            retry_seconds(
                server@,
                consecutive_failures,
                circuit_open,
                circuit_open_seconds,
            ) as u64,
        ),
        delay.nanos <= RETRY_MAX_BACKOFF_SECONDS * crate::time::NANOS_PER_SEC,
{
    let mut steps: u32 = if consecutive_failures == 0 {
        0
    } else if consecutive_failures - 1 > 8 {
        8
    } else {
        consecutive_failures - 1
    };
    let ghost total = steps as nat;
    let mut base: u64 = RETRY_INITIAL_BACKOFF_SECONDS;
    proof {
        retry_base_range(consecutive_failures);
        jitter_is_bounded(
            retry_label(server@, consecutive_failures),
            (retry_base_seconds(consecutive_failures) / 5) as u64,
        );
    }
    while steps > 0
        invariant
            steps <= total <= 8,
            base == RETRY_INITIAL_BACKOFF_SECONDS * crate::controller::power_of_two(
                (total - steps) as nat,
            ),
            base <= 76_800,
        decreases steps,
    {
        proof {
            reveal_with_fuel(crate::controller::power_of_two, 10);
        }
        base = base * 2;
        steps -= 1;
    }
    let mut label = String::new();
    push_text(&mut label, server);
    push_text(&mut label, ":retry:");
    push_decimal(&mut label, consecutive_failures as u128);
    assert(label@ =~= retry_label(server@, consecutive_failures));
    let jitter = deterministic_jitter(label.as_str(), base / 5);
    let cap = Duration::from_secs(RETRY_MAX_BACKOFF_SECONDS);
    let exponential = Duration::from_secs(base).saturating_add(jitter).min(cap);
    if circuit_open {
        exponential.max(Duration::from_secs(circuit_open_seconds).min(cap))
    } else {
        exponential
    }
}

/// The smallest number of nanoseconds in which `batch` items stay within
/// `rate` items per second.
pub open spec fn interval_nanos(batch: int, rate: int) -> int {
    (batch * 1_000_000_000 + rate - 1) / rate
}

pub open spec fn paced(limits: InventoryLimits) -> InventoryPacing {
    InventoryPacing {
        min_interval: if limits.item_rate_per_second == 0 {
            Duration { nanos: 0 }
        } else {
            Duration {
                nanos: interval_nanos(
                    crate::controller::at_least(limits.batch_size as int, 1),
                    limits.item_rate_per_second as int,
                ) as u128,
            }
        },
        item_rate_per_second: if limits.item_rate_per_second > 0 {
            Some(limits.item_rate_per_second)
        } else {
            None
        },
        batch_size: Some(
            crate::controller::clamped(
                limits.batch_size as int,
                1,
                MAX_NATIVE_INVENTORY_BATCH_SIZE as int,
            ) as u32,
        ),
    }
}

pub fn pacing_for_limits(limits: InventoryLimits) -> (pacing: InventoryPacing)
    ensures
        pacing == paced(limits),
{
    let batch: u32 = if limits.batch_size == 0 {
        1
    } else {
        limits.batch_size
    };
    let min_interval = if limits.item_rate_per_second == 0 {
        Duration::zero()
    } else {
        let numerator: u128 = batch as u128 * 1_000_000_000;
        let denominator: u128 = limits.item_rate_per_second as u128;
        Duration { nanos: (numerator + denominator - 1) / denominator }
    };
    InventoryPacing {
        min_interval,
        item_rate_per_second: if limits.item_rate_per_second > 0 {
            Some(limits.item_rate_per_second)
        } else {
            None
        },
        batch_size: Some(
            if batch > MAX_NATIVE_INVENTORY_BATCH_SIZE {
                MAX_NATIVE_INVENTORY_BATCH_SIZE
            } else {
                batch
            },
        ),
    }
}

/// Requesting one batch per interval never exceeds the item rate, and a
/// shorter interval would.
pub proof fn pacing_keeps_the_item_rate(limits: InventoryLimits)
    requires
        limits.item_rate_per_second > 0,
        limits.batch_size > 0,
    ensures
        paced(limits).min_interval.nanos * limits.item_rate_per_second >= limits.batch_size
            * 1_000_000_000,
        (paced(limits).min_interval.nanos - 1) * limits.item_rate_per_second < limits.batch_size
            * 1_000_000_000,
{
    let total = limits.batch_size * 1_000_000_000;
    let rate = limits.item_rate_per_second as int;
    let n = interval_nanos(limits.batch_size as int, rate);
    assert(n * rate >= total && (n - 1) * rate < total && n >= 0 && n <= total + rate)
        by (nonlinear_arith)
        requires
            rate > 0,
            total >= 0,
            n == (total + rate - 1) / rate,
    ;
}

/// The milliseconds from the Unix epoch to a point in time, as a numeral.
pub open spec fn millis_numeral(nanos: nat) -> Seq<char> {
    crate::numerals::decimal(nanos / 1_000_000)
}

/// The timestamp of a point in time: empty before the epoch.
pub open spec fn stamp(at: SystemTime) -> Seq<char> {
    if at.nanos < 0 {
        Seq::empty()
    } else {
        millis_numeral(at.nanos as nat)
    }
}

pub open spec fn stamp_now(at: SystemTime) -> Seq<char> {
    millis_numeral(if at.nanos < 0 {
        0
    } else {
        at.nanos as nat
    })
}

/// The timestamp of the current moment; a clock before the epoch reads as the
/// epoch.
pub fn timestamp_now(now: SystemTime) -> (text: String)
    ensures
        text@ == stamp_now(now),
{
    let since = match now.duration_since(SystemTime::unix_epoch()) {
        Some(d) => d,
        None => Duration::zero(),
    };
    decimal_text(since.as_millis())
}

pub fn system_time_timestamp(value: SystemTime) -> (text: String)
    ensures
        text@ == stamp(value),
{
    match value.duration_since(SystemTime::unix_epoch()) {
        Some(d) => decimal_text(d.as_millis()),
        None => String::new(),
    }
}

/// The wall-clock moment at which the monotonic clock will read `value`; a
/// reading that has passed stands for the current moment.
pub open spec fn wall_moment(value: Instant, now: Instant, wall: SystemTime) -> SystemTime {
    SystemTime { nanos: (wall.nanos + value.since(now).nanos) as i128 }
}

pub fn instant_timestamp(value: Instant, now: Instant, wall: SystemTime) -> (text: String)
    requires
        wall.nanos + value.since(now).nanos <= i128::MAX,
    ensures
        text@ == stamp(wall_moment(value, now, wall)),
{
    let ahead = value.saturating_duration_since(now);
    match wall.checked_add(ahead) {
        Some(moment) => system_time_timestamp(moment),
        None => String::new(),
    }
}

pub open spec fn parsed_stamp(text: Seq<char>) -> Option<SystemTime> {
    match crate::numerals::parsed(text, u64::MAX as nat) {
        Some(millis) => Some(SystemTime { nanos: (millis * 1_000_000) as i128 }),
        None => None,
    }
}

pub fn parse_timestamp(value: &str) -> (at: Option<SystemTime>)
    ensures
        at == parsed_stamp(value@),
{
    match parse_decimal(value, u64::MAX) {
        Some(millis) => {
            SystemTime::unix_epoch().checked_add(Duration::from_millis(millis))
        },
        None => None,
    }
}

/// Reading a timestamp gives back its moment to the millisecond.
pub proof fn reading_undoes_stamping(at: SystemTime)
    requires
        0 <= at.nanos,
        at.nanos / 1_000_000 <= u64::MAX,
    ensures
        parsed_stamp(stamp(at)) == Some(
            SystemTime { nanos: (at.nanos / 1_000_000 * 1_000_000) as i128 },
        ),
{
    crate::numerals::parsing_undoes_writing(
        (at.nanos as nat / 1_000_000) as nat,
        u64::MAX as nat,
    );
}

/// Why a maintenance window cannot be read.
#[derive(Debug, Clone, Copy, PartialEq, Eq, Structural)]
pub enum MaintenanceWindowError {
    MissingRange,
    MissingColon,
    InvalidHour,
    InvalidMinute,
    OutOfRange,
}

impl MaintenanceWindowError {
    pub open spec fn text(self) -> Seq<char> {
        match self {
            MaintenanceWindowError::MissingRange => "maintenance window must use HH:MM-HH:MM"@,
            MaintenanceWindowError::MissingColon => "maintenance window clock must use HH:MM"@,
            MaintenanceWindowError::InvalidHour => "maintenance window hour is invalid"@,
            MaintenanceWindowError::InvalidMinute => "maintenance window minute is invalid"@,
            MaintenanceWindowError::OutOfRange =>
                "maintenance window clock is outside 00:00-23:59"@,
        }
    }

    pub fn message(self) -> (text: String)
        ensures
            text@ == self.text(),
    {
        match self {
            MaintenanceWindowError::MissingRange =>
                "maintenance window must use HH:MM-HH:MM".to_owned(),
            MaintenanceWindowError::MissingColon =>
                "maintenance window clock must use HH:MM".to_owned(),
            MaintenanceWindowError::InvalidHour => "maintenance window hour is invalid".to_owned(),
            MaintenanceWindowError::InvalidMinute =>
                "maintenance window minute is invalid".to_owned(),
            MaintenanceWindowError::OutOfRange =>
                "maintenance window clock is outside 00:00-23:59".to_owned(),
        }
    }
}

/// A daily window, in minutes of the day; its end is not part of it.
#[derive(Debug, Clone, Copy, PartialEq, Eq, Structural)]
pub struct MaintenanceWindow {
    pub start_minute: u16,
    pub end_minute: u16,
}

/// The minute of the day that a clock reading `HH:MM` names.
pub open spec fn clock_minute(text: Seq<char>) -> Result<u16, MaintenanceWindowError> {
    match crate::text::cut(text, ':') {
        None => Err(MaintenanceWindowError::MissingColon),
        Some((hour, minute)) => match crate::numerals::parsed(hour, u16::MAX as nat) {
            None => Err(MaintenanceWindowError::InvalidHour),
            Some(h) => match crate::numerals::parsed(minute, u16::MAX as nat) {
                None => Err(MaintenanceWindowError::InvalidMinute),
                Some(m) => if h >= 24 || m >= 60 {
                    Err(MaintenanceWindowError::OutOfRange)
                } else {
                    Ok((h * 60 + m) as u16)
                },
            },
        },
    }
}

pub open spec fn window_of(text: Seq<char>) -> Result<MaintenanceWindow, MaintenanceWindowError> {
    match crate::text::cut(text, '-') {
        None => Err(MaintenanceWindowError::MissingRange),
        Some((start, end)) => match clock_minute(start) {
            Err(error) => Err(error),
            Ok(start_minute) => match clock_minute(end) {
                Err(error) => Err(error),
                Ok(end_minute) => Ok(MaintenanceWindow { start_minute, end_minute }),
            },
        },
    }
}

pub fn parse_clock(value: &str) -> (minute: Result<u16, MaintenanceWindowError>)
    ensures
        minute == clock_minute(value@),
{
    let (hour, minute) = match split_once(value, ':') {
        Some(parts) => parts,
        None => return Err(MaintenanceWindowError::MissingColon),
    };
    let hour: u64 = match parse_decimal(hour.as_str(), u16::MAX as u64) {
        Some(h) => h,
        None => return Err(MaintenanceWindowError::InvalidHour),
    };
    let minute: u64 = match parse_decimal(minute.as_str(), u16::MAX as u64) {
        Some(m) => m,
        None => return Err(MaintenanceWindowError::InvalidMinute),
    };
    if hour >= 24 || minute >= 60 {
        return Err(MaintenanceWindowError::OutOfRange);
    }
    Ok((hour * 60 + minute) as u16)
}

impl MaintenanceWindow {
    pub fn parse(value: &str) -> (window: Result<Self, MaintenanceWindowError>)
        ensures
            window == window_of(value@),
    {
        let (start, end) = match split_once(value, '-') {
            Some(parts) => parts,
            None => return Err(MaintenanceWindowError::MissingRange),
        };
        let start_minute: u16 = match parse_clock(start.as_str()) {
            Ok(m) => m,
            Err(error) => return Err(error),
        };
        let end_minute: u16 = match parse_clock(end.as_str()) {
            Ok(m) => m,
            Err(error) => return Err(error),
        };
        Ok(MaintenanceWindow { start_minute, end_minute })
    }

    /// Whether a minute of the day lies in the window, which may run past
    /// midnight. A window that ends where it starts lasts all day.
    pub open spec fn covers(self, minute: int) -> bool {
        if self.start_minute == self.end_minute {
            true
        } else if self.start_minute < self.end_minute {
            self.start_minute <= minute < self.end_minute
        } else {
            minute >= self.start_minute || minute < self.end_minute
        }
    }

    pub fn contains(self, minute: u16) -> (inside: bool)
        ensures
            inside == self.covers(minute as int),
    {
        if self.start_minute == self.end_minute {
            return true;
        }
        if self.start_minute < self.end_minute {
            self.start_minute <= minute && minute < self.end_minute
        } else {
            minute >= self.start_minute || minute < self.end_minute
        }
    }
}

/// A window and the one with its ends exchanged cover the whole day between
/// them and, unless they last all day, never overlap.
pub proof fn exchanged_window_is_the_rest_of_the_day(window: MaintenanceWindow, minute: int)
    requires
        window.start_minute != window.end_minute,
    ensures
        window.covers(minute) != (MaintenanceWindow {
            start_minute: window.end_minute,
            end_minute: window.start_minute,
        }).covers(minute),
{
}

/// The windows of a list, or the error of the first text that names none.
pub open spec fn windows_of(
    values: Seq<Seq<char>>,
) -> Result<Seq<MaintenanceWindow>, MaintenanceWindowError>
    decreases values.len(),
{
    if values.len() == 0 {
        Ok(Seq::empty())
    } else {
        match windows_of(values.drop_last()) {
            Err(error) => Err(error),
            Ok(windows) => match window_of(values.last()) {
                Err(error) => Err(error),
                Ok(window) => Ok(windows.push(window)),
            },
        }
    }
}

proof fn windows_fail_from_prefix(values: Seq<Seq<char>>, n: int)
    requires
        0 <= n <= values.len(),
        windows_of(values.take(n)) is Err,
    ensures
        windows_of(values) == windows_of(values.take(n)),
    decreases values.len(),
{
    if n < values.len() {
        assert(values.drop_last().take(n) =~= values.take(n));
        windows_fail_from_prefix(values.drop_last(), n);
    } else {
        assert(values.take(n) =~= values);
    }
}

pub fn parse_maintenance_windows(values: &Vec<String>) -> (windows: Result<
    Vec<MaintenanceWindow>,
    MaintenanceWindowError,
>)
    ensures
        windows is Ok <==> windows_of(crate::text::texts(values@)) is Ok,
        windows matches Ok(list) ==> windows_of(crate::text::texts(values@)) == Ok::<
            Seq<MaintenanceWindow>,
            MaintenanceWindowError,
        >(list@),
        windows matches Err(error) ==> windows_of(crate::text::texts(values@)) == Err::<
            Seq<MaintenanceWindow>,
            MaintenanceWindowError,
        >(error),
{
    let mut windows: Vec<MaintenanceWindow> = Vec::new();
    let mut i: usize = 0;
    let ghost names = crate::text::texts(values@);
    while i < values.len()
        invariant
            i <= values.len(),
            names == crate::text::texts(values@),
            windows_of(names.take(i as int)) == Ok::<
                Seq<MaintenanceWindow>,
                MaintenanceWindowError,
            >(windows@),
        decreases values.len() - i,
    {
        proof {
            assert(names.take(i + 1).drop_last() =~= names.take(i as int));
            assert(names.take(i + 1).last() == values@[i as int]@);
        }
        match MaintenanceWindow::parse(values[i].as_str()) {
            Ok(window) => {
                windows.push(window);
            },
            Err(error) => {
                proof {
                    windows_fail_from_prefix(names, i + 1);
                }
                return Err(error);
            },
        }
        i += 1;
    }
    assert(names.take(names.len() as int) =~= names);
    Ok(windows)
}

pub open spec fn any_covers(windows: Seq<MaintenanceWindow>, minute: int) -> bool {
    exists|i: int| 0 <= i < windows.len() && (#[trigger] windows[i]).covers(minute)
}

/// Whether some window is open at a local clock reading.
pub fn maintenance_window_active(
    windows: &Vec<MaintenanceWindow>,
    hour: u16,
    minute: u16,
) -> (active: bool)
    requires
        hour < 24,
        minute < 60,
    ensures
        active == any_covers(windows@, hour * 60 + minute),
{
    let of_day: u16 = hour * 60 + minute;
    let mut i: usize = 0;
    while i < windows.len()
        invariant
            i <= windows.len(),
            of_day == hour * 60 + minute,
            forall|j: int| 0 <= j < i ==> !(#[trigger] windows@[j]).covers(of_day as int),
        decreases windows.len() - i,
    {
        if windows[i].contains(of_day) {
            assert(windows@[i as int].covers(of_day as int));
            return true;
        }
        i += 1;
    }
    false
}

/// Whether a configured window is open. Windows that cannot be read never
/// open.
pub open spec fn window_open(values: Seq<Seq<char>>, hour: int, minute: int) -> bool {
    windows_of(values) matches Ok(windows) && any_covers(windows, hour * 60 + minute)
}

pub fn maintenance_window_is_open(values: &Vec<String>, hour: u16, minute: u16) -> (open: bool)
    requires
        hour < 24,
        minute < 60,
    ensures
        open == window_open(crate::text::texts(values@), hour as int, minute as int),
{
    match parse_maintenance_windows(values) {
        Ok(windows) => maintenance_window_active(&windows, hour, minute),
        Err(_) => false,
    }
}

/// The delay before a retry doubles with every failure in a row, from five
/// minutes up to nine failures, and does not grow any more after that. It gets
/// up to a fifth longer for each server, and never longer than a day.
pub proof fn retries_take_twice_as_long(
    server: Seq<char>,
    consecutive_failures: u32,
    circuit_open_seconds: u64,
)
    ensures
        ({
            let n = consecutive_failures;
            let base = retry_base_seconds(n);
            let delay = retry_seconds(server, n, false, circuit_open_seconds);
            &&& n <= 1 ==> base == 300
            &&& 1 <= n <= 8 ==> retry_base_seconds((n + 1) as u32) == 2 * base
            &&& n >= 9 ==> base == 76_800
            &&& base <= delay
            &&& 5 * delay <= 6 * base
            &&& delay <= 86_400
        }),
{
    reveal_with_fuel(crate::controller::power_of_two, 10);
    retry_base_range(consecutive_failures);
    jitter_is_bounded(
        retry_label(server, consecutive_failures),
        (retry_base_seconds(consecutive_failures) / 5) as u64,
    );
}

/// An open circuit is waited out, for up to a day, and makes a longer delay no
/// different.
pub proof fn open_circuits_are_waited_out(
    server: Seq<char>,
    consecutive_failures: u32,
    circuit_open_seconds: u64,
)
    ensures
        ({
            let closed = retry_seconds(server, consecutive_failures, false, circuit_open_seconds);
            let open = retry_seconds(server, consecutive_failures, true, circuit_open_seconds);
            &&& circuit_open_seconds <= closed ==> open == closed
            &&& closed <= circuit_open_seconds <= 86_400 ==> open == circuit_open_seconds
            &&& circuit_open_seconds > 86_400 ==> open == 86_400
        }),
{
    retry_delay_is_bounded(server, consecutive_failures, false, circuit_open_seconds);
}

/// The jitter of a server is the rest that its hash leaves when the seconds that
/// are allowed, none of them included, are counted round and round.
pub proof fn jitter_is_a_remainder(server: Seq<char>, maximum_seconds: u64)
    ensures
        0 < maximum_seconds < u64::MAX ==> (text_hash(server) - jitter_seconds(
            server,
            maximum_seconds,
        )) % (maximum_seconds + 1) == 0,
        text_hash(server) <= maximum_seconds < u64::MAX ==> jitter_seconds(
            server,
            maximum_seconds,
        ) == text_hash(server),
        maximum_seconds == 0 ==> jitter_seconds(server, maximum_seconds) == 0,
        jitter_seconds(server, maximum_seconds) <= maximum_seconds,
{
    let hash = text_hash(server) as int;
    let range = maximum_seconds + 1;
    assert((hash - hash % range) % range == 0 && (hash < range ==> hash % range == hash))
        by (nonlinear_arith)
        requires
            range > 0,
            hash >= 0,
    ;
    if 0 < maximum_seconds < u64::MAX {
        assert(jitter_seconds(server, maximum_seconds) == hash % range);
    }
}

/// The hash of a text takes in its bytes one by one, each by an exclusive or and
/// a multiplication modulo 2 to the 64, in the manner of FNV-1a.
pub proof fn hashes_take_in_every_byte(bytes: Seq<u8>, byte: u8)
    ensures
        fnv1a(Seq::empty()) == 0xcbf2_9ce4_8422_2325,
        fnv1a(bytes.push(byte)) == ((fnv1a(bytes) ^ (byte as u64)) * 0x100_0000_01b3)
            % 0x1_0000_0000_0000_0000,
{
    assert(bytes.push(byte).drop_last() =~= bytes);
    assert(bytes.push(byte).last() == byte);
}

/// The pace asks for the batches of the limits, at least one entry and at most a
/// thousand at a time, and holds to their rate where they set one.
pub proof fn pacing_follows_the_limits(limits: InventoryLimits)
    ensures
        1 <= limits.batch_size <= 1_000 ==> paced(limits).batch_size == Some(limits.batch_size),
        limits.batch_size == 0 ==> paced(limits).batch_size == Some(1u32),
        limits.batch_size > 1_000 ==> paced(limits).batch_size == Some(1_000u32),
        limits.item_rate_per_second > 0 ==> paced(limits).item_rate_per_second == Some(
            limits.item_rate_per_second,
        ),
        limits.item_rate_per_second == 0 ==> paced(limits).item_rate_per_second is None
            && paced(limits).min_interval.nanos == 0,
        limits.item_rate_per_second > 0 && limits.batch_size == 0 ==> paced(limits).min_interval
            == paced(InventoryLimits { batch_size: 1, ..limits }).min_interval,
{
}

/// A stamp counts the milliseconds since 1970; a moment before that has none,
/// but now counts as the beginning of 1970 at the earliest. Reading a number
/// gives the moment that so many milliseconds after it.
pub proof fn stamps_count_milliseconds(at: SystemTime, millis: nat)
    requires
        millis <= u64::MAX,
    ensures
        at.nanos >= 0 ==> stamp(at) == crate::numerals::decimal((at.nanos / 1_000_000) as nat),
        at.nanos >= 0 ==> stamp_now(at) == stamp(at),
        at.nanos < 0 ==> stamp(at).len() == 0,
        at.nanos < 0 ==> stamp_now(at) == crate::numerals::decimal(0),
        parsed_stamp(crate::numerals::decimal(millis)) == Some(
            SystemTime { nanos: (millis * 1_000_000) as i128 },
        ),
        parsed_stamp(Seq::empty()) is None,
{
    crate::numerals::parsing_undoes_writing(millis, u64::MAX as nat);
}

/// A moment ahead of the clock is as far ahead of the wall clock; one behind it
/// counts as now.
pub proof fn deadlines_keep_their_distance(value: Instant, now: Instant, wall: SystemTime)
    requires
        wall.nanos + value.nanos <= i128::MAX,
    ensures
        value.nanos >= now.nanos ==> wall_moment(value, now, wall).nanos == wall.nanos + (
        value.nanos - now.nanos),
        value.nanos <= now.nanos ==> wall_moment(value, now, wall) == wall,
{
}

/// A clock reads as hours and minutes on both sides of its first colon, each in
/// its range, and stands for that minute of the day.
pub proof fn clocks_count_minutes(hour: Seq<char>, minute: Seq<char>)
    requires
        !hour.contains(':'),
    ensures
        ({
            let read = clock_minute(hour + seq![':'] + minute);
            let h = crate::numerals::parsed(hour, 65_535);
            let m = crate::numerals::parsed(minute, 65_535);
            &&& read is Ok <==> h is Some && m is Some && h->0 < 24 && m->0 < 60
            &&& read matches Ok(of_day) ==> of_day == 60 * h->0 + m->0
            &&& h is None ==> read == Err::<u16, _>(MaintenanceWindowError::InvalidHour)
            &&& h is Some && m is None ==> read == Err::<u16, _>(
                MaintenanceWindowError::InvalidMinute,
            )
            &&& h is Some && m is Some && !(h->0 < 24 && m->0 < 60) ==> read == Err::<u16, _>(
                MaintenanceWindowError::OutOfRange,
            )
        }),
        clock_minute(hour) == Err::<u16, _>(MaintenanceWindowError::MissingColon),
{
    crate::text::cutting_finds_the_first(hour, ':', minute);
}

/// A window reads as the clocks on both sides of its first dash, in this order.
pub proof fn windows_read_from_start_to_end(start: Seq<char>, end: Seq<char>)
    requires
        !start.contains('-'),
    ensures
        ({
            let read = window_of(start + seq!['-'] + end);
            &&& read is Ok <==> clock_minute(start) is Ok && clock_minute(end) is Ok
            &&& read matches Ok(window) ==> window.start_minute == clock_minute(start)->Ok_0
                && window.end_minute == clock_minute(end)->Ok_0
            &&& clock_minute(start) matches Err(error) ==> read == Err::<MaintenanceWindow, _>(
                error,
            )
            &&& clock_minute(start) is Ok ==> (clock_minute(end) matches Err(error) ==> read
                == Err::<MaintenanceWindow, _>(error))
        }),
        window_of(start) == Err::<MaintenanceWindow, _>(MaintenanceWindowError::MissingRange),
{
    crate::text::cutting_finds_the_first(start, '-', end);
}

/// A window is open from its first minute on, minute after minute and across
/// midnight, until its last minute, and closed from then until it opens again.
/// One that ends when it starts is never closed.
pub proof fn windows_run_from_start_to_end(window: MaintenanceWindow, minute: int)
    requires
        window.start_minute < 1_440,
        window.end_minute < 1_440,
        0 <= minute < 1_440,
    ensures
        ({
            let next = if minute == 1_439 {
                0
            } else {
                minute + 1
            };
            &&& window.covers(window.start_minute as int)
            &&& window.start_minute == window.end_minute ==> window.covers(minute)
            &&& window.start_minute != window.end_minute ==> !window.covers(
                window.end_minute as int,
            )
            &&& next != window.start_minute && next != window.end_minute ==> (window.covers(next)
                <==> window.covers(minute))
        }),
{
}

/// Windows are read one by one and in order, and not at all if one of them is
/// wrong: the first of those is named.
pub proof fn windows_are_read_one_by_one(values: Seq<Seq<char>>)
    ensures
        windows_of(values) is Ok <==> forall|i: int|
            0 <= i < values.len() ==> window_of(#[trigger] values[i]) is Ok,
        windows_of(values) matches Ok(windows) ==> windows.len() == values.len() && forall|i: int|
            0 <= i < values.len() ==> window_of(#[trigger] values[i]) == Ok::<
                _,
                MaintenanceWindowError,
            >(windows[i]),
        windows_of(values) matches Err(error) ==> exists|i: int|
            0 <= i < values.len() && window_of(#[trigger] values[i]) == Err::<
                MaintenanceWindow,
                _,
            >(error) && forall|j: int| 0 <= j < i ==> window_of(#[trigger] values[j]) is Ok,
    decreases values.len(),
{
    if values.len() > 0 {
        let front = values.drop_last();
        let last = values.len() - 1;
        windows_are_read_one_by_one(front);
        assert forall|i: int| 0 <= i < front.len() implies #[trigger] front[i] == values[i] by {}
        if windows_of(front) is Ok {
            assert forall|i: int| 0 <= i < values.len() - 1 implies window_of(
                #[trigger] values[i],
            ) is Ok by {
                assert(window_of(front[i]) is Ok);
            }
            if window_of(values[last]) is Ok {
                assert(windows_of(values)->Ok_0 =~= windows_of(front)->Ok_0.push(
                    window_of(values[last])->Ok_0,
                ));
                assert forall|i: int| 0 <= i < values.len() implies window_of(
                    #[trigger] values[i],
                ) == Ok::<_, MaintenanceWindowError>(windows_of(values)->Ok_0[i]) by {
                    if i < last {
                        assert(window_of(front[i]) == Ok::<_, MaintenanceWindowError>(
                            windows_of(front)->Ok_0[i],
                        ));
                    }
                }
            } else {
                assert(values[last] == values.last());
            }
        } else {
            let error = windows_of(front)->Err_0;
            let i = choose|i: int|
                0 <= i < front.len() && window_of(#[trigger] front[i]) == Err::<
                    MaintenanceWindow,
                    _,
                >(error) && forall|j: int| 0 <= j < i ==> window_of(#[trigger] front[j]) is Ok;
            assert(window_of(values[i]) == Err::<MaintenanceWindow, _>(error));
            assert forall|j: int| 0 <= j < i implies window_of(#[trigger] values[j]) is Ok by {
                assert(window_of(front[j]) is Ok);
            }
        }
    }
}

/// A maintenance window is open exactly if all of them can be read and one is
/// open at that minute of the day.
pub proof fn one_window_is_enough(values: Seq<Seq<char>>, hour: int, minute: int)
    ensures
        window_open(values, hour, minute) <==> (forall|i: int|
            0 <= i < values.len() ==> window_of(#[trigger] values[i]) is Ok) && (exists|i: int|
            0 <= i < values.len() && window_of(#[trigger] values[i])->Ok_0.covers(
                60 * hour + minute,
            )),
{
    windows_are_read_one_by_one(values);
    if windows_of(values) is Ok {
        let windows = windows_of(values)->Ok_0;
        assert forall|i: int| 0 <= i < values.len() implies window_of(
            #[trigger] values[i],
        )->Ok_0 == windows[i] by {}
        if window_open(values, hour, minute) {
            let i = choose|i: int|
                0 <= i < windows.len() && (#[trigger] windows[i]).covers(hour * 60 + minute);
            assert(window_of(values[i])->Ok_0.covers(60 * hour + minute));
        }
        if exists|i: int|
            0 <= i < values.len() && window_of(#[trigger] values[i])->Ok_0.covers(
                60 * hour + minute,
            ) {
            let i = choose|i: int|
                0 <= i < values.len() && window_of(#[trigger] values[i])->Ok_0.covers(
                    60 * hour + minute,
                );
            assert(windows[i].covers(hour * 60 + minute));
        }
    }
}

} // verus!
