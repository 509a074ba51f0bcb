//! The index database: its diagnostics, schema, locks and retry records.

use crate::index::schedule::{parse_timestamp, system_time_timestamp};
use crate::numerals::{decimal_text, parse_decimal, parse_signed_decimal, push_decimal,
    push_signed_decimal};
use crate::text::{contains_text, is_empty_text, joined, push_text, same_text, to_ascii_lowercase,
    trim};
use crate::time::SystemTime;
use crate::paths::with_extension;
use vstd::prelude::*;

verus! {

pub const SCHEMA_VERSION: i64 = 3;

#[derive(Debug, Clone, Copy, PartialEq, Eq)]
pub struct StorageDiagnostics {
    pub main_bytes: u64,
    pub wal_bytes: u64,
    pub shm_bytes: u64,
    pub free_bytes: Option<u64>,
    pub last_commit_latency_ms: Option<u64>,
}

impl StorageDiagnostics {
    pub open spec fn unknown() -> Self {
        StorageDiagnostics {
            main_bytes: 0,
            wal_bytes: 0,
            shm_bytes: 0,
            free_bytes: None,
            last_commit_latency_ms: None,
        }
    }

    /// The diagnostics of files of which some may be missing.
    pub fn of_files(
        main: Option<u64>,
        wal: Option<u64>,
        shm: Option<u64>,
        free_bytes: Option<u64>,
    ) -> (storage: Self)
        ensures
            storage == (StorageDiagnostics {
                main_bytes: crate::config::or_default(main, 0),
                wal_bytes: crate::config::or_default(wal, 0),
                shm_bytes: crate::config::or_default(shm, 0),
                free_bytes,
                last_commit_latency_ms: None,
            }),
    {
        StorageDiagnostics {
            main_bytes: match main {
                Some(bytes) => bytes,
                None => 0,
            },
            wal_bytes: match wal {
                Some(bytes) => bytes,
                None => 0,
            },
            shm_bytes: match shm {
                Some(bytes) => bytes,
                None => 0,
            },
            free_bytes,
            last_commit_latency_ms: None,
        }
    }

    /// What the database takes on disk, capped at the largest count.
    pub open spec fn total(self) -> u64 {
        crate::controller::at_most(
            self.main_bytes + self.wal_bytes + self.shm_bytes,
            u64::MAX as int,
        ) as u64
    }

    pub fn database_bytes(&self) -> (bytes: u64)
        ensures
            bytes == self.total(),
    {
        self.main_bytes.saturating_add(self.wal_bytes).saturating_add(self.shm_bytes)
    }
}

impl Default for StorageDiagnostics {
    fn default() -> (storage: Self)
        ensures
            storage == StorageDiagnostics::unknown(),
    {
        StorageDiagnostics {
            main_bytes: 0,
            wal_bytes: 0,
            shm_bytes: 0,
            free_bytes: None,
            last_commit_latency_ms: None,
        }
    }
}

/// The free space that an index needs, capped at the largest count.
pub open spec fn required_space(minimum: u64, headroom: u64) -> u64 {
    crate::controller::at_most(minimum + headroom, u64::MAX as int) as u64
}

/// Whether the free space is known and too small.
pub open spec fn space_lacks(free: Option<u64>, minimum: u64, headroom: u64) -> bool {
    free matches Some(bytes) && bytes < required_space(minimum, headroom)
}

pub fn lacks_space(free: Option<u64>, minimum: u64, headroom: u64) -> (lacks: bool)
    ensures
        lacks == space_lacks(free, minimum, headroom),
{
    match free {
        Some(bytes) => bytes < minimum.saturating_add(headroom),
        None => false,
    }
}

pub open spec fn space_message(free: u64, required: u64) -> Seq<char> {
    "insufficient free space for namespace index ("@ + crate::numerals::decimal(free as nat)
        + " bytes available, "@ + crate::numerals::decimal(required as nat) + " required)"@
}

pub fn insufficient_space_message(free: u64, minimum: u64, headroom: u64) -> (message: String)
    ensures
        message@ == space_message(free, required_space(minimum, headroom)),
{
    let mut message = "insufficient free space for namespace index (".to_owned();
    push_decimal(&mut message, free as u128);
    push_text(&mut message, " bytes available, ");
    push_decimal(&mut message, minimum.saturating_add(headroom) as u128);
    push_text(&mut message, " required)");
    message
}

/// What to do about the schema of a database.
#[derive(Debug, Clone, Copy, PartialEq, Eq, Structural)]
pub enum SchemaAction {
    /// The database is new or current: record the current version.
    Stamp,
    /// The database lacks the fallback mark of generations: add it.
    AddCompatibilityFallback,
}

/// Why a database cannot be used.
#[derive(Debug, PartialEq, Eq)]
pub enum SchemaError {
    /// The recorded version is not a number.
    Invalid(String),
    Unsupported(i64),
    /// Entries are stored in one of the two tables only.
    Inconsistent,
}

/// A text as the debug format shows it: in quotes, with escapes.
pub uninterp spec fn quoted(text: Seq<char>) -> Seq<char>;

/// The debug format of a text, which is a function of the text.
#[verifier::external_body]
fn debug_text(text: &str) -> (shown: String)
    ensures
        shown@ == quoted(text@),
{
    format!("{text:?}")
}

impl SchemaError {
    pub open spec fn text(self) -> Seq<char> {
        match self {
            SchemaError::Invalid(version) => "invalid namespace index schema version "@ + quoted(
                version@,
            ),
            SchemaError::Unsupported(version) => "unsupported namespace index schema version "@
                + crate::numerals::signed_decimal(version as int),
            SchemaError::Inconsistent =>
                "namespace index relational and full-text data are inconsistent"@,
        }
    }

    pub fn message(&self) -> (text: String)
        ensures
            text@ == self.text(),
    {
        match self {
            SchemaError::Invalid(version) => {
                let shown = debug_text(version.as_str());
                joined("invalid namespace index schema version ", shown.as_str())
            },
            SchemaError::Unsupported(version) => {
                let mut text = "unsupported namespace index schema version ".to_owned();
                push_signed_decimal(&mut text, *version);
                text
            },
            SchemaError::Inconsistent =>
                "namespace index relational and full-text data are inconsistent".to_owned(),
        }
    }
}

/// What the recorded schema version of a database calls for.
pub fn schema_action(recorded: Option<&str>) -> (action: Result<SchemaAction, SchemaError>)
    ensures
        recorded is None ==> action == Ok::<SchemaAction, SchemaError>(SchemaAction::Stamp),
        recorded matches Some(version) ==> crate::numerals::parsed_signed(version@) == Some(3int)
            ==> action == Ok::<SchemaAction, SchemaError>(SchemaAction::Stamp),
        recorded matches Some(version) ==> match crate::numerals::parsed_signed(version@) {
            None => action matches Err(SchemaError::Invalid(shown)) && shown@ == version@,
            Some(n) => if n == 2 {
                action == Ok::<SchemaAction, SchemaError>(SchemaAction::AddCompatibilityFallback)
            } else if n == SCHEMA_VERSION {
                action == Ok::<SchemaAction, SchemaError>(SchemaAction::Stamp)
            } else {
                action == Err::<SchemaAction, SchemaError>(SchemaError::Unsupported(n as i64))
            },
        },
{
    match recorded {
        None => Ok(SchemaAction::Stamp),
        Some(version) => match parse_signed_decimal(version) {
            None => Err(SchemaError::Invalid(version.to_owned())),
            Some(number) => if number == 2 {
                Ok(SchemaAction::AddCompatibilityFallback)
            } else if number == SCHEMA_VERSION {
                Ok(SchemaAction::Stamp)
            } else {
                Err(SchemaError::Unsupported(number))
            },
        },
    }
}

/// Both tables hold entries, or neither does.
pub fn require_consistent(relational: bool, full_text: bool) -> (result: Result<(), SchemaError>)
    ensures
        result == (if relational == full_text {
            Ok::<(), SchemaError>(())
        } else {
            Err(SchemaError::Inconsistent)
        }),
{
    if relational == full_text {
        Ok(())
    } else {
        Err(SchemaError::Inconsistent)
    }
}

/// Whether an error says that the database itself is unusable, so that it can
/// be set aside and made anew.
pub open spec fn is_quarantinable(message: Seq<char>) -> bool {
    let lower = crate::text::ascii_lowercase(message);
    ||| crate::text::occurs_in("unsupported namespace index schema version"@, lower)
    ||| crate::text::occurs_in("invalid namespace index schema version"@, lower)
    ||| crate::text::occurs_in(
        "namespace index relational and full-text data are inconsistent"@,
        lower,
    )
    ||| crate::text::occurs_in("file is not a database"@, lower)
    ||| crate::text::occurs_in("database disk image is malformed"@, lower)
}

pub fn is_quarantinable_index_error(message: &str) -> (quarantinable: bool)
    ensures
        quarantinable == is_quarantinable(message@),
{
    let lower = to_ascii_lowercase(message);
    contains_text(lower.as_str(), "unsupported namespace index schema version") || contains_text(
        lower.as_str(),
        "invalid namespace index schema version",
    ) || contains_text(
        lower.as_str(),
        "namespace index relational and full-text data are inconsistent",
    ) || contains_text(lower.as_str(), "file is not a database") || contains_text(
        lower.as_str(),
        "database disk image is malformed",
    )
}

/// The file extension under which an unusable database is set aside.
pub fn quarantine_extension(token: &str) -> (extension: String)
    ensures
        extension@ == "quarantine-"@ + token@,
{
    joined("quarantine-", token)
}

/// Where an unusable database is set aside, under a random identifier.
pub fn quarantine_path(path: &str) -> (aside: String)
    ensures
        set_aside(path@, aside@),
{
    let token = crate::tokens::new_token();
    let extension = quarantine_extension(token.as_str());
    proof {
        quarantine_is_plain(token@);
    }
    let aside = with_extension(path, extension.as_str());
    assert(crate::tokens::is_token(token@));
    proof {
        if crate::paths::takes_extension(path@) {
            crate::paths::extensions_end_paths(path@, extension@, aside@);
        }
    }
    aside
}

/// What the path of a database that was set aside ends with.
pub open spec fn quarantine_ending(token: Seq<char>) -> Seq<char> {
    seq!['.'] + ("quarantine-"@ + token)
}

/// Whether a path is one under which a database may be set aside.
pub open spec fn set_aside(path: Seq<char>, aside: Seq<char>) -> bool {
    exists|token: Seq<char>| #[trigger]
        crate::tokens::is_token(token) && crate::paths::extends(
            path,
            "quarantine-"@ + token,
            aside,
        ) && (crate::paths::takes_extension(path) ==> crate::text::has_suffix(
            aside,
            quarantine_ending(token),
        ))
}

/// A database that is set aside leaves its place, unless its path is one under
/// which databases are set aside.
pub proof fn setting_aside_moves(path: Seq<char>, aside: Seq<char>)
    requires
        set_aside(path, aside),
        crate::paths::takes_extension(path),
        forall|token: Seq<char>| #[trigger]
            crate::tokens::is_token(token) ==> !crate::text::has_suffix(
                path,
                quarantine_ending(token),
            ),
    ensures
        aside != path,
{
}

proof fn quarantine_is_plain(token: Seq<char>)
    requires
        crate::tokens::is_token(token),
    ensures
        crate::paths::plain_component("quarantine-"@ + token),
{
    reveal_strlit("quarantine-");
    let extension = "quarantine-"@ + token;
    assert(extension.len() == 47);
    assert forall|i: int| 0 <= i < extension.len() implies {
        let c = #[trigger] extension[i];
        c != '/' && c != '\\' && c != ':'
    } by {
        if i >= 11 {
            assert(extension[i] == token[i - 11]);
        }
    }
}

/// What to do about a database that could not be opened: where to set it aside
/// before another attempt, or nothing.
pub fn recover_open(path: &str, message: &str) -> (aside: Option<String>)
    ensures
        aside is Some == is_quarantinable(message@),
        aside matches Some(aside) ==> set_aside(path@, aside@),
{
    if is_quarantinable_index_error(message) {
        Some(quarantine_path(path))
    } else {
        None
    }
}

/// What an attempt to open and lock a build's lock file came to.
#[derive(Debug, PartialEq, Eq)]
pub enum LockAttempt {
    Acquired,
    Missing,
    Conflict,
    Failed(String),
}

/// Whether an I/O error says that another process holds the lock.
pub fn is_lock_conflict(would_block: bool, raw_os_error: Option<i32>) -> (conflict: bool)
    ensures
        conflict == (would_block || raw_os_error == Some(32i32) || raw_os_error == Some(33i32)),
{
    would_block || match raw_os_error {
        Some(code) => code == 32 || code == 33,
        None => false,
    }
}

/// Whether another process holds the lock, by what a trial has come to.
pub fn lock_is_held(attempt: LockAttempt) -> (held: Result<bool, String>)
    ensures
        held == (match attempt {
            LockAttempt::Acquired => Ok::<bool, String>(false),
            LockAttempt::Missing => Ok(false),
            LockAttempt::Conflict => Ok(true),
            LockAttempt::Failed(error) => Err(error),
        }),
{
    match attempt {
        LockAttempt::Acquired => Ok(false),
        LockAttempt::Missing => Ok(false),
        LockAttempt::Conflict => Ok(true),
        LockAttempt::Failed(error) => Err(error),
    }
}

/// The refusal of a build whose lock another process holds: who it is, or the
/// error where that is not known.
pub fn lock_held_message(lock_path: &str, owner: &str, error: &str) -> (message: String)
    ensures
        message@ == "namespace index build lock is already held at "@ + lock_path@ + " ("@ + (
        if crate::text::trimmed(owner@).len() == 0 {
            error@
        } else {
            crate::text::trimmed(owner@)
        }) + ")"@,
{
    let mut message = joined("namespace index build lock is already held at ", lock_path);
    push_text(&mut message, " (");
    let shown = trim(owner);
    if is_empty_text(shown.as_str()) {
        push_text(&mut message, error);
    } else {
        push_text(&mut message, shown.as_str());
    }
    push_text(&mut message, ")");
    message
}

/// What a lock file says of its owner.
pub fn lock_metadata(process_id: u32, server: &str) -> (metadata: String)
    ensures
        metadata@ == "process_id="@ + crate::numerals::decimal(process_id as nat) + "\nserver="@
            + server@ + "\n"@,
{
    let mut metadata = "process_id=".to_owned();
    push_decimal(&mut metadata, process_id as u128);
    push_text(&mut metadata, "\nserver=");
    push_text(&mut metadata, server);
    push_text(&mut metadata, "\n");
    metadata
}

/// When a server may be indexed again after failures.
#[derive(Debug, Clone, Copy, PartialEq, Eq)]
pub struct RetryState {
    pub retry_after: Option<SystemTime>,
    pub consecutive_failures: u32,
    pub circuit_open: bool,
}

/// How a retry state is stored.
#[derive(Debug, PartialEq, Eq)]
pub struct RetryRecord {
    pub retry_after: String,
    pub failures: String,
    pub circuit: String,
}

/// The key of a stored value of a server.
pub fn retry_key(kind: &str, server: &str) -> (key: String)
    ensures
        key@ == kind@ + ":"@ + server@,
{
    let mut key = joined(kind, ":");
    push_text(&mut key, server);
    key
}

pub open spec fn stored_moment(at: Option<SystemTime>) -> Seq<char> {
    match at {
        Some(moment) => crate::index::schedule::stamp(moment),
        None => Seq::empty(),
    }
}

pub open spec fn records(record: RetryRecord, state: RetryState) -> bool {
    &&& record.retry_after@ == stored_moment(state.retry_after)
    &&& record.failures@ == crate::numerals::decimal(state.consecutive_failures as nat)
    &&& record.circuit@ == (if state.circuit_open {
        "1"@
    } else {
        "0"@
    })
}

pub fn retry_record(state: &RetryState) -> (record: RetryRecord)
    ensures
        records(record, *state),
{
    let retry_after = match state.retry_after {
        Some(moment) => system_time_timestamp(moment),
        None => String::new(),
    };
    RetryRecord {
        retry_after,
        failures: decimal_text(state.consecutive_failures as u128),
        circuit: if state.circuit_open {
            "1".to_owned()
        } else {
            "0".to_owned()
        },
    }
}

/// The retry state that stored values denote; what is missing or cannot be
/// read counts as nothing.
pub open spec fn read_retry(
    retry_after: Option<Seq<char>>,
    failures: Option<Seq<char>>,
    circuit: Option<Seq<char>>,
) -> RetryState {
    RetryState {
        retry_after: match retry_after {
            Some(text) => crate::index::schedule::parsed_stamp(text),
            None => None,
        },
        consecutive_failures: match failures {
            Some(text) => match crate::numerals::parsed(text, u32::MAX as nat) {
                Some(n) => n as u32,
                None => 0,
            },
            None => 0,
        },
        circuit_open: circuit == Some("1"@),
    }
}

pub fn retry_state(
    retry_after: Option<&str>,
    failures: Option<&str>,
    circuit: Option<&str>,
) -> (state: RetryState)
    ensures
        state == read_retry(
            crate::text::optional_str_view(retry_after),
            crate::text::optional_str_view(failures),
            crate::text::optional_str_view(circuit),
        ),
{
    let retry_after = match retry_after {
        Some(text) => parse_timestamp(text),
        None => None,
    };
    let consecutive_failures: u32 = match failures {
        Some(text) => match parse_decimal(text, u32::MAX as u64) {
            Some(n) => n as u32,
            None => 0,
        },
        None => 0,
    };
    let circuit_open = match circuit {
        Some(text) => same_text(text, "1"),
        None => false,
    };
    RetryState { retry_after, consecutive_failures, circuit_open }
}

/// A stored retry state is read back as it was, its moment to the millisecond.
pub proof fn stored_retry_is_read_back(record: RetryRecord, state: RetryState)
    requires
        records(record, state),
        state.retry_after matches Some(at) ==> 0 <= at.nanos && at.nanos / 1_000_000 <= u64::MAX,
    ensures
        ({
            let read = read_retry(
                Some(record.retry_after@),
                Some(record.failures@),
                Some(record.circuit@),
            );
            &&& read.consecutive_failures == state.consecutive_failures
            &&& read.circuit_open == state.circuit_open
            &&& read.retry_after == (match state.retry_after {
                Some(at) => Some(
                    SystemTime { nanos: (at.nanos / 1_000_000 * 1_000_000) as i128 },
                ),
                None => None,
            })
        }),
{
    reveal_strlit("0");
    reveal_strlit("1");
    assert("0"@[0] != "1"@[0]);
    crate::numerals::parsing_undoes_writing(
        state.consecutive_failures as nat,
        u32::MAX as nat,
    );
    if let Some(at) = state.retry_after {
        crate::index::schedule::reading_undoes_stamping(at);
    }
}

/// Whether the free space is too small is told by what is known of it: less than
/// the minimum and the headroom together. Space that is not known is not lacking.
pub proof fn space_is_lacking_below_minimum_and_headroom(
    free: Option<u64>,
    minimum: u64,
    headroom: u64,
)
    ensures
        free is None ==> !space_lacks(free, minimum, headroom),
        free matches Some(bytes) ==> bytes < u64::MAX ==> (space_lacks(free, minimum, headroom)
            <==> bytes < minimum + headroom),
{
}

/// A database takes what its files take together.
pub proof fn databases_take_all_their_files(storage: StorageDiagnostics)
    ensures
        storage.main_bytes + storage.wal_bytes + storage.shm_bytes <= u64::MAX ==> storage.total()
            == storage.main_bytes + storage.wal_bytes + storage.shm_bytes,
        storage.main_bytes + storage.wal_bytes + storage.shm_bytes > u64::MAX ==> storage.total()
            == u64::MAX,
{
}

/// A database whose schema cannot be used is set aside, and so is one that
/// SQLite calls no database or a broken one, in whatever case and wherever in
/// its message.
pub proof fn unusable_databases_are_set_aside(
    error: SchemaError,
    before: Seq<char>,
    message: Seq<char>,
    after: Seq<char>,
)
    ensures
        is_quarantinable(error.text()),
        crate::text::ascii_lowercase(message) == "file is not a database"@
            || crate::text::ascii_lowercase(message) == "database disk image is malformed"@
            ==> is_quarantinable(before + message + after),
{
    let whole = before + message + after;
    let lower = crate::text::ascii_lowercase(whole);
    let at = before.len() as int;
    assert(lower.subrange(at, at + message.len()) =~= crate::text::ascii_lowercase(message));
    if crate::text::ascii_lowercase(message) == "file is not a database"@ {
        assert(crate::text::occurs_at("file is not a database"@, lower, at));
    }
    if crate::text::ascii_lowercase(message) == "database disk image is malformed"@ {
        assert(crate::text::occurs_at("database disk image is malformed"@, lower, at));
    }
    let text = crate::text::ascii_lowercase(error.text());
    reveal_strlit("unsupported namespace index schema version");
    reveal_strlit("unsupported namespace index schema version ");
    reveal_strlit("invalid namespace index schema version");
    reveal_strlit("invalid namespace index schema version ");
    reveal_strlit("namespace index relational and full-text data are inconsistent");
    match error {
        SchemaError::Invalid(version) => {
            let part = "invalid namespace index schema version"@;
            assert(text.subrange(0, part.len() as int) =~= part);
            assert(crate::text::occurs_at(part, text, 0));
        },
        SchemaError::Unsupported(version) => {
            let part = "unsupported namespace index schema version"@;
            assert(text.subrange(0, part.len() as int) =~= part);
            assert(crate::text::occurs_at(part, text, 0));
        },
        SchemaError::Inconsistent => {
            let part = "namespace index relational and full-text data are inconsistent"@;
            assert(text.subrange(0, part.len() as int) =~= part);
            assert(crate::text::occurs_at(part, text, 0));
        },
    }
}

/// A retry that was not stored, or that cannot be read, does not count; each
/// value that can be read does, whatever became of the others.
pub proof fn retries_are_read_value_by_value(
    retry_after: Option<Seq<char>>,
    failures: Option<Seq<char>>,
    circuit: Option<Seq<char>>,
)
    ensures
        ({
            let read = read_retry(retry_after, failures, circuit);
            let count = crate::numerals::parsed(failures->0, 0xffff_ffff);
            &&& retry_after is None ==> read.retry_after is None
            &&& retry_after is Some ==> read.retry_after
                == crate::index::schedule::parsed_stamp(retry_after->0)
            &&& failures is Some && count is Some ==> read.consecutive_failures == count->0
            &&& failures is None || count is None ==> read.consecutive_failures == 0
            &&& read.circuit_open <==> circuit == Some(seq!['1'])
        }),
{
    reveal_strlit("1");
    assert("1"@ =~= seq!['1']);
}

} // verus!
