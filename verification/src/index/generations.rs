//! The stored generations of a server's index and the life cycle that they go
//! through: staged, then promoted or failed, then superseded and removed.

use crate::index::profile::StoredIndexProfile;
use crate::opc::{BrowseSource, InventoryProgress, NamespaceOrganization};
use crate::text::same_text;
use vstd::prelude::*;

verus! {

/// The largest number that the database stores.
pub const MAX_STORED: u64 = 0x7fff_ffff_ffff_ffff;

/// How many rows of each kind one cleanup batch removes at most.
pub const CLEANUP_BATCH_SIZE: usize = 10_000;

#[derive(Debug, Clone, Copy, PartialEq, Eq, Structural)]
pub enum GenerationState {
    Staging,
    Active,
    Superseded,
    Failed,
}

pub open spec fn state_name(state: GenerationState) -> Seq<char> {
    match state {
        GenerationState::Staging => "staging"@,
        GenerationState::Active => "active"@,
        GenerationState::Superseded => "superseded"@,
        GenerationState::Failed => "failed"@,
    }
}

pub fn generation_state_string(state: GenerationState) -> (name: &'static str)
    ensures
        name@ == state_name(state),
{
    match state {
        GenerationState::Staging => "staging",
        GenerationState::Active => "active",
        GenerationState::Superseded => "superseded",
        GenerationState::Failed => "failed",
    }
}

pub open spec fn state_named(name: Seq<char>) -> Option<GenerationState> {
    if name == "staging"@ {
        Some(GenerationState::Staging)
    } else if name == "active"@ {
        Some(GenerationState::Active)
    } else if name == "superseded"@ {
        Some(GenerationState::Superseded)
    } else if name == "failed"@ {
        Some(GenerationState::Failed)
    } else {
        None
    }
}

pub fn parse_generation_state(name: &str) -> (state: Option<GenerationState>)
    ensures
        state == state_named(name@),
{
    if same_text(name, "staging") {
        Some(GenerationState::Staging)
    } else if same_text(name, "active") {
        Some(GenerationState::Active)
    } else if same_text(name, "superseded") {
        Some(GenerationState::Superseded)
    } else if same_text(name, "failed") {
        Some(GenerationState::Failed)
    } else {
        None
    }
}

/// A stored state is read back as it was.
pub proof fn stored_state_is_read_back(state: GenerationState)
    ensures
        state_named(state_name(state)) == Some(state),
{
    reveal_strlit("staging");
    reveal_strlit("active");
    reveal_strlit("superseded");
    reveal_strlit("failed");
    assert("staging"@.len() == 7 && "active"@.len() == 6 && "superseded"@.len() == 10);
    assert("failed"@.len() == 6 && "active"@[0] != "failed"@[0]);
}

/// One generation of a server's index.
#[derive(Debug, PartialEq, Eq)]
pub struct GenerationRow {
    pub generation: u64,
    pub state: GenerationState,
    pub organization: NamespaceOrganization,
    pub source: BrowseSource,
    pub started_at: String,
    pub completed_at: Option<String>,
    pub entry_count: u64,
    pub unique_item_count: u64,
    pub last_error: Option<String>,
    pub compatibility_fallback: bool,
}

/// Why an operation on the generations is refused.
#[derive(Debug, Clone, Copy, PartialEq, Eq, Structural)]
pub enum GenerationError {
    /// There is no number left for another generation.
    Exhausted,
    GenerationExceedsRange,
    EntryCountExceedsRange,
    UniqueItemCountExceedsRange,
    NotStaging,
}

impl GenerationError {
    pub open spec fn text(self) -> Seq<char> {
        match self {
            GenerationError::Exhausted => "namespace index generations are exhausted"@,
            GenerationError::GenerationExceedsRange =>
                "namespace index generation exceeds SQLite range"@,
            GenerationError::EntryCountExceedsRange =>
                "namespace index entry count exceeds SQLite range"@,
            GenerationError::UniqueItemCountExceedsRange =>
                "namespace index unique item count exceeds SQLite range"@,
            GenerationError::NotStaging => "namespace index generation is not staging"@,
        }
    }

    pub fn message(self) -> (text: String)
        ensures
            text@ == self.text(),
    {
        match self {
            GenerationError::Exhausted => "namespace index generations are exhausted".to_owned(),
            GenerationError::GenerationExceedsRange =>
                "namespace index generation exceeds SQLite range".to_owned(),
            GenerationError::EntryCountExceedsRange =>
                "namespace index entry count exceeds SQLite range".to_owned(),
            GenerationError::UniqueItemCountExceedsRange =>
                "namespace index unique item count exceeds SQLite range".to_owned(),
            GenerationError::NotStaging => "namespace index generation is not staging".to_owned(),
        }
    }
}

pub open spec fn in_state(rows: Seq<GenerationRow>, i: int, state: GenerationState) -> bool {
    0 <= i < rows.len() && rows[i].state == state
}

/// Whether no number is used twice.
pub open spec fn numbers_differ(rows: Seq<GenerationRow>) -> bool {
    forall|i: int, j: int|
        0 <= i < j < rows.len() ==> (#[trigger] rows[i]).generation != (
        #[trigger] rows[j]).generation
}

/// Whether rows can be stored as the generations of a server: no number is
/// used twice, and none is too large.
pub open spec fn storable(rows: Seq<GenerationRow>) -> bool {
    &&& numbers_differ(rows)
    &&& forall|i: int| 0 <= i < rows.len() ==> (#[trigger] rows[i]).generation <= MAX_STORED
}

/// What holds of the generations of a server as long as nobody else writes
/// them: they can be stored, their numbers start at one, and at most one of them
/// is active.
pub open spec fn table_ok(rows: Seq<GenerationRow>) -> bool {
    &&& storable(rows)
    &&& forall|i: int| 0 <= i < rows.len() ==> 1 <= (#[trigger] rows[i]).generation
    &&& forall|i: int, j: int|
        in_state(rows, i, GenerationState::Active) && in_state(rows, j, GenerationState::Active)
            ==> i == j
}

/// Whether rows can be stored as the generations of a server.
pub fn is_storable_table(rows: &Vec<GenerationRow>) -> (ok: bool)
    ensures
        ok == storable(rows@),
{
    let mut i: usize = 0;
    while i < rows.len()
        invariant
            i <= rows.len(),
            forall|a: int, b: int|
                0 <= a < b < rows@.len() && a < i ==> (#[trigger] rows@[a]).generation != (
                #[trigger] rows@[b]).generation,
            forall|a: int| 0 <= a < i ==> (#[trigger] rows@[a]).generation <= MAX_STORED,
        decreases rows.len() - i,
    {
        if rows[i].generation > MAX_STORED {
            return false;
        }
        let mut j: usize = i + 1;
        while j < rows.len()
            invariant
                i < j <= rows.len(),
                forall|b: int|
                    i < b < j ==> (#[trigger] rows@[b]).generation != rows@[i as int].generation,
            decreases rows.len() - j,
        {
            if rows[j].generation == rows[i].generation {
                return false;
            }
            j += 1;
        }
        i += 1;
    }
    true
}

/// The largest generation number, zero where there is none.
pub open spec fn max_generation(rows: Seq<GenerationRow>) -> u64
    decreases rows.len(),
{
    if rows.len() == 0 {
        0
    } else {
        let before = max_generation(rows.drop_last());
        if rows.last().generation > before {
            rows.last().generation
        } else {
            before
        }
    }
}

proof fn max_generation_bounds(rows: Seq<GenerationRow>, i: int)
    requires
        0 <= i < rows.len(),
    ensures
        rows[i].generation <= max_generation(rows),
    decreases rows.len(),
{
    if i < rows.len() - 1 {
        max_generation_bounds(rows.drop_last(), i);
    }
}

fn largest_generation(rows: &Vec<GenerationRow>) -> (largest: u64)
    ensures
        largest == max_generation(rows@),
{
    let mut largest: u64 = 0;
    let mut i: usize = 0;
    while i < rows.len()
        invariant
            i <= rows.len(),
            largest == max_generation(rows@.take(i as int)),
        decreases rows.len() - i,
    {
        proof {
            assert(rows@.take(i + 1).drop_last() =~= rows@.take(i as int));
        }
        if rows[i].generation > largest {
            largest = rows[i].generation;
        }
        i += 1;
    }
    assert(rows@.take(rows.len() as int) =~= rows@);
    largest
}

pub open spec fn staged(
    generation: u64,
    organization: NamespaceOrganization,
    source: BrowseSource,
    started_at: String,
) -> GenerationRow {
    GenerationRow {
        generation,
        state: GenerationState::Staging,
        organization,
        source,
        started_at,
        completed_at: None,
        entry_count: 0,
        unique_item_count: 0,
        last_error: None,
        compatibility_fallback: false,
    }
}

pub open spec fn larger(a: u64, b: u64) -> u64 {
    if a < b {
        b
    } else {
        a
    }
}

/// Stages a new generation under the next number after `last`, the largest
/// number of generations that are not among the rows, and those of the rows.
pub fn start_generation_after(
    rows: &mut Vec<GenerationRow>,
    last: u64,
    organization: NamespaceOrganization,
    source: BrowseSource,
    started_at: String,
) -> (generation: Result<u64, GenerationError>)
    requires
        storable(old(rows)@),
    ensures
        storable(final(rows)@),
        table_ok(old(rows)@) ==> table_ok(final(rows)@),
        generation is Ok <==> larger(max_generation(old(rows)@), last) < MAX_STORED,
        generation matches Ok(g) ==> g == larger(max_generation(old(rows)@), last) + 1,
        generation matches Ok(g) ==> final(rows)@ == old(rows)@.push(
            staged(g, organization, source, started_at),
        ),
        generation matches Err(error) ==> error == GenerationError::Exhausted && final(rows)@
            == old(rows)@,
{
    let among: u64 = largest_generation(rows);
    let largest: u64 = if among < last {
        last
    } else {
        among
    };
    if largest >= MAX_STORED {
        return Err(GenerationError::Exhausted);
    }
    let generation: u64 = largest + 1;
    let ghost before = rows@;
    rows.push(
        GenerationRow {
            generation,
            state: GenerationState::Staging,
            organization,
            source,
            started_at,
            completed_at: None,
            entry_count: 0,
            unique_item_count: 0,
            last_error: None,
            compatibility_fallback: false,
        },
    );
    proof {
        assert forall|i: int| 0 <= i < before.len() implies (
        #[trigger] before[i]).generation < generation by {
            max_generation_bounds(before, i);
        }
        if table_ok(before) {
            assert forall|i: int, j: int|
                in_state(rows@, i, GenerationState::Active) && in_state(
                    rows@,
                    j,
                    GenerationState::Active,
                ) implies i == j by {
                assert(in_state(before, i, GenerationState::Active));
                assert(in_state(before, j, GenerationState::Active));
            }
        }
    }
    Ok(generation)
}

/// Stages a new generation under the next number.
pub fn start_generation(
    rows: &mut Vec<GenerationRow>,
    organization: NamespaceOrganization,
    source: BrowseSource,
    started_at: String,
) -> (generation: Result<u64, GenerationError>)
    requires
        storable(old(rows)@),
    ensures
        storable(final(rows)@),
        table_ok(old(rows)@) ==> table_ok(final(rows)@),
        generation is Ok <==> max_generation(old(rows)@) < MAX_STORED,
        generation is Ok <==> max_generation(old(rows)@) < i64::MAX,
        generation matches Ok(g) ==> g == max_generation(old(rows)@) + 1 && final(rows)@ == old(
            rows,
        )@.push(staged(g, organization, source, started_at)),
        generation matches Err(error) ==> error == GenerationError::Exhausted && final(rows)@
            == old(rows)@,
{
    start_generation_after(rows, 0, organization, source, started_at)
}

/// Whether a row is the staged generation of a number.
pub open spec fn is_staged(row: GenerationRow, generation: u64) -> bool {
    row.generation == generation && row.state == GenerationState::Staging
}

/// Where the staged generation of a number stands.
fn find_staged(rows: &Vec<GenerationRow>, generation: u64) -> (at: Option<usize>)
    ensures
        at matches Some(i) ==> i < rows.len() && is_staged(rows@[i as int], generation) && (forall|
            j: int,
        | 0 <= j < i ==> !is_staged(#[trigger] rows@[j], generation)),
        at is None ==> forall|j: int|
            0 <= j < rows.len() ==> !is_staged(#[trigger] rows@[j], generation),
{
    let mut i: usize = 0;
    while i < rows.len()
        invariant
            i <= rows.len(),
            forall|j: int| 0 <= j < i ==> !is_staged(#[trigger] rows@[j], generation),
        decreases rows.len() - i,
    {
        if rows[i].generation == generation && rows[i].state == GenerationState::Staging {
            return Some(i);
        }
        i += 1;
    }
    None
}

/// The rows after an update of the staged generation of a number alone.
pub open spec fn with_staged(
    rows: Seq<GenerationRow>,
    generation: u64,
    update: spec_fn(GenerationRow) -> GenerationRow,
) -> Seq<GenerationRow> {
    Seq::new(
        rows.len(),
        |i: int|
            if is_staged(rows[i], generation) {
                update(rows[i])
            } else {
                rows[i]
            },
    )
}

/// Records how far the inventory of a staged generation has come.
pub fn update_progress(
    rows: &mut Vec<GenerationRow>,
    generation: u64,
    progress: &InventoryProgress,
) -> (result: Result<(), GenerationError>)
    requires
        storable(old(rows)@),
    ensures
        storable(final(rows)@),
        table_ok(old(rows)@) ==> table_ok(final(rows)@),
        result == (if progress.entries_seen > MAX_STORED {
            Err(GenerationError::EntryCountExceedsRange)
        } else if progress.unique_items > MAX_STORED {
            Err(GenerationError::UniqueItemCountExceedsRange)
        } else if generation > MAX_STORED {
            Err(GenerationError::GenerationExceedsRange)
        } else {
            Ok::<(), GenerationError>(())
        }),
        result is Ok ==> final(rows)@ == with_staged(
            old(rows)@,
            generation,
            |row: GenerationRow|
                GenerationRow {
                    entry_count: progress.entries_seen,
                    unique_item_count: progress.unique_items,
                    ..row
                },
        ),
        result is Err ==> final(rows)@ == old(rows)@,
{
    if progress.entries_seen > MAX_STORED {
        return Err(GenerationError::EntryCountExceedsRange);
    }
    if progress.unique_items > MAX_STORED {
        return Err(GenerationError::UniqueItemCountExceedsRange);
    }
    if generation > MAX_STORED {
        return Err(GenerationError::GenerationExceedsRange);
    }
    if let Some(i) = find_staged(rows, generation) {
        rows[i].entry_count = progress.entries_seen;
        rows[i].unique_item_count = progress.unique_items;
        proof {
            same_shape(old(rows)@, rows@);
        }
    }
    Ok(())
}

/// Rows that keep their numbers and activate nothing keep their table in
/// order.
proof fn same_shape(before: Seq<GenerationRow>, after: Seq<GenerationRow>)
    requires
        storable(before),
        after.len() == before.len(),
        forall|i: int|
            0 <= i < before.len() ==> (#[trigger] after[i]).generation == before[i].generation,
        forall|i: int|
            0 <= i < before.len() && (#[trigger] after[i]).state == GenerationState::Active
                ==> before[i].state == GenerationState::Active,
    ensures
        storable(after),
        table_ok(before) ==> table_ok(after),
{
    assert forall|i: int, j: int| 0 <= i < j < after.len() implies (
    #[trigger] after[i]).generation != (#[trigger] after[j]).generation by {
        assert(before[i].generation != before[j].generation);
    }
    assert forall|i: int| 0 <= i < after.len() implies (#[trigger] after[i]).generation
        <= MAX_STORED by {
        assert(before[i].generation <= MAX_STORED);
    }
    if table_ok(before) {
        assert forall|i: int| 0 <= i < after.len() implies 1 <= (
        #[trigger] after[i]).generation by {
            assert(1 <= before[i].generation);
        }
        assert forall|i: int, j: int|
            in_state(after, i, GenerationState::Active) && in_state(
                after,
                j,
                GenerationState::Active,
            ) implies i == j by {
            assert(in_state(before, i, GenerationState::Active));
            assert(in_state(before, j, GenerationState::Active));
        }
    }
}

/// The promoted form of a staged generation. An index that set out over DA 3
/// and came back over DA 2 is marked as a compatibility fallback.
pub open spec fn promoted_row(
    row: GenerationRow,
    completed_at: String,
    searchable_item_count: u64,
    profile: Option<(NamespaceOrganization, BrowseSource)>,
    warning: Option<String>,
) -> GenerationRow {
    GenerationRow {
        generation: row.generation,
        state: GenerationState::Active,
        organization: match profile {
            Some(p) => p.0,
            None => row.organization,
        },
        source: match profile {
            Some(p) => p.1,
            None => row.source,
        },
        started_at: row.started_at,
        completed_at: Some(completed_at),
        entry_count: searchable_item_count,
        unique_item_count: searchable_item_count,
        last_error: warning,
        compatibility_fallback: row.source == BrowseSource::Da3 && (profile matches Some(p) && p.1
            == BrowseSource::Da2),
    }
}

/// The rows after a promotion: the staged generation is active, and the one
/// that was active before is superseded.
pub open spec fn promoted(
    rows: Seq<GenerationRow>,
    generation: u64,
    completed_at: String,
    searchable_item_count: u64,
    profile: Option<(NamespaceOrganization, BrowseSource)>,
    warning: Option<String>,
) -> Seq<GenerationRow> {
    Seq::new(
        rows.len(),
        |i: int|
            if is_staged(rows[i], generation) {
                promoted_row(rows[i], completed_at, searchable_item_count, profile, warning)
            } else if rows[i].state == GenerationState::Active {
                GenerationRow { state: GenerationState::Superseded, ..rows[i] }
            } else {
                rows[i]
            },
    )
}

pub open spec fn has_staged(rows: Seq<GenerationRow>, generation: u64) -> bool {
    exists|i: int| 0 <= i < rows.len() && is_staged(#[trigger] rows[i], generation)
}

/// Makes the staged generation of a number the active one.
pub fn promote_with_profile(
    rows: &mut Vec<GenerationRow>,
    generation: u64,
    completed_at: String,
    searchable_item_count: u64,
    profile: Option<(NamespaceOrganization, BrowseSource)>,
    warning: Option<String>,
) -> (result: Result<(), GenerationError>)
    requires
        storable(old(rows)@),
    ensures
        storable(final(rows)@),
        table_ok(old(rows)@) ==> table_ok(final(rows)@),
        result == (if searchable_item_count > MAX_STORED {
            Err(GenerationError::EntryCountExceedsRange)
        } else if generation > MAX_STORED {
            Err(GenerationError::GenerationExceedsRange)
        } else if !has_staged(old(rows)@, generation) {
            Err(GenerationError::NotStaging)
        } else {
            Ok::<(), GenerationError>(())
        }),
        result is Ok ==> final(rows)@ == promoted(
            old(rows)@,
            generation,
            completed_at,
            searchable_item_count,
            profile,
            warning,
        ),
        result is Err ==> final(rows)@ == old(rows)@,
{
    if searchable_item_count > MAX_STORED {
        return Err(GenerationError::EntryCountExceedsRange);
    }
    if generation > MAX_STORED {
        return Err(GenerationError::GenerationExceedsRange);
    }
    let at: usize = match find_staged(rows, generation) {
        Some(i) => i,
        None => return Err(GenerationError::NotStaging),
    };
    let ghost before = rows@;
    let ghost target = promoted(
        before,
        generation,
        completed_at,
        searchable_item_count,
        profile,
        warning,
    );
    let mut i: usize = 0;
    while i < rows.len()
        invariant
            i <= rows.len(),
            rows@.len() == before.len(),
            at < before.len(),
            is_staged(before[at as int], generation),
            storable(before),
            target == promoted(
                before,
                generation,
                completed_at,
                searchable_item_count,
                profile,
                warning,
            ),
            forall|j: int| 0 <= j < i && j != at ==> #[trigger] rows@[j] == target[j],
            forall|j: int| i <= j < rows.len() ==> #[trigger] rows@[j] == before[j],
            i > at ==> rows@[at as int] == before[at as int],
        decreases rows.len() - i,
    {
        if rows[i].state == GenerationState::Active {
            rows[i].state = GenerationState::Superseded;
        }
        proof {
            if i != at {
                assert(before[i as int].generation != before[at as int].generation);
                assert(rows@[i as int] == target[i as int]);
            }
        }
        i += 1;
    }
    rows[at].state = GenerationState::Active;
    rows[at].completed_at = Some(completed_at);
    rows[at].entry_count = searchable_item_count;
    rows[at].unique_item_count = searchable_item_count;
    let fell_back = match profile {
        Some((organization, source)) => {
            let fell_back = rows[at].source == BrowseSource::Da3 && source == BrowseSource::Da2;
            rows[at].organization = organization;
            rows[at].source = source;
            fell_back
        },
        None => false,
    };
    rows[at].compatibility_fallback = fell_back;
    rows[at].last_error = warning;
    proof {
        assert(rows@ =~= target);
        promotion_keeps_the_table(
            before,
            generation,
            completed_at,
            searchable_item_count,
            profile,
            warning,
        );
    }
    Ok(())
}

/// After a promotion the promoted generation is the one active generation,
/// whatever was active before, and the table is as much in order as it was.
pub proof fn promotion_keeps_the_table(
    rows: Seq<GenerationRow>,
    generation: u64,
    completed_at: String,
    searchable_item_count: u64,
    profile: Option<(NamespaceOrganization, BrowseSource)>,
    warning: Option<String>,
)
    requires
        storable(rows),
        has_staged(rows, generation),
    ensures
        ({
            let after = promoted(
                rows,
                generation,
                completed_at,
                searchable_item_count,
                profile,
                warning,
            );
            &&& storable(after)
            &&& table_ok(rows) ==> table_ok(after)
            &&& forall|i: int|
                0 <= i < after.len() ==> ((#[trigger] after[i]).state == GenerationState::Active
                    <==> after[i].generation == generation)
            &&& searchable(after) == Some(generation)
        }),
{
    let after = promoted(
        rows,
        generation,
        completed_at,
        searchable_item_count,
        profile,
        warning,
    );
    let at = choose|i: int| 0 <= i < rows.len() && is_staged(#[trigger] rows[i], generation);
    assert forall|i: int| 0 <= i < after.len() implies ((
    #[trigger] after[i]).state == GenerationState::Active <==> after[i].generation == generation)
        && after[i].generation == rows[i].generation by {
        if i != at {
            assert(rows[i].generation != rows[at].generation);
        }
    }
    assert forall|i: int, j: int| 0 <= i < j < after.len() implies (
    #[trigger] after[i]).generation != (#[trigger] after[j]).generation by {
        assert(rows[i].generation != rows[j].generation);
    }
    assert forall|i: int| 0 <= i < after.len() implies (#[trigger] after[i]).generation
        <= MAX_STORED && (table_ok(rows) ==> 1 <= after[i].generation) by {
        assert(rows[i].generation <= MAX_STORED);
    }
    assert forall|i: int, j: int|
        in_state(after, i, GenerationState::Active) && in_state(
            after,
            j,
            GenerationState::Active,
        ) implies i == j by {
        assert(after[i].generation == after[j].generation);
    }
    assert(in_state(after, at, GenerationState::Active));
    assert(is_newest(after, GenerationState::Active, at));
    newest_is_unique(after, GenerationState::Active, at);
}

/// A row as a failed one, with its error.
pub open spec fn failing(error: String) -> spec_fn(GenerationRow) -> GenerationRow {
    |row: GenerationRow|
        GenerationRow { state: GenerationState::Failed, last_error: Some(error), ..row }
}

/// Marks the staged generation of a number as failed.
pub fn fail_generation(
    rows: &mut Vec<GenerationRow>,
    generation: u64,
    error: String,
) -> (result: Result<(), GenerationError>)
    requires
        storable(old(rows)@),
    ensures
        storable(final(rows)@),
        table_ok(old(rows)@) ==> table_ok(final(rows)@),
        result == (if generation > MAX_STORED {
            Err(GenerationError::GenerationExceedsRange)
        } else {
            Ok::<(), GenerationError>(())
        }),
        result is Ok ==> final(rows)@ == with_staged(old(rows)@, generation, failing(error)),
        result is Err ==> final(rows)@ == old(rows)@,
{
    if generation > MAX_STORED {
        return Err(GenerationError::GenerationExceedsRange);
    }
    if let Some(i) = find_staged(rows, generation) {
        rows[i].state = GenerationState::Failed;
        rows[i].last_error = Some(error);
        proof {
            same_shape(old(rows)@, rows@);
        }
    }
    Ok(())
}

/// Removes the staged generation of a number if it holds no entries, and tells
/// whether it did.
pub fn discard_empty_generation(
    rows: &mut Vec<GenerationRow>,
    generation: u64,
    has_entries: bool,
) -> (discarded: Result<bool, GenerationError>)
    requires
        storable(old(rows)@),
    ensures
        storable(final(rows)@),
        table_ok(old(rows)@) ==> table_ok(final(rows)@),
        discarded == (if generation > MAX_STORED {
            Err(GenerationError::GenerationExceedsRange)
        } else {
            Ok::<bool, GenerationError>(!has_entries && has_staged(old(rows)@, generation))
        }),
        discarded == Ok::<bool, GenerationError>(true) ==> exists|i: int|
            0 <= i < old(rows)@.len() && is_staged(#[trigger] old(rows)@[i], generation)
                && final(rows)@ == old(rows)@.remove(i),
        discarded != Ok::<bool, GenerationError>(true) ==> final(rows)@ == old(rows)@,
{
    if generation > MAX_STORED {
        return Err(GenerationError::GenerationExceedsRange);
    }
    if has_entries {
        return Ok(false);
    }
    match find_staged(rows, generation) {
        Some(i) => {
            let ghost before = rows@;
            let _ = rows.remove(i);
            proof {
                assert(is_staged(before[i as int], generation));
                removal_keeps_the_table(before, i as int);
            }
            Ok(true)
        },
        None => Ok(false),
    }
}

/// Gives up a staged generation: one without entries is dropped, any other is
/// kept as failed for the reason. Tells whether it was dropped.
pub fn abandon_generation(
    rows: &mut Vec<GenerationRow>,
    generation: u64,
    has_entries: bool,
    reason: String,
) -> (dropped: Result<bool, GenerationError>)
    requires
        storable(old(rows)@),
    ensures
        storable(final(rows)@),
        table_ok(old(rows)@) ==> table_ok(final(rows)@),
        dropped == (if generation > MAX_STORED {
            Err(GenerationError::GenerationExceedsRange)
        } else {
            Ok::<bool, GenerationError>(!has_entries && has_staged(old(rows)@, generation))
        }),
        dropped == Ok::<bool, GenerationError>(true) ==> exists|i: int|
            0 <= i < old(rows)@.len() && is_staged(#[trigger] old(rows)@[i], generation)
                && final(rows)@ == old(rows)@.remove(i),
        dropped == Ok::<bool, GenerationError>(false) ==> final(rows)@ == with_staged(
            old(rows)@,
            generation,
            failing(reason),
        ),
        dropped is Err ==> final(rows)@ == old(rows)@,
{
    match discard_empty_generation(rows, generation, has_entries) {
        Ok(true) => Ok(true),
        Ok(false) => {
            match fail_generation(rows, generation, reason) {
                Ok(_) => Ok(false),
                Err(error) => Err(error),
            }
        },
        Err(error) => Err(error),
    }
}

proof fn removal_keeps_the_table(rows: Seq<GenerationRow>, at: int)
    requires
        storable(rows),
        0 <= at < rows.len(),
    ensures
        storable(rows.remove(at)),
        table_ok(rows) ==> table_ok(rows.remove(at)),
{
    let after = rows.remove(at);
    let back = |i: int|
        if i < at {
            i
        } else {
            i + 1
        };
    assert forall|i: int, j: int| 0 <= i < j < after.len() implies (
    #[trigger] after[i]).generation != (#[trigger] after[j]).generation by {
        assert(rows[back(i)].generation != rows[back(j)].generation);
    }
    assert forall|i: int| 0 <= i < after.len() implies (#[trigger] after[i]).generation
        <= MAX_STORED && (table_ok(rows) ==> 1 <= after[i].generation) by {
        assert(rows[back(i)].generation <= MAX_STORED);
    }
    if table_ok(rows) {
        assert forall|i: int, j: int|
            in_state(after, i, GenerationState::Active) && in_state(
                after,
                j,
                GenerationState::Active,
            ) implies i == j by {
            assert(in_state(rows, back(i), GenerationState::Active));
            assert(in_state(rows, back(j), GenerationState::Active));
        }
    }
}

pub open spec fn any_in_state(rows: Seq<GenerationRow>, state: GenerationState) -> bool {
    exists|i: int| in_state(rows, i, state)
}

pub open spec fn interruption_text() -> Seq<char> {
    "namespace index build interrupted by gateway restart"@
}

/// What becomes of a row whose build no process owns any more: a staged
/// generation is superseded by the active one or, where there is none, failed.
/// An error that was recorded stays.
pub open spec fn recovered_row(
    row: GenerationRow,
    active: bool,
    after: GenerationRow,
) -> bool {
    if row.state == GenerationState::Staging {
        &&& after == (GenerationRow {
            state: if active {
                GenerationState::Superseded
            } else {
                GenerationState::Failed
            },
            last_error: after.last_error,
            ..row
        })
        &&& match row.last_error {
            Some(error) => after.last_error == Some(error),
            None => after.last_error matches Some(error) && error@ == interruption_text(),
        }
    } else {
        after == row
    }
}

/// Settles the staged generations that an interrupted build has left.
pub fn recover_interrupted(rows: &mut Vec<GenerationRow>)
    requires
        storable(old(rows)@),
    ensures
        storable(final(rows)@),
        table_ok(old(rows)@) ==> table_ok(final(rows)@),
        final(rows)@.len() == old(rows)@.len(),
        forall|i: int|
            0 <= i < old(rows)@.len() ==> recovered_row(
                old(rows)@[i],
                any_in_state(old(rows)@, GenerationState::Active),
                #[trigger] final(rows)@[i],
            ),
{
    let active = find_newest(rows, GenerationState::Active).is_some();
    let ghost before = rows@;
    proof {
        if !active {
            assert forall|i: int| !in_state(before, i, GenerationState::Active) by {}
        }
    }
    let mut i: usize = 0;
    while i < rows.len()
        invariant
            i <= rows.len(),
            rows@.len() == before.len(),
            active == any_in_state(before, GenerationState::Active),
            forall|j: int| 0 <= j < i ==> recovered_row(before[j], active, #[trigger] rows@[j]),
            forall|j: int| i <= j < rows.len() ==> #[trigger] rows@[j] == before[j],
        decreases rows.len() - i,
    {
        if rows[i].state == GenerationState::Staging {
            rows[i].state = if active {
                GenerationState::Superseded
            } else {
                GenerationState::Failed
            };
            if rows[i].last_error.is_none() {
                rows[i].last_error =
                Some("namespace index build interrupted by gateway restart".to_owned());
            }
        }
        i += 1;
    }
    proof {
        assert forall|k: int| 0 <= k < before.len() implies (
        #[trigger] rows@[k]).generation == before[k].generation && (rows@[k].state
            == GenerationState::Active ==> before[k].state == GenerationState::Active) by {
            assert(recovered_row(before[k], active, rows@[k]));
        }
        same_shape(before, rows@);
    }
}

/// The newest generation in a state.
pub open spec fn is_newest(rows: Seq<GenerationRow>, state: GenerationState, at: int) -> bool {
    &&& in_state(rows, at, state)
    &&& forall|j: int|
        in_state(rows, j, state) ==> (#[trigger] rows[j]).generation <= rows[at].generation
}

/// The number of the newest generation in a state.
pub open spec fn newest(rows: Seq<GenerationRow>, state: GenerationState) -> Option<u64> {
    if any_in_state(rows, state) {
        let at = choose|at: int| is_newest(rows, state, at);
        Some(rows[at].generation)
    } else {
        None
    }
}

/// Where any generation is in a state, one is the newest in it.
pub proof fn some_row_is_newest(rows: Seq<GenerationRow>, state: GenerationState)
    requires
        any_in_state(rows, state),
    ensures
        exists|at: int| is_newest(rows, state, at),
    decreases rows.len(),
{
    let front = rows.drop_last();
    let last = rows.len() - 1;
    if any_in_state(front, state) {
        some_row_is_newest(front, state);
        let at = choose|at: int| is_newest(front, state, at);
        assert(in_state(front, at, state));
        assert forall|j: int| in_state(rows, j, state) && j < last implies (
        #[trigger] rows[j]).generation <= rows[at].generation by {
            assert(in_state(front, j, state));
            assert(front[j].generation <= front[at].generation);
        }
        if in_state(rows, last, state) && rows[last].generation > rows[at].generation {
            assert(is_newest(rows, state, last));
        } else {
            assert(is_newest(rows, state, at));
        }
    } else {
        let only = choose|i: int| in_state(rows, i, state);
        if only < last {
            assert(in_state(front, only, state));
        }
        assert forall|j: int| in_state(rows, j, state) implies (#[trigger] rows[j]).generation
            <= rows[last].generation by {
            if j < last {
                assert(in_state(front, j, state));
            }
        }
        assert(is_newest(rows, state, last));
    }
}

proof fn newest_is_unique(rows: Seq<GenerationRow>, state: GenerationState, at: int)
    requires
        is_newest(rows, state, at) || (state == GenerationState::Active && in_state(rows, at, state)
            && table_ok(rows)),
    ensures
        newest(rows, state) == Some(rows[at].generation),
{
    assert(in_state(rows, at, state));
    if state == GenerationState::Active && table_ok(rows) {
        assert forall|j: int| in_state(rows, j, state) implies (
        #[trigger] rows[j]).generation <= rows[at].generation by {
            assert(j == at);
        }
    }
    assert(is_newest(rows, state, at));
    let other = choose|k: int| is_newest(rows, state, k);
    assert(is_newest(rows, state, other));
    assert(rows[other].generation <= rows[at].generation);
    assert(rows[at].generation <= rows[other].generation);
}

/// Where the newest generation in a state stands.
pub fn find_newest(rows: &Vec<GenerationRow>, state: GenerationState) -> (at: Option<usize>)
    ensures
        at is Some <==> any_in_state(rows@, state),
        at matches Some(i) ==> is_newest(rows@, state, i as int) && newest(rows@, state) == Some(
            rows@[i as int].generation,
        ),
        at is None ==> newest(rows@, state) is None,
{
    let mut at: Option<usize> = None;
    let mut i: usize = 0;
    while i < rows.len()
        invariant
            i <= rows.len(),
            at matches Some(k) ==> k < i && in_state(rows@, k as int, state) && (forall|j: int|
                0 <= j < i && in_state(rows@, j, state) ==> (
                #[trigger] rows@[j]).generation <= rows@[k as int].generation),
            at is None ==> forall|j: int| 0 <= j < i ==> !in_state(rows@, j, state),
        decreases rows.len() - i,
    {
        if rows[i].state == state {
            let newer = match at {
                Some(k) => rows[i].generation > rows[k].generation,
                None => true,
            };
            if newer {
                assert(in_state(rows@, i as int, state));
                at = Some(i);
            }
        }
        i += 1;
    }
    proof {
        match at {
            Some(k) => {
                newest_is_unique(rows@, state, k as int);
            },
            None => {
                assert forall|j: int| !in_state(rows@, j, state) by {}
            },
        }
    }
    at
}

/// The profile of the active index.
pub fn active_profile(rows: &Vec<GenerationRow>) -> (profile: Option<StoredIndexProfile>)
    ensures
        profile is Some <==> any_in_state(rows@, GenerationState::Active),
        profile matches Some(p) ==> exists|i: int|
            is_newest(rows@, GenerationState::Active, i) && p == (StoredIndexProfile {
                organization: (#[trigger] rows@[i]).organization,
                source: rows@[i].source,
                compatibility_fallback: rows@[i].compatibility_fallback,
            }),
{
    match find_newest(rows, GenerationState::Active) {
        Some(i) => {
            assert(is_newest(rows@, GenerationState::Active, i as int));
            Some(
                StoredIndexProfile {
                    organization: rows[i].organization,
                    source: rows[i].source,
                    compatibility_fallback: rows[i].compatibility_fallback,
                },
            )
        },
        None => None,
    }
}

/// The generation that searches read: the active one or, without one, the
/// newest staged one.
pub open spec fn searchable(rows: Seq<GenerationRow>) -> Option<u64> {
    match newest(rows, GenerationState::Active) {
        Some(generation) => Some(generation),
        None => newest(rows, GenerationState::Staging),
    }
}

pub fn search_generation(rows: &Vec<GenerationRow>) -> (generation: Option<u64>)
    ensures
        generation == searchable(rows@),
{
    match find_newest(rows, GenerationState::Active) {
        Some(i) => Some(rows[i].generation),
        None => match find_newest(rows, GenerationState::Staging) {
            Some(i) => Some(rows[i].generation),
            None => None,
        },
    }
}

/// Whether a generation only waits for its removal.
pub open spec fn is_obsolete(row: GenerationRow) -> bool {
    row.state == GenerationState::Superseded || row.state == GenerationState::Failed
}

pub fn has_obsolete_generations(rows: &Vec<GenerationRow>) -> (found: bool)
    ensures
        found == exists|i: int| 0 <= i < rows@.len() && is_obsolete(#[trigger] rows@[i]),
{
    let mut i: usize = 0;
    while i < rows.len()
        invariant
            i <= rows.len(),
            forall|j: int| 0 <= j < i ==> !is_obsolete(#[trigger] rows@[j]),
        decreases rows.len() - i,
    {
        if rows[i].state == GenerationState::Superseded || rows[i].state
            == GenerationState::Failed {
            assert(is_obsolete(rows@[i as int]));
            return true;
        }
        i += 1;
    }
    false
}

/// Whether a cleanup may remove a row: it is obsolete and none of its entries
/// are left.
pub open spec fn is_removable(row: GenerationRow, occupied: Seq<u64>) -> bool {
    is_obsolete(row) && !occupied.contains(row.generation)
}

fn holds(list: &Vec<u64>, value: u64) -> (found: bool)
    ensures
        found == list@.contains(value),
{
    let mut i: usize = 0;
    while i < list.len()
        invariant
            i <= list.len(),
            forall|j: int| 0 <= j < i ==> #[trigger] list@[j] != value,
        decreases list.len() - i,
    {
        if list[i] == value {
            assert(list@[i as int] == value);
            return true;
        }
        i += 1;
    }
    false
}

/// The rows that stay when at most `limit` removable ones leave, the first
/// ones first.
pub open spec fn swept(rows: Seq<GenerationRow>, occupied: Seq<u64>, limit: nat) -> Seq<
    GenerationRow,
>
    decreases rows.len(),
{
    if rows.len() == 0 {
        rows
    } else if limit > 0 && is_removable(rows[0], occupied) {
        swept(rows.drop_first(), occupied, (limit - 1) as nat)
    } else {
        seq![rows[0]] + swept(rows.drop_first(), occupied, limit)
    }
}

/// Removes obsolete generations without entries, at most `limit` of them.
/// `occupied` lists the generations that still hold entries.
pub fn remove_emptied_generations(
    rows: &mut Vec<GenerationRow>,
    occupied: &Vec<u64>,
    limit: usize,
) -> (removed: usize)
    requires
        storable(old(rows)@),
    ensures
        storable(final(rows)@),
        table_ok(old(rows)@) ==> table_ok(final(rows)@),
        final(rows)@ == swept(old(rows)@, occupied@, limit as nat),
        removed == old(rows)@.len() - final(rows)@.len(),
        removed <= limit,
{
    let mut removed: usize = 0;
    let mut i: usize = 0;
    let ghost before = rows@;
    proof {
        assert(rows@.skip(0) =~= rows@);
        assert(rows@.take(0) + swept(rows@, occupied@, limit as nat) =~= swept(
            before,
            occupied@,
            limit as nat,
        ));
    }
    while i < rows.len() && removed < limit
        invariant
            i <= rows.len(),
            removed <= limit,
            storable(rows@),
            table_ok(before) ==> table_ok(rows@),
            rows@.len() + removed == before.len(),
            rows@.take(i as int) + swept(
                rows@.skip(i as int),
                occupied@,
                (limit - removed) as nat,
            ) == swept(before, occupied@, limit as nat),
        decreases rows.len() - i,
    {
        let ghost rest = rows@.skip(i as int);
        let ghost head = rows@.take(i as int);
        assert(rest.drop_first() =~= rows@.skip(i + 1));
        let obsolete = rows[i].state == GenerationState::Superseded || rows[i].state
            == GenerationState::Failed;
        if obsolete && !holds(occupied, rows[i].generation) {
            proof {
                removal_keeps_the_table(rows@, i as int);
            }
            let ghost had = rows@;
            let _ = rows.remove(i);
            proof {
                assert(rows@.skip(i as int) =~= had.skip(i + 1));
                assert(rows@.take(i as int) =~= had.take(i as int));
            }
            removed += 1;
        } else {
            proof {
                assert(rows@.take(i + 1) =~= head.push(rest[0]));
                assert(head + (seq![rest[0]] + swept(
                    rest.drop_first(),
                    occupied@,
                    (limit - removed) as nat,
                )) =~= rows@.take(i + 1) + swept(
                    rows@.skip(i + 1),
                    occupied@,
                    (limit - removed) as nat,
                ));
            }
            i += 1;
        }
    }
    proof {
        if removed >= limit {
            sweeping_nothing(rows@.skip(i as int), occupied@);
        } else {
            assert(rows@.skip(i as int) =~= Seq::empty());
            assert(swept(rows@.skip(i as int), occupied@, (limit - removed) as nat)
                =~= Seq::empty());
        }
        assert(rows@.take(i as int) + rows@.skip(i as int) =~= rows@);
    }
    removed
}

proof fn sweeping_nothing(rows: Seq<GenerationRow>, occupied: Seq<u64>)
    ensures
        swept(rows, occupied, 0) == rows,
    decreases rows.len(),
{
    if rows.len() > 0 {
        sweeping_nothing(rows.drop_first(), occupied);
        assert(seq![rows[0]] + rows.drop_first() =~= rows);
    }
}

/// A cleanup never removes an active or staged generation, nor one that still
/// holds entries.
pub proof fn cleanup_keeps_what_is_in_use(
    rows: Seq<GenerationRow>,
    occupied: Seq<u64>,
    limit: nat,
    row: GenerationRow,
)
    requires
        rows.contains(row),
        !is_obsolete(row) || occupied.contains(row.generation),
    ensures
        swept(rows, occupied, limit).contains(row),
    decreases rows.len(),
{
    let at = choose|i: int| 0 <= i < rows.len() && rows[i] == row;
    let rest = rows.drop_first();
    if limit > 0 && is_removable(rows[0], occupied) {
        assert(at > 0);
        assert(rest[at - 1] == row);
        cleanup_keeps_what_is_in_use(rest, occupied, (limit - 1) as nat, row);
    } else if at == 0 {
        assert((seq![rows[0]] + swept(rest, occupied, limit))[0] == row);
    } else {
        assert(rest[at - 1] == row);
        cleanup_keeps_what_is_in_use(rest, occupied, limit, row);
        let kept = swept(rest, occupied, limit);
        let k = choose|k: int| 0 <= k < kept.len() && kept[k] == row;
        assert((seq![rows[0]] + kept)[k + 1] == row);
    }
}

/// Progress and failure of a build leave the active generation as it is, so
/// searches keep reading it.
pub proof fn failing_keeps_the_active_generation(
    rows: Seq<GenerationRow>,
    generation: u64,
    update: spec_fn(GenerationRow) -> GenerationRow,
    at: int,
)
    requires
        table_ok(rows),
        in_state(rows, at, GenerationState::Active),
        forall|row: GenerationRow|
            row.state == GenerationState::Staging ==> (#[trigger] update(row)).state
                != GenerationState::Active,
    ensures
        with_staged(rows, generation, update)[at] == rows[at],
        searchable(with_staged(rows, generation, update)) == searchable(rows),
{
    let after = with_staged(rows, generation, update);
    newest_is_unique(rows, GenerationState::Active, at);
    assert(in_state(after, at, GenerationState::Active));
    assert forall|j: int| in_state(after, j, GenerationState::Active) implies (
    #[trigger] after[j]).generation <= after[at].generation by {
        if is_staged(rows[j], generation) {
            assert(update(rows[j]).state != GenerationState::Active);
        } else {
            assert(in_state(rows, j, GenerationState::Active));
            assert(j == at);
        }
    }
    newest_is_unique(after, GenerationState::Active, at);
}

/// After the recovery from an interrupted build nothing is staged, and what
/// was active still is.
pub proof fn recovery_leaves_nothing_staged(
    before: Seq<GenerationRow>,
    after: Seq<GenerationRow>,
    active: bool,
)
    requires
        after.len() == before.len(),
        forall|i: int|
            0 <= i < before.len() ==> recovered_row(before[i], active, #[trigger] after[i]),
    ensures
        !any_in_state(after, GenerationState::Staging),
        forall|i: int|
            in_state(before, i, GenerationState::Active) ==> #[trigger] after[i] == before[i],
{
    assert forall|i: int| !in_state(after, i, GenerationState::Staging) by {
        if 0 <= i < after.len() {
            assert(recovered_row(before[i], active, after[i]));
        }
    }
    assert forall|i: int| in_state(before, i, GenerationState::Active) implies #[trigger] after[i]
        == before[i] by {
        assert(recovered_row(before[i], active, after[i]));
    }
}

/// A new generation does not change what searches read while one is active.
pub proof fn staging_keeps_the_active_generation(rows: Seq<GenerationRow>, row: GenerationRow)
    requires
        table_ok(rows),
        row.state == GenerationState::Staging,
        any_in_state(rows, GenerationState::Active),
    ensures
        searchable(rows.push(row)) == searchable(rows),
{
    let at = choose|i: int| in_state(rows, i, GenerationState::Active);
    newest_is_unique(rows, GenerationState::Active, at);
    let after = rows.push(row);
    assert(in_state(after, at, GenerationState::Active));
    assert forall|j: int| in_state(after, j, GenerationState::Active) implies (
    #[trigger] after[j]).generation <= after[at].generation by {
        assert(in_state(rows, j, GenerationState::Active));
        assert(j == at);
    }
    newest_is_unique(after, GenerationState::Active, at);
}

/// A new generation has a number that no other has had: larger than every stored
/// one and than the last that was given out. It is staged, empty, and nothing
/// is known to be wrong with it.
pub proof fn new_generations_are_staged_and_empty(
    rows: Seq<GenerationRow>,
    last: u64,
    organization: NamespaceOrganization,
    source: BrowseSource,
    started_at: String,
)
    requires
        larger(max_generation(rows), last) < u64::MAX,
    ensures
        ({
            let number = (larger(max_generation(rows), last) + 1) as u64;
            let row = staged(number, organization, source, started_at);
            &&& number > last
            &&& forall|i: int| 0 <= i < rows.len() ==> (#[trigger] rows[i]).generation < number
            &&& number == last + 1 || exists|i: int|
                0 <= i < rows.len() && (#[trigger] rows[i]).generation + 1 == number
            &&& row.generation == number
            &&& row.state is Staging
            &&& row.organization == organization
            &&& row.source == source
            &&& row.started_at == started_at
            &&& row.completed_at is None
            &&& row.last_error is None
            &&& row.entry_count == 0
            &&& row.unique_item_count == 0
            &&& !row.compatibility_fallback
        }),
{
    let number = (larger(max_generation(rows), last) + 1) as u64;
    assert forall|i: int| 0 <= i < rows.len() implies (#[trigger] rows[i]).generation < number by {
        max_generation_bounds(rows, i);
    }
    if number != last + 1 {
        max_generation_is_held(rows);
    }
}

proof fn max_generation_is_held(rows: Seq<GenerationRow>)
    ensures
        max_generation(rows) > 0 ==> exists|i: int|
            0 <= i < rows.len() && (#[trigger] rows[i]).generation == max_generation(rows),
    decreases rows.len(),
{
    if rows.len() > 0 {
        let front = rows.drop_last();
        max_generation_is_held(front);
        if rows.last().generation > max_generation(front) {
            assert(rows[rows.len() - 1].generation == max_generation(rows));
        } else if max_generation(front) > 0 {
            let i = choose|i: int|
                0 <= i < front.len() && (#[trigger] front[i]).generation == max_generation(front);
            assert(rows[i].generation == max_generation(rows));
        }
    }
}

/// A promotion makes the staged generation the active one, with its completion,
/// its items and what the inventory has said of the server; the one that was
/// active is superseded; and no other row changes. The generation counts as
/// fallen back only if it was begun on DA3 and ended on DA2.
pub proof fn promotions_replace_the_active_generation(
    rows: Seq<GenerationRow>,
    generation: u64,
    completed_at: String,
    items: u64,
    profile: Option<(NamespaceOrganization, BrowseSource)>,
    warning: Option<String>,
    i: int,
)
    requires
        0 <= i < rows.len(),
    ensures
        ({
            let after = promoted(rows, generation, completed_at, items, profile, warning);
            let chosen = rows[i].generation == generation && rows[i].state is Staging;
            &&& after.len() == rows.len()
            &&& after[i].generation == rows[i].generation
            &&& after[i].started_at == rows[i].started_at
            &&& chosen ==> {
                &&& after[i].state is Active
                &&& after[i].completed_at == Some(completed_at)
                &&& after[i].entry_count == items
                &&& after[i].unique_item_count == items
                &&& after[i].last_error == warning
                &&& profile is Some ==> after[i].organization == (profile->0).0
                    && after[i].source == (profile->0).1
                &&& profile is None ==> after[i].organization == rows[i].organization
                    && after[i].source == rows[i].source
                &&& after[i].compatibility_fallback <==> rows[i].source is Da3
                    && after[i].source is Da2
            }
            &&& !chosen && rows[i].state is Active ==> {
                &&& after[i].state is Superseded
                &&& after[i] == (GenerationRow { state: after[i].state, ..rows[i] })
            }
            &&& !chosen && !(rows[i].state is Active) ==> after[i] == rows[i]
        }),
{
}

/// A staged generation that fails is marked as failed, with the reason, and
/// keeps everything else; no other row changes.
pub proof fn failures_keep_their_reason(
    rows: Seq<GenerationRow>,
    generation: u64,
    error: String,
    i: int,
)
    requires
        0 <= i < rows.len(),
    ensures
        ({
            let after = with_staged(rows, generation, failing(error));
            let chosen = rows[i].generation == generation && rows[i].state is Staging;
            &&& after.len() == rows.len()
            &&& chosen ==> after[i].state is Failed && after[i].last_error == Some(error)
            &&& chosen ==> after[i] == (GenerationRow {
                state: after[i].state,
                last_error: after[i].last_error,
                ..rows[i]
            })
            &&& !chosen ==> after[i] == rows[i]
        }),
{
}

/// After a restart a generation that was being built is superseded where an
/// index is in use, and failed where none is; a reason that it had is kept, and
/// every other generation stays as it was.
pub proof fn interrupted_builds_are_closed(
    row: GenerationRow,
    active: bool,
    after: GenerationRow,
)
    requires
        recovered_row(row, active, after),
    ensures
        row.state is Staging && active ==> after.state is Superseded,
        row.state is Staging && !active ==> after.state is Failed,
        row.state is Staging ==> after.last_error is Some,
        row.last_error is Some ==> after.last_error == row.last_error,
        !(row.state is Staging) ==> after == row,
        after == (GenerationRow { state: after.state, last_error: after.last_error, ..row }),
{
}

/// Searches go to the newest active generation; where there is none, to the
/// newest that is being built; and nowhere else.
pub proof fn searches_go_to_the_index_in_use(rows: Seq<GenerationRow>, at: int)
    requires
        0 <= at < rows.len(),
    ensures
        rows[at].state is Active && (forall|i: int|
            0 <= i < rows.len() && (#[trigger] rows[i]).state is Active ==> rows[i].generation
                <= rows[at].generation) ==> searchable(rows) == Some(rows[at].generation),
        rows[at].state is Staging && (forall|i: int|
            0 <= i < rows.len() ==> !((#[trigger] rows[i]).state is Active) && (rows[i].state
                is Staging ==> rows[i].generation <= rows[at].generation)) ==> searchable(rows)
            == Some(rows[at].generation),
        (forall|i: int|
            0 <= i < rows.len() ==> !((#[trigger] rows[i]).state is Active) && !(rows[i].state
                is Staging)) ==> searchable(rows) is None,
{
    if rows[at].state is Active && (forall|i: int|
        0 <= i < rows.len() && (#[trigger] rows[i]).state is Active ==> rows[i].generation
            <= rows[at].generation) {
        assert(is_newest(rows, GenerationState::Active, at));
        newest_is_unique(rows, GenerationState::Active, at);
    }
    if rows[at].state is Staging && (forall|i: int|
        0 <= i < rows.len() ==> !((#[trigger] rows[i]).state is Active) && (rows[i].state
            is Staging ==> rows[i].generation <= rows[at].generation)) {
        assert(is_newest(rows, GenerationState::Staging, at));
        newest_is_unique(rows, GenerationState::Staging, at);
    }
}

/// A sweep takes away as much as it may: with room for every row, nothing is
/// left that is obsolete and holds no entries; and what leaves is counted
/// against the limit, so that less leaves only where less can.
pub proof fn sweeps_take_what_they_may(rows: Seq<GenerationRow>, occupied: Seq<u64>, limit: nat)
    ensures
        ({
            let left = swept(rows, occupied, limit);
            let goes = |row: GenerationRow|
                (row.state is Superseded || row.state is Failed) && !occupied.contains(
                    row.generation,
                );
            &&& rows.len() - limit <= left.len() <= rows.len()
            &&& left.len() > rows.len() - limit ==> forall|i: int|
                0 <= i < left.len() ==> !goes(#[trigger] left[i])
            &&& forall|i: int| 0 <= i < left.len() ==> rows.contains(#[trigger] left[i])
        }),
    decreases rows.len(),
{
    let left = swept(rows, occupied, limit);
    let goes = |row: GenerationRow|
        (row.state is Superseded || row.state is Failed) && !occupied.contains(row.generation);
    if rows.len() > 0 {
        let rest = rows.drop_first();
        if limit > 0 && is_removable(rows[0], occupied) {
            sweeps_take_what_they_may(rest, occupied, (limit - 1) as nat);
            assert forall|i: int| 0 <= i < left.len() implies rows.contains(
                #[trigger] left[i],
            ) by {
                assert(rest.contains(left[i]));
                let k = choose|k: int| 0 <= k < rest.len() && rest[k] == left[i];
                assert(rows[k + 1] == left[i]);
            }
        } else {
            sweeps_take_what_they_may(rest, occupied, limit);
            let kept = swept(rest, occupied, limit);
            assert forall|i: int| 0 <= i < left.len() implies rows.contains(
                #[trigger] left[i],
            ) by {
                if i == 0 {
                    assert(left[0] == rows[0]);
                } else {
                    assert(left[i] == kept[i - 1]);
                    assert(rest.contains(kept[i - 1]));
                    let k = choose|k: int| 0 <= k < rest.len() && rest[k] == left[i];
                    assert(rows[k + 1] == left[i]);
                }
            }
            if left.len() > rows.len() - limit {
                assert forall|i: int| 0 <= i < left.len() implies !goes(#[trigger] left[i]) by {
                    if i == 0 {
                        assert(left[0] == rows[0]);
                    } else {
                        assert(left[i] == kept[i - 1]);
                        assert(!goes(kept[i - 1]));
                    }
                }
            }
        }
    }
}

/// A generation can be promoted if a row has its number and is staged.
pub proof fn staged_generations_can_be_promoted(rows: Seq<GenerationRow>, generation: u64, i: int)
    ensures
        0 <= i < rows.len() && rows[i].generation == generation && rows[i].state is Staging
            ==> has_staged(rows, generation),
        has_staged(rows, generation) ==> exists|k: int|
            0 <= k < rows.len() && (#[trigger] rows[k]).generation == generation && rows[k].state
                is Staging,
{
    if 0 <= i < rows.len() && rows[i].generation == generation && rows[i].state is Staging {
        assert(is_staged(rows[i], generation));
    }
    if has_staged(rows, generation) {
        let k = choose|k: int| 0 <= k < rows.len() && is_staged(#[trigger] rows[k], generation);
        assert(rows[k].generation == generation);
    }
}

} // verus!
