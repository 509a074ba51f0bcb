//! Inventory entries as they are stored.

use crate::index::generations::MAX_STORED;
use crate::index::profile::{breadcrumbs_json, node_kind_number};
use crate::index::search::normalize_query;
use crate::opc::InventoryEntry;
use crate::text::{is_empty_text, join_texts};
use vstd::prelude::*;

verus! {

/// An entry in the form of its two table rows.
#[derive(Debug, PartialEq, Eq)]
pub struct PreparedEntry {
    pub item_id: String,
    pub item_id_norm: String,
    pub display_name: String,
    pub display_name_norm: String,
    pub kind: i64,
    pub breadcrumbs: String,
    /// The breadcrumbs as the full-text table holds them.
    pub breadcrumb_text: String,
}

/// Why a batch of entries is refused.
#[derive(Debug, Clone, Copy, PartialEq, Eq, Structural)]
pub enum EntryError {
    GenerationExceedsRange,
    EmptyItemId,
}

impl EntryError {
    pub open spec fn text(self) -> Seq<char> {
        match self {
            EntryError::GenerationExceedsRange =>
                "namespace index generation exceeds SQLite range"@,
            EntryError::EmptyItemId => "inventory entry has an empty ItemID"@,
        }
    }

    pub fn message(self) -> (text: String)
        ensures
            text@ == self.text(),
    {
        match self {
            EntryError::GenerationExceedsRange =>
                "namespace index generation exceeds SQLite range".to_owned(),
            EntryError::EmptyItemId => "inventory entry has an empty ItemID".to_owned(),
        }
    }
}

/// Whether a prepared entry stores an inventory entry.
pub open spec fn stores(prepared: PreparedEntry, entry: InventoryEntry) -> bool {
    &&& prepared.item_id == entry.item_id
    &&& prepared.item_id_norm@ == crate::index::search::normalized(entry.item_id@)
    &&& prepared.display_name == entry.display_name
    &&& prepared.display_name_norm@ == crate::index::search::normalized(entry.display_name@)
    &&& prepared.kind == crate::index::profile::kind_number(entry.kind)
    &&& prepared.breadcrumbs@ == crate::index::profile::json_list(
        crate::text::texts(entry.breadcrumbs@),
    )
    &&& crate::index::profile::denotes(
        crate::index::profile::parsed_json_list(prepared.breadcrumbs@),
        crate::text::texts(entry.breadcrumbs@),
    )
    &&& prepared.breadcrumb_text@ == crate::text::join(
        crate::text::texts(entry.breadcrumbs@),
        " "@,
    )
}

fn prepare_entry(entry: &InventoryEntry) -> (prepared: PreparedEntry)
    ensures
        stores(prepared, *entry),
{
    PreparedEntry {
        item_id: entry.item_id.clone(),
        item_id_norm: normalize_query(entry.item_id.as_str()),
        display_name: entry.display_name.clone(),
        display_name_norm: normalize_query(entry.display_name.as_str()),
        kind: node_kind_number(entry.kind),
        breadcrumbs: breadcrumbs_json(&entry.breadcrumbs),
        breadcrumb_text: join_texts(&entry.breadcrumbs, " "),
    }
}

pub open spec fn all_named(entries: Seq<InventoryEntry>) -> bool {
    forall|i: int| 0 <= i < entries.len() ==> (#[trigger] entries[i]).item_id@.len() > 0
}

/// Prepares a batch of entries for a generation. A batch with an entry that
/// has no item ID is refused as a whole.
pub fn prepare_entries(entries: &Vec<InventoryEntry>, generation: u64) -> (prepared: Result<
    Vec<PreparedEntry>,
    EntryError,
>)
    ensures
        prepared is Ok <==> generation <= MAX_STORED && all_named(entries@),
        prepared is Ok <==> generation <= i64::MAX && forall|i: int|
            0 <= i < entries@.len() ==> (#[trigger] entries@[i]).item_id@.len() > 0,
        prepared matches Ok(rows) ==> rows@.len() == entries@.len() && (forall|i: int|
            0 <= i < rows@.len() ==> stores(#[trigger] rows@[i], entries@[i])),
        prepared matches Err(error) ==> error == (if generation > MAX_STORED {
            EntryError::GenerationExceedsRange
        } else {
            EntryError::EmptyItemId
        }),
{
    if generation > MAX_STORED {
        return Err(EntryError::GenerationExceedsRange);
    }
    let mut rows: Vec<PreparedEntry> = Vec::new();
    let mut i: usize = 0;
    while i < entries.len()
        invariant
            i <= entries.len(),
            rows@.len() == i,
            generation <= MAX_STORED,
            forall|j: int| 0 <= j < i ==> (#[trigger] entries@[j]).item_id@.len() > 0,
            forall|j: int| 0 <= j < i ==> stores(#[trigger] rows@[j], entries@[j]),
        decreases entries.len() - i,
    {
        if is_empty_text(entries[i].item_id.as_str()) {
            assert(entries@[i as int].item_id@.len() == 0);
            return Err(EntryError::EmptyItemId);
        }
        rows.push(prepare_entry(&entries[i]));
        i += 1;
    }
    Ok(rows)
}

pub open spec fn total_of(changes: Seq<u64>) -> int
    decreases changes.len(),
{
    if changes.len() == 0 {
        0
    } else {
        total_of(changes.drop_last()) + changes.last()
    }
}

/// How many rows a batch added, given how many each of its inserts did.
pub fn count_inserted(changes: &Vec<u64>) -> (count: u64)
    ensures
        count == crate::controller::at_most(total_of(changes@), u64::MAX as int),
{
    let mut count: u64 = 0;
    let mut i: usize = 0;
    while i < changes.len()
        invariant
            i <= changes.len(),
            count == crate::controller::at_most(
                total_of(changes@.take(i as int)),
                u64::MAX as int,
            ),
            total_of(changes@.take(i as int)) >= 0,
        decreases changes.len() - i,
    {
        proof {
            assert(changes@.take(i + 1).drop_last() =~= changes@.take(i as int));
        }
        count = count.saturating_add(changes[i]);
        i += 1;
    }
    assert(changes@.take(changes.len() as int) =~= changes@);
    count
}

/// A stored entry is read back as the inventory reported it: its row can be
/// read, and whatever match is read from it has the entry's details.
pub proof fn stored_entry_is_read_back(
    prepared: PreparedEntry,
    entry: InventoryEntry,
    column: usize,
)
    requires
        stores(prepared, entry),
    ensures
        crate::index::search::row_refusal(prepared.kind, prepared.breadcrumbs@, column) is None,
        forall|found: crate::index::search::IndexedMatch| #[trigger]
            crate::index::search::row_holds(
                prepared.item_id,
                prepared.display_name,
                prepared.kind,
                prepared.breadcrumbs@,
                found,
            ) ==> found.item_id == entry.item_id && found.display_name == entry.display_name
                && found.kind == entry.kind && crate::text::texts(found.breadcrumbs@)
                == crate::text::texts(entry.breadcrumbs@),
{
}

/// An entry is stored under its own name and item ID, beside both as searches
/// compare them, with its kind as a number and its path as a list and as a text.
pub proof fn entries_are_stored_as_they_are(prepared: PreparedEntry, entry: InventoryEntry)
    requires
        stores(prepared, entry),
    ensures
        prepared.item_id@ == entry.item_id@,
        prepared.display_name@ == entry.display_name@,
        prepared.item_id_norm@ == crate::index::search::normalized(entry.item_id@),
        prepared.display_name_norm@ == crate::index::search::normalized(entry.display_name@),
        entry.kind is Item ==> prepared.kind == 1,
        entry.kind is BranchAndItem ==> prepared.kind == 2,
        crate::index::profile::parsed_json_list(prepared.breadcrumbs@) is Ok,
        crate::index::profile::parsed_json_list(prepared.breadcrumbs@)->Ok_0
            == crate::text::texts(entry.breadcrumbs@),
{
}

/// The count of what was inserted is the sum over all parts.
pub proof fn totals_add_up(front: Seq<u64>, back: Seq<u64>)
    ensures
        total_of(front + back) == total_of(front) + total_of(back),
        forall|n: u64| total_of(#[trigger] seq![n]) == n,
        total_of(Seq::empty()) == 0,
    decreases back.len(),
{
    reveal_with_fuel(total_of, 2);
    assert forall|n: u64| total_of(#[trigger] seq![n]) == n by {
        assert(seq![n].drop_last() =~= Seq::<u64>::empty());
    }
    if back.len() > 0 {
        totals_add_up(front, back.drop_last());
        assert((front + back).drop_last() =~= front + back.drop_last());
    } else {
        assert(front + back =~= front);
    }
}

} // verus!
