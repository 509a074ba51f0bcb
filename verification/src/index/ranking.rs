//! The order of search candidates and the best of them.

use crate::index::search::{normalize_query, search_rank, IndexedMatch};
use crate::text::{chars_of, same_text};
use vstd::prelude::*;

verus! {

/// Whether a text stands before another or equals it in the order of a
/// dictionary, character by character.
pub open spec fn text_leq(a: Seq<char>, b: Seq<char>) -> bool
    decreases a.len(),
{
    if a.len() == 0 {
        true
    } else if b.len() == 0 {
        false
    } else if a[0] != b[0] {
        a[0] < b[0]
    } else {
        text_leq(a.drop_first(), b.drop_first())
    }
}

proof fn text_leq_reflexive(a: Seq<char>)
    ensures
        text_leq(a, a),
    decreases a.len(),
{
    if a.len() > 0 {
        text_leq_reflexive(a.drop_first());
    }
}

proof fn text_leq_antisymmetric(a: Seq<char>, b: Seq<char>)
    requires
        text_leq(a, b),
        text_leq(b, a),
    ensures
        a == b,
    decreases a.len(),
{
    if a.len() == 0 {
        assert(a =~= b);
    } else {
        text_leq_antisymmetric(a.drop_first(), b.drop_first());
        assert(a =~= seq![a[0]] + a.drop_first());
        assert(b =~= seq![b[0]] + b.drop_first());
    }
}

proof fn text_leq_transitive(a: Seq<char>, b: Seq<char>, c: Seq<char>)
    requires
        text_leq(a, b),
        text_leq(b, c),
    ensures
        text_leq(a, c),
    decreases a.len(),
{
    if a.len() > 0 && a[0] == b[0] && b[0] == c[0] {
        text_leq_transitive(a.drop_first(), b.drop_first(), c.drop_first());
    }
}

proof fn text_leq_total(a: Seq<char>, b: Seq<char>)
    ensures
        text_leq(a, b) || text_leq(b, a),
    decreases a.len(),
{
    if a.len() > 0 && b.len() > 0 && a[0] == b[0] {
        text_leq_total(a.drop_first(), b.drop_first());
    }
}

/// What a candidate is ordered by: its tier, the length of its display name,
/// the display name, the item ID, and the item ID as the server spells it.
#[verifier::ext_equal]
pub struct RankKey {
    pub tier: int,
    pub display_name_len: int,
    pub display_name: Seq<char>,
    pub item_id_norm: Seq<char>,
    pub item_id: Seq<char>,
}

pub open spec fn key_leq(a: RankKey, b: RankKey) -> bool {
    if a.tier != b.tier {
        a.tier < b.tier
    } else if a.display_name_len != b.display_name_len {
        a.display_name_len < b.display_name_len
    } else if a.display_name != b.display_name {
        text_leq(a.display_name, b.display_name)
    } else if a.item_id_norm != b.item_id_norm {
        text_leq(a.item_id_norm, b.item_id_norm)
    } else {
        text_leq(a.item_id, b.item_id)
    }
}

pub open spec fn key_order() -> spec_fn(RankKey, RankKey) -> bool {
    |a: RankKey, b: RankKey| key_leq(a, b)
}

/// The order of candidates is total.
pub proof fn key_order_is_total()
    ensures
        vstd::relations::total_ordering(key_order()),
{
    let leq = key_order();
    assert forall|a: RankKey| #[trigger] leq(a, a) by {
        text_leq_reflexive(a.item_id);
    }
    assert forall|a: RankKey, b: RankKey| #[trigger] leq(a, b) && #[trigger] leq(b, a) implies a
        == b by {
        if a.tier == b.tier && a.display_name_len == b.display_name_len {
            if a.display_name != b.display_name {
                text_leq_antisymmetric(a.display_name, b.display_name);
            } else if a.item_id_norm != b.item_id_norm {
                text_leq_antisymmetric(a.item_id_norm, b.item_id_norm);
            } else {
                text_leq_antisymmetric(a.item_id, b.item_id);
            }
        }
    }
    assert forall|a: RankKey, b: RankKey, c: RankKey| #[trigger]
        leq(a, b) && #[trigger] leq(b, c) implies leq(a, c) by {
        if a.tier == b.tier && b.tier == c.tier && a.display_name_len == b.display_name_len
            && b.display_name_len == c.display_name_len {
            if a.display_name != b.display_name || b.display_name != c.display_name {
                if a.display_name == b.display_name {
                    text_leq_reflexive(a.display_name);
                }
                if b.display_name == c.display_name {
                    text_leq_reflexive(b.display_name);
                }
                text_leq_transitive(a.display_name, b.display_name, c.display_name);
                if a.display_name == c.display_name {
                    text_leq_antisymmetric(a.display_name, b.display_name);
                }
            } else if a.item_id_norm != b.item_id_norm || b.item_id_norm != c.item_id_norm {
                if a.item_id_norm == b.item_id_norm {
                    text_leq_reflexive(a.item_id_norm);
                }
                if b.item_id_norm == c.item_id_norm {
                    text_leq_reflexive(b.item_id_norm);
                }
                text_leq_transitive(a.item_id_norm, b.item_id_norm, c.item_id_norm);
                if a.item_id_norm == c.item_id_norm {
                    text_leq_antisymmetric(a.item_id_norm, b.item_id_norm);
                }
            } else {
                text_leq_transitive(a.item_id, b.item_id, c.item_id);
            }
        }
    }
    assert forall|a: RankKey, b: RankKey| #[trigger] leq(a, b) || #[trigger] leq(b, a) by {
        text_leq_total(a.display_name, b.display_name);
        text_leq_total(a.item_id_norm, b.item_id_norm);
        text_leq_total(a.item_id, b.item_id);
    }
}

/// The order of two texts: -1 before, 0 equal, 1 after.
fn text_order(a: &str, b: &str) -> (order: i8)
    ensures
        order == (if a@ == b@ {
            0int
        } else if text_leq(a@, b@) {
            -1
        } else {
            1
        }),
{
    let left = chars_of(a);
    let right = chars_of(b);
    let mut i: usize = 0;
    proof {
        assert(left@.skip(0) =~= a@);
        assert(right@.skip(0) =~= b@);
    }
    while i < left.len() && i < right.len() && left[i] == right[i]
        invariant
            i <= left.len(),
            i <= right.len(),
            left@ == a@,
            right@ == b@,
            left@.take(i as int) == right@.take(i as int),
            text_leq(a@, b@) == text_leq(left@.skip(i as int), right@.skip(i as int)),
        decreases left.len() - i,
    {
        proof {
            assert(left@.skip(i as int).drop_first() =~= left@.skip(i + 1));
            assert(right@.skip(i as int).drop_first() =~= right@.skip(i + 1));
            assert(left@.take(i + 1) =~= left@.take(i as int).push(left@[i as int]));
            assert(right@.take(i + 1) =~= right@.take(i as int).push(right@[i as int]));
        }
        i += 1;
    }
    if i == left.len() && i == right.len() {
        assert(left@.take(i as int) =~= left@);
        assert(right@.take(i as int) =~= right@);
        return 0;
    }
    if i == left.len() {
        return -1;
    }
    if i == right.len() {
        return 1;
    }
    assert(left@[i as int] != right@[i as int]);
    if left[i] < right[i] {
        -1
    } else {
        1
    }
}

#[derive(Debug, PartialEq, Eq)]
pub struct SearchRank {
    pub tier: u8,
    pub display_name_len: usize,
    pub display_name_norm: String,
    pub item_id_norm: String,
}

#[derive(Debug, PartialEq, Eq)]
pub struct SearchCandidate {
    pub rank: SearchRank,
    pub item_id: String,
}

impl SearchCandidate {
    pub open spec fn key(self) -> RankKey {
        RankKey {
            tier: self.rank.tier as int,
            display_name_len: self.rank.display_name_len as int,
            display_name: self.rank.display_name_norm@,
            item_id_norm: self.rank.item_id_norm@,
            item_id: self.item_id@,
        }
    }

    /// Whether a candidate stands before another or is ranked the same.
    pub fn not_after(&self, other: &Self) -> (b: bool)
        ensures
            b == key_leq(self.key(), other.key()),
    {
        if self.rank.tier != other.rank.tier {
            return self.rank.tier < other.rank.tier;
        }
        if self.rank.display_name_len != other.rank.display_name_len {
            return self.rank.display_name_len < other.rank.display_name_len;
        }
        let by_name: i8 = text_order(
            self.rank.display_name_norm.as_str(),
            other.rank.display_name_norm.as_str(),
        );
        if by_name != 0 {
            return by_name < 0;
        }
        let by_item: i8 = text_order(
            self.rank.item_id_norm.as_str(),
            other.rank.item_id_norm.as_str(),
        );
        if by_item != 0 {
            return by_item < 0;
        }
        proof {
            text_leq_reflexive(self.item_id@);
        }
        text_order(self.item_id.as_str(), other.item_id.as_str()) <= 0
    }
}

/// The rank key of an entry under a normalized query.
pub open spec fn key_for(
    query: Seq<char>,
    display_name_norm: Seq<char>,
    item_id_norm: Seq<char>,
    item_id: Seq<char>,
) -> RankKey {
    RankKey {
        tier: crate::index::search::rank(query, display_name_norm, item_id_norm) as int,
        display_name_len: display_name_norm.len() as int,
        display_name: display_name_norm,
        item_id_norm,
        item_id,
    }
}

pub fn candidate(
    query: &str,
    display_name_norm: String,
    item_id_norm: String,
    item_id: String,
) -> (candidate: SearchCandidate)
    ensures
        candidate.key() == key_for(query@, display_name_norm@, item_id_norm@, item_id@),
        candidate.item_id == item_id,
{
    let tier: u8 = search_rank(query, display_name_norm.as_str(), item_id_norm.as_str());
    let display_name_len: usize = chars_of(display_name_norm.as_str()).len();
    SearchCandidate {
        rank: SearchRank { tier, display_name_len, display_name_norm, item_id_norm },
        item_id,
    }
}

pub open spec fn keys_of(candidates: Seq<SearchCandidate>) -> Seq<RankKey> {
    candidates.map_values(|c: SearchCandidate| c.key())
}

/// The best `n` of some keys, in order.
pub open spec fn best(keys: Seq<RankKey>, n: nat) -> Seq<RankKey> {
    let sorted = keys.sort_by(key_order());
    if sorted.len() <= n {
        sorted
    } else {
        sorted.take(n as int)
    }
}

/// The place of a candidate among candidates in order: after all that are not
/// after it.
fn place_of(sorted: &Vec<SearchCandidate>, candidate: &SearchCandidate) -> (at: usize)
    requires
        vstd::relations::sorted_by(keys_of(sorted@), key_order()),
    ensures
        at <= sorted.len(),
        forall|k: int|
            0 <= k < at ==> key_leq(#[trigger] keys_of(sorted@)[k], candidate.key()),
        forall|k: int|
            at <= k < sorted.len() ==> !key_leq(#[trigger] keys_of(sorted@)[k], candidate.key()),
{
    let mut at: usize = sorted.len();
    while at > 0 && !sorted[at - 1].not_after(candidate)
        invariant
            at <= sorted.len(),
            forall|k: int|
                at <= k < sorted.len() ==> !key_leq(
                    #[trigger] keys_of(sorted@)[k],
                    candidate.key(),
                ),
        decreases at,
    {
        assert(keys_of(sorted@)[at - 1] == sorted@[at - 1].key());
        at -= 1;
    }
    proof {
        key_order_is_total();
        let leq = key_order();
        if at > 0 {
            let last = keys_of(sorted@)[at - 1];
            assert(last == sorted@[at - 1].key());
            assert forall|k: int| 0 <= k < at implies key_leq(
                #[trigger] keys_of(sorted@)[k],
                candidate.key(),
            ) by {
                if k < at - 1 {
                    let first = keys_of(sorted@)[k];
                    assert(leq(first, last));
                    assert(leq(last, candidate.key()));
                    assert(leq(first, candidate.key()));
                }
            }
        }
    }
    at
}

proof fn inserted_in_order(keys: Seq<RankKey>, at: int, key: RankKey)
    requires
        vstd::relations::sorted_by(keys, key_order()),
        0 <= at <= keys.len(),
        forall|k: int| 0 <= k < at ==> key_leq(#[trigger] keys[k], key),
        forall|k: int| at <= k < keys.len() ==> !key_leq(#[trigger] keys[k], key),
    ensures
        vstd::relations::sorted_by(keys.insert(at, key), key_order()),
{
    key_order_is_total();
    let leq = key_order();
    let after = keys.insert(at, key);
    assert forall|i: int, j: int| 0 <= i < j < after.len() implies #[trigger] leq(
        after[i],
        after[j],
    ) by {
        if i < at && j < at {
            assert(leq(keys[i], keys[j]));
        } else if i < at && j == at {
            assert(key_leq(keys[i], key));
        } else if i < at {
            assert(leq(keys[i], keys[j - 1]));
        } else if i == at {
            assert(!key_leq(keys[j - 1], key));
            assert(leq(key, keys[j - 1]) || leq(keys[j - 1], key));
        } else {
            assert(leq(keys[i - 1], keys[j - 1]));
        }
    }
}

/// Keys have one ordered arrangement only.
proof fn best_of_sorted(sorted: Seq<RankKey>, keys: Seq<RankKey>)
    requires
        vstd::relations::sorted_by(sorted, key_order()),
        sorted.to_multiset() == keys.to_multiset(),
    ensures
        keys.sort_by(key_order()) == sorted,
        sorted.len() == keys.len(),
{
    key_order_is_total();
    keys.lemma_sort_by_ensures(key_order());
    vstd::seq_lib::lemma_sorted_unique(keys.sort_by(key_order()), sorted, key_order());
    sorted.to_multiset_ensures();
    keys.to_multiset_ensures();
}

/// The best `n` candidates, in order.
pub fn best_candidates(candidates: Vec<SearchCandidate>, n: usize) -> (top: Vec<SearchCandidate>)
    ensures
        keys_of(top@) == best(keys_of(candidates@), n as nat),
        forall|i: int| 0 <= i < top@.len() ==> candidates@.contains(#[trigger] top@[i]),
{
    let mut rest = candidates;
    let mut sorted: Vec<SearchCandidate> = Vec::new();
    let ghost all = candidates@;
    proof {
        assert(keys_of(all.skip(all.len() as int)) =~= keys_of(sorted@));
        assert(rest@ =~= all.take(all.len() as int));
    }
    while rest.len() > 0
        invariant
            rest@.len() <= all.len(),
            rest@ == all.take(rest@.len() as int),
            vstd::relations::sorted_by(keys_of(sorted@), key_order()),
            keys_of(sorted@).to_multiset() == keys_of(
                all.skip(rest@.len() as int),
            ).to_multiset(),
            forall|i: int| 0 <= i < sorted@.len() ==> all.contains(#[trigger] sorted@[i]),
        decreases rest.len(),
    {
        let ghost had = rest@.len() as int;
        let next = match rest.pop() {
            Some(next) => next,
            None => return sorted,
        };
        let ghost before = sorted@;
        let at: usize = place_of(&sorted, &next);
        sorted.insert(at, next);
        proof {
            let keys = keys_of(before);
            inserted_in_order(keys, at as int, next.key());
            assert(keys_of(sorted@) =~= keys.insert(at as int, next.key()));
            vstd::seq_lib::to_multiset_insert(keys, at as int, next.key());
            assert(rest@ =~= all.take(had - 1));
            assert(next == all[had - 1]);
            let tail = keys_of(all.skip(had));
            assert(keys_of(all.skip(had - 1)) =~= tail.insert(0, next.key()));
            vstd::seq_lib::to_multiset_insert(tail, 0, next.key());
            assert forall|i: int| 0 <= i < sorted@.len() implies all.contains(
                #[trigger] sorted@[i],
            ) by {
                if i < at {
                    assert(sorted@[i] == before[i]);
                } else if i == at {
                    assert(sorted@[i] == all[had - 1]);
                } else {
                    assert(sorted@[i] == before[i - 1]);
                }
            }
        }
    }
    proof {
        assert(all.skip(0) =~= all);
        best_of_sorted(keys_of(sorted@), keys_of(all));
    }
    let ghost full = sorted@;
    if sorted.len() > n {
        sorted.truncate(n);
        assert(keys_of(sorted@) =~= keys_of(full).take(n as int));
    }
    sorted
}

/// An entry that the full-text table returned.
#[derive(Debug, PartialEq, Eq)]
pub struct FullTextRow {
    pub item_id: String,
    pub display_name: String,
}

/// The rank key of a full-text row; its names are normalized on the spot.
pub open spec fn full_text_key(row: FullTextRow, query: Seq<char>) -> RankKey {
    key_for(
        query,
        crate::index::search::normalized(row.display_name@),
        crate::index::search::normalized(row.item_id@),
        row.item_id@,
    )
}

pub open spec fn full_text_keys(rows: Seq<FullTextRow>, query: Seq<char>) -> Seq<RankKey> {
    rows.map_values(|row: FullTextRow| full_text_key(row, query))
}

/// How many candidates a search keeps: one more than its limit.
pub open spec fn kept(limit: u32) -> nat {
    crate::index::search::one_more(limit) as nat
}

/// The best full-text rows, one more than the limit.
pub fn rank_full_text(rows: &Vec<FullTextRow>, query: &str, limit: u32) -> (top: Vec<
    SearchCandidate,
>)
    ensures
        keys_of(top@) == best(full_text_keys(rows@, query@), kept(limit)),
{
    let mut candidates: Vec<SearchCandidate> = Vec::new();
    let mut i: usize = 0;
    while i < rows.len()
        invariant
            i <= rows.len(),
            keys_of(candidates@) == full_text_keys(rows@, query@).take(i as int),
        decreases rows.len() - i,
    {
        let ghost before = candidates@;
        let display_name_norm = normalize_query(rows[i].display_name.as_str());
        let item_id_norm = normalize_query(rows[i].item_id.as_str());
        let next = candidate(query, display_name_norm, item_id_norm, rows[i].item_id.clone());
        candidates.push(next);
        assert(keys_of(candidates@) =~= keys_of(before).push(next.key()));
        i += 1;
        assert(keys_of(candidates@) =~= full_text_keys(rows@, query@).take(i as int));
    }
    assert(full_text_keys(rows@, query@).take(rows@.len() as int) =~= full_text_keys(
        rows@,
        query@,
    ));
    best_candidates(candidates, limit.saturating_add(1) as usize)
}

/// Keeps the entries that are still there.
pub fn keep_found(found: Vec<Option<IndexedMatch>>) -> (matches: Vec<IndexedMatch>)
    ensures
        matches@ == present(found@),
{
    let mut rest = found;
    let mut matches: Vec<IndexedMatch> = Vec::new();
    let ghost all = found@;
    proof {
        assert(all.take(0) =~= Seq::empty());
        assert(all.skip(0) =~= all);
    }
    while rest.len() > 0
        invariant
            rest@.len() <= all.len(),
            rest@ == all.skip(all.len() - rest@.len()),
            matches@ == present(all.take(all.len() - rest@.len())),
        decreases rest.len(),
    {
        let ghost done = all.len() - rest@.len();
        let next = rest.remove(0);
        proof {
            assert(next == all[done]);
            assert(all.take(done + 1).drop_last() =~= all.take(done));
            assert(rest@ =~= all.skip(done + 1));
        }
        if let Some(value) = next {
            matches.push(value);
        }
    }
    assert(all.take(all.len() as int) =~= all);
    matches
}

/// The values that are there, in order.
pub open spec fn present<T>(values: Seq<Option<T>>) -> Seq<T>
    decreases values.len(),
{
    if values.len() == 0 {
        Seq::empty()
    } else {
        match values.last() {
            Some(value) => present(values.drop_last()).push(value),
            None => present(values.drop_last()),
        }
    }
}

/// An entry whose stored name or item ID equals a query.
#[derive(Debug, PartialEq, Eq)]
pub struct ExactRow {
    pub item_id: String,
    pub display_name: String,
    pub display_name_norm: String,
    pub item_id_norm: String,
    pub kind: i64,
    pub breadcrumbs: String,
}

impl ExactRow {
    pub open spec fn key(self, query: Seq<char>) -> RankKey {
        key_for(query, self.display_name_norm@, self.item_id_norm@, self.item_id@)
    }

    pub open spec fn readable(self) -> bool {
        crate::index::search::row_refusal(
            self.kind,
            self.breadcrumbs@,
            crate::index::profile::ENTRY_BREADCRUMBS_COLUMN,
        ) is None
    }
}

/// Whether a match shows what a row holds.
pub open spec fn shows(found: IndexedMatch, row: ExactRow) -> bool {
    crate::index::search::row_holds(
        row.item_id,
        row.display_name,
        row.kind,
        row.breadcrumbs@,
        found,
    )
}

pub open spec fn names_item(rows: Seq<ExactRow>, item_id: Seq<char>) -> bool {
    exists|i: int| 0 <= i < rows.len() && (#[trigger] rows[i]).item_id@ == item_id
}

/// The rows without those whose item ID came before.
pub open spec fn firsts(rows: Seq<ExactRow>) -> Seq<ExactRow>
    decreases rows.len(),
{
    if rows.len() == 0 {
        Seq::empty()
    } else if names_item(firsts(rows.drop_last()), rows.last().item_id@) {
        firsts(rows.drop_last())
    } else {
        firsts(rows.drop_last()).push(rows.last())
    }
}

pub open spec fn exact_keys(rows: Seq<ExactRow>, query: Seq<char>) -> Seq<RankKey> {
    rows.map_values(|row: ExactRow| row.key(query))
}

/// Whether a match shows the row of a key.
pub open spec fn answers_key(
    found: IndexedMatch,
    key: RankKey,
    rows: Seq<ExactRow>,
    query: Seq<char>,
) -> bool {
    exists|j: int|
        0 <= j < rows.len() && (#[trigger] rows[j]).key(query) == key && shows(found, rows[j])
}

/// The matches that some keys stand for: each shows the row of its key.
pub open spec fn answers(
    matches: Seq<IndexedMatch>,
    keys: Seq<RankKey>,
    rows: Seq<ExactRow>,
    query: Seq<char>,
) -> bool {
    &&& matches.len() == keys.len()
    &&& forall|i: int|
        0 <= i < matches.len() ==> answers_key(#[trigger] matches[i], keys[i], rows, query)
}

/// The error of a row that cannot be read.
pub open spec fn row_error(row: ExactRow, error: crate::index::profile::RowError) -> bool {
    crate::index::search::row_refusal(
        row.kind,
        row.breadcrumbs@,
        crate::index::profile::ENTRY_BREADCRUMBS_COLUMN,
    ) == Some(error@)
}

pub open spec fn first_unreadable(rows: Seq<ExactRow>, i: int) -> bool {
    &&& 0 <= i < rows.len()
    &&& !rows[i].readable()
    &&& forall|j: int| 0 <= j < i ==> (#[trigger] rows[j]).readable()
}

/// The exact matches of a query among the rows found by name and by item ID:
/// every item once, the best first, one more than the limit at most.
pub fn rank_exact(rows: &Vec<ExactRow>, query: &str, limit: u32) -> (found: Result<
    Vec<IndexedMatch>,
    crate::index::profile::RowError,
>)
    ensures
        found is Ok <==> forall|i: int|
            0 <= i < rows@.len() ==> (#[trigger] rows@[i]).readable(),
        found matches Ok(matches) ==> answers(
            matches@,
            best(exact_keys(firsts(rows@), query@), kept(limit)),
            firsts(rows@),
            query@,
        ),
        found matches Ok(matches) ==> names_items_once(matches@),
        found matches Err(error) ==> exists|i: int|
            first_unreadable(rows@, i) && row_error(#[trigger] rows@[i], error),
{
    let mut candidates: Vec<SearchCandidate> = Vec::new();
    let mut values: Vec<IndexedMatch> = Vec::new();
    let mut i: usize = 0;
    while i < rows.len()
        invariant
            i <= rows.len(),
            forall|j: int| 0 <= j < i ==> (#[trigger] rows@[j]).readable(),
            keys_of(candidates@) == exact_keys(firsts(rows@.take(i as int)), query@),
            values@.len() == firsts(rows@.take(i as int)).len(),
            forall|j: int|
                0 <= j < values@.len() ==> shows(
                    #[trigger] values@[j],
                    firsts(rows@.take(i as int))[j],
                ),
        decreases rows.len() - i,
    {
        let row = &rows[i];
        let ghost seen = firsts(rows@.take(i as int));
        proof {
            assert(rows@.take(i + 1).drop_last() =~= rows@.take(i as int));
        }
        let value = match crate::index::search::indexed_match(
            row.item_id.clone(),
            row.display_name.clone(),
            row.kind,
            row.breadcrumbs.as_str(),
        ) {
            Ok(value) => value,
            Err(error) => {
                assert(first_unreadable(rows@, i as int));
                return Err(error);
            },
        };
        if !holds_item(&values, row.item_id.as_str()) {
            let ghost before = candidates@;
            let next = candidate(
                query,
                row.display_name_norm.clone(),
                row.item_id_norm.clone(),
                row.item_id.clone(),
            );
            candidates.push(next);
            values.push(value);
            proof {
                assert(!names_item(seen, row.item_id@)) by {
                    if names_item(seen, row.item_id@) {
                        let j = choose|j: int|
                            0 <= j < seen.len() && (#[trigger] seen[j]).item_id@ == row.item_id@;
                        assert(shows(values@[j], seen[j]));
                    }
                }
                assert(firsts(rows@.take(i + 1)) == seen.push(*row));
                assert(keys_of(candidates@) =~= keys_of(before).push(next.key()));
                assert(keys_of(candidates@) =~= exact_keys(seen.push(*row), query@));
            }
        } else {
            proof {
                let j = choose|j: int|
                    0 <= j < values@.len() && (#[trigger] values@[j]).item_id@ == row.item_id@;
                assert(shows(values@[j], seen[j]));
                assert(names_item(seen, row.item_id@));
            }
        }
        i += 1;
    }
    assert(rows@.take(rows@.len() as int) =~= rows@);
    let ghost distinct = firsts(rows@);
    let ghost all = candidates@;
    proof {
        firsts_are_distinct(rows@);
        assert(keys_of(all).len() == exact_keys(distinct, query@).len());
    }
    let top = best_candidates(candidates, limit.saturating_add(1) as usize);
    let mut matches: Vec<IndexedMatch> = Vec::new();
    let mut k: usize = 0;
    while k < top.len()
        invariant
            k <= top.len(),
            matches@.len() == k,
            values@.len() == distinct.len(),
            all.len() == distinct.len(),
            forall|j: int| 0 <= j < values@.len() ==> shows(#[trigger] values@[j], distinct[j]),
            keys_of(all) == exact_keys(distinct, query@),
            forall|j: int| 0 <= j < top@.len() ==> all.contains(#[trigger] top@[j]),
            forall|a: int, b: int|
                0 <= a < b < distinct.len() ==> (#[trigger] distinct[a]).item_id@ != (
                #[trigger] distinct[b]).item_id@,
            forall|m: int|
                0 <= m < k ==> answers_key(
                    #[trigger] matches@[m],
                    keys_of(top@)[m],
                    distinct,
                    query@,
                ),
        decreases top.len() - k,
    {
        proof {
            assert(all.contains(top@[k as int]));
            let j = choose|j: int| 0 <= j < all.len() && all[j] == top@[k as int];
            assert(keys_of(all)[j] == exact_keys(distinct, query@)[j]);
            assert(distinct[j].key(query@) == top@[k as int].key());
            assert(distinct[j].item_id@ == top@[k as int].item_id@);
            assert(shows(values@[j], distinct[j]));
        }
        let at: usize = item_place(&values, top[k].item_id.as_str());
        let value = crate::index::search::copy_match(&values[at]);
        matches.push(value);
        proof {
            let j = choose|j: int| 0 <= j < all.len() && all[j] == top@[k as int];
            assert(keys_of(all)[j] == exact_keys(distinct, query@)[j]);
            assert(distinct[j].key(query@) == top@[k as int].key());
            assert(shows(values@[at as int], distinct[at as int]));
            if j != at {
                assert(distinct[j].item_id@ != distinct[at as int].item_id@);
            }
            assert(keys_of(top@)[k as int] == top@[k as int].key());
            assert(shows(value, distinct[at as int]));
            assert(answers_key(value, keys_of(top@)[k as int], distinct, query@));
        }
        k += 1;
    }
    assert(keys_of(top@).len() == top@.len());
    proof {
        answers_name_items_once(matches@, distinct, query@, kept(limit));
    }
    Ok(matches)
}

/// Whether no two matches are about the same item.
pub open spec fn names_items_once(matches: Seq<IndexedMatch>) -> bool {
    forall|i: int, j: int|
        0 <= i < j < matches.len() ==> (#[trigger] matches[i]).item_id@ != (
        #[trigger] matches[j]).item_id@
}

proof fn answers_name_items_once(
    matches: Seq<IndexedMatch>,
    rows: Seq<ExactRow>,
    query: Seq<char>,
    n: nat,
)
    requires
        forall|a: int, b: int|
            0 <= a < b < rows.len() ==> (#[trigger] rows[a]).item_id@ != (
            #[trigger] rows[b]).item_id@,
        answers(matches, best(exact_keys(rows, query), n), rows, query),
    ensures
        names_items_once(matches),
{
    let keys = exact_keys(rows, query);
    let sorted = keys.sort_by(key_order());
    let top = best(keys, n);
    key_order_is_total();
    keys.lemma_sort_by_ensures(key_order());
    assert forall|a: int, b: int| 0 <= a < keys.len() && 0 <= b < keys.len() && a != b implies keys[a]
        != keys[b] by {
        assert(keys[a].item_id == rows[a].item_id@);
        assert(keys[b].item_id == rows[b].item_id@);
    }
    assert(keys.no_duplicates());
    keys.lemma_multiset_has_no_duplicates();
    assert(sorted.to_multiset() == keys.to_multiset());
    sorted.lemma_multiset_has_no_duplicates_conv();
    assert forall|i: int, j: int| 0 <= i < j < matches.len() implies (
    #[trigger] matches[i]).item_id@ != (#[trigger] matches[j]).item_id@ by {
        assert(answers_key(matches[i], top[i], rows, query));
        assert(answers_key(matches[j], top[j], rows, query));
        let a = choose|a: int|
            0 <= a < rows.len() && (#[trigger] rows[a]).key(query) == top[i] && shows(
                matches[i],
                rows[a],
            );
        let b = choose|b: int|
            0 <= b < rows.len() && (#[trigger] rows[b]).key(query) == top[j] && shows(
                matches[j],
                rows[b],
            );
        assert(top[i] == sorted[i] && top[j] == sorted[j]);
        assert(sorted[i] != sorted[j]);
        assert(a != b);
        if a < b {
            assert(rows[a].item_id@ != rows[b].item_id@);
        } else {
            assert(rows[b].item_id@ != rows[a].item_id@);
        }
    }
}

proof fn firsts_are_distinct(rows: Seq<ExactRow>)
    ensures
        forall|a: int, b: int|
            0 <= a < b < firsts(rows).len() ==> (#[trigger] firsts(rows)[a]).item_id@ != (
            #[trigger] firsts(rows)[b]).item_id@,
    decreases rows.len(),
{
    if rows.len() > 0 {
        let rest = firsts(rows.drop_last());
        firsts_are_distinct(rows.drop_last());
        if !names_item(rest, rows.last().item_id@) {
            let all = rest.push(rows.last());
            assert forall|a: int, b: int| 0 <= a < b < all.len() implies (
            #[trigger] all[a]).item_id@ != (#[trigger] all[b]).item_id@ by {
                assert(rest[a].item_id@ != rows.last().item_id@);
                if b < rest.len() {
                    assert(rest[a].item_id@ != rest[b].item_id@);
                }
            }
        }
    }
}

fn holds_item(values: &Vec<IndexedMatch>, item_id: &str) -> (found: bool)
    ensures
        found == exists|i: int|
            0 <= i < values@.len() && (#[trigger] values@[i]).item_id@ == item_id@,
{
    let mut i: usize = 0;
    while i < values.len()
        invariant
            i <= values.len(),
            forall|j: int| 0 <= j < i ==> (#[trigger] values@[j]).item_id@ != item_id@,
        decreases values.len() - i,
    {
        if same_text(values[i].item_id.as_str(), item_id) {
            assert(values@[i as int].item_id@ == item_id@);
            return true;
        }
        i += 1;
    }
    false
}

fn item_place(values: &Vec<IndexedMatch>, item_id: &str) -> (at: usize)
    requires
        exists|i: int| 0 <= i < values@.len() && (#[trigger] values@[i]).item_id@ == item_id@,
    ensures
        at < values@.len(),
        values@[at as int].item_id@ == item_id@,
{
    let mut i: usize = 0;
    while i < values.len() && !same_text(values[i].item_id.as_str(), item_id)
        invariant
            i <= values.len(),
            forall|j: int| 0 <= j < i ==> (#[trigger] values@[j]).item_id@ != item_id@,
        decreases values.len() - i,
    {
        i += 1;
    }
    i
}

/// The best keys are in order, as many as asked for where there are so many,
/// and no key that is left out stands before one of them.
pub proof fn best_are_the_first(keys: Seq<RankKey>, n: nat)
    ensures
        vstd::relations::sorted_by(best(keys, n), key_order()),
        best(keys, n).len() == (if keys.len() <= n {
            keys.len()
        } else {
            n
        }),
        forall|key: RankKey| best(keys, n).contains(key) ==> keys.contains(key),
        forall|key: RankKey, other: RankKey|
            keys.contains(key) && !best(keys, n).contains(key) && best(keys, n).contains(other)
                ==> key_leq(other, key),
{
    key_order_is_total();
    let leq = key_order();
    let sorted = keys.sort_by(leq);
    keys.lemma_sort_by_ensures(leq);
    sorted.to_multiset_ensures();
    keys.to_multiset_ensures();
    let top = best(keys, n);
    assert forall|i: int, j: int| 0 <= i < j < top.len() implies #[trigger] leq(
        top[i],
        top[j],
    ) by {
        assert(leq(sorted[i], sorted[j]));
    }
    assert forall|key: RankKey| top.contains(key) implies keys.contains(key) by {
        let i = choose|i: int| 0 <= i < top.len() && top[i] == key;
        assert(sorted[i] == key);
        assert(sorted.contains(key));
        assert(keys.to_multiset().count(key) > 0);
    }
    assert forall|key: RankKey, other: RankKey|
        keys.contains(key) && !top.contains(key) && top.contains(other) implies key_leq(
        other,
        key,
    ) by {
        assert(sorted.to_multiset().count(key) > 0);
        assert(sorted.contains(key));
        let p = choose|p: int| 0 <= p < sorted.len() && sorted[p] == key;
        let i = choose|i: int| 0 <= i < top.len() && top[i] == other;
        if p < top.len() {
            assert(top[p] == key);
        }
        assert(leq(sorted[i], sorted[p]));
    }
}

/// In the order of a dictionary the first different character decides, and a
/// text stands before those that it begins.
pub proof fn dictionary_order(
    front: Seq<char>,
    a: char,
    b: char,
    a_rest: Seq<char>,
    b_rest: Seq<char>,
)
    ensures
        a != b ==> (text_leq(front + seq![a] + a_rest, front + seq![b] + b_rest) <==> a < b),
        text_leq(front, front + b_rest),
        b_rest.len() > 0 ==> !text_leq(front + b_rest, front),
    decreases front.len(),
{
    let left = front + seq![a] + a_rest;
    let right = front + seq![b] + b_rest;
    if front.len() > 0 {
        let less = front.drop_first();
        dictionary_order(less, a, b, a_rest, b_rest);
        assert(left.drop_first() =~= less + seq![a] + a_rest);
        assert(right.drop_first() =~= less + seq![b] + b_rest);
        assert((front + b_rest).drop_first() =~= less + b_rest);
    }
}

/// Candidates stand in the order of their tiers; in a tier, in that of the
/// lengths of their names; then in that of the names, of the item IDs without
/// regard to case, and of the item IDs.
pub proof fn candidates_stand_in_rank_order(a: RankKey, b: RankKey)
    ensures
        a.tier < b.tier ==> key_leq(a, b) && !key_leq(b, a),
        a.tier == b.tier && a.display_name_len < b.display_name_len ==> key_leq(a, b) && !key_leq(
            b,
            a,
        ),
        a.tier == b.tier && a.display_name_len == b.display_name_len && a.display_name
            != b.display_name ==> (key_leq(a, b) <==> text_leq(a.display_name, b.display_name)),
        a.tier == b.tier && a.display_name_len == b.display_name_len && a.display_name
            == b.display_name && a.item_id_norm != b.item_id_norm ==> (key_leq(a, b) <==> text_leq(
            a.item_id_norm,
            b.item_id_norm,
        )),
        a.tier == b.tier && a.display_name_len == b.display_name_len && a.display_name
            == b.display_name && a.item_id_norm == b.item_id_norm ==> (key_leq(a, b) <==> text_leq(
            a.item_id,
            b.item_id,
        )),
{
}

/// An entry with the name that was asked for stands before every other; one
/// whose name or item ID equals the query before all that only start with it;
/// one of which either starts with it before all that only contain it. Of two
/// entries of one tier the one with the shorter name stands first.
pub proof fn better_matches_come_first(
    query: Seq<char>,
    name: Seq<char>,
    item_norm: Seq<char>,
    item: Seq<char>,
    other_name: Seq<char>,
    other_item_norm: Seq<char>,
    other_item: Seq<char>,
)
    ensures
        ({
            let one = key_for(query, name, item_norm, item);
            let other = key_for(query, other_name, other_item_norm, other_item);
            let equals = |n: Seq<char>, i: Seq<char>| n == query || i == query;
            let starts = |n: Seq<char>, i: Seq<char>|
                crate::text::has_prefix(n, query) || crate::text::has_prefix(i, query);
            let contains = |n: Seq<char>, i: Seq<char>|
                crate::text::occurs_in(query, n) || crate::text::occurs_in(query, i);
            let first = key_leq(one, other) && !key_leq(other, one);
            &&& name == query && other_name != query ==> first
            &&& equals(name, item_norm) && !equals(other_name, other_item_norm) ==> first
            &&& starts(name, item_norm) && !starts(other_name, other_item_norm) ==> first
            &&& contains(name, item_norm) && !contains(other_name, other_item_norm) ==> first
            &&& crate::index::search::rank(query, name, item_norm) == crate::index::search::rank(
                query,
                other_name,
                other_item_norm,
            ) && name.len() < other_name.len() ==> first
            &&& one.item_id == item && one.display_name == name && one.item_id_norm == item_norm
        }),
{
    crate::index::search::ranks_tell_what_matches(query, name, item_norm);
    crate::index::search::ranks_tell_what_matches(query, other_name, other_item_norm);
}

/// What is there stays, in order, and nothing else comes in.
pub proof fn what_is_there_stays<T>(front: Seq<Option<T>>, value: Option<T>, back: Seq<Option<T>>)
    ensures
        present(front + back) == present(front) + present(back),
        present(seq![value]) == (match value {
            Some(v) => seq![v],
            None => Seq::empty(),
        }),
        present(Seq::<Option<T>>::empty()) == Seq::<T>::empty(),
    decreases back.len(),
{
    reveal_with_fuel(present, 2);
    assert(seq![value].drop_last() =~= Seq::<Option<T>>::empty());
    if back.len() > 0 {
        what_is_there_stays(front, value, back.drop_last());
        assert((front + back).drop_last() =~= front + back.drop_last());
        assert((front + back).last() == back.last());
        assert(present(front + back) =~= present(front) + present(back));
    } else {
        assert(front + back =~= front);
        assert(present(front) + present(back) =~= present(front));
    }
    match value {
        Some(v) => {
            assert(present(seq![value]) =~= seq![v]);
        },
        None => {
            assert(present(seq![value]) =~= Seq::<T>::empty());
        },
    }
}

/// Of the rows with the same item ID the first is kept, and of every item ID
/// one.
pub proof fn every_item_is_kept_once(rows: Seq<ExactRow>)
    ensures
        forall|i: int|
            0 <= i < rows.len() ==> names_item(firsts(rows), (#[trigger] rows[i]).item_id@),
        forall|k: int|
            0 <= k < firsts(rows).len() ==> exists|i: int|
                0 <= i < rows.len() && #[trigger] rows[i] == #[trigger] firsts(rows)[k] && (forall|
                    j: int,
                |
                    0 <= j < i ==> (#[trigger] rows[j]).item_id@ != rows[i].item_id@),
        forall|a: int, b: int|
            0 <= a < b < firsts(rows).len() ==> (#[trigger] firsts(rows)[a]).item_id@ != (
            #[trigger] firsts(rows)[b]).item_id@,
    decreases rows.len(),
{
    firsts_are_distinct(rows);
    if rows.len() > 0 {
        let front = rows.drop_last();
        let kept = firsts(front);
        let all = firsts(rows);
        every_item_is_kept_once(front);
        let last = rows.len() - 1;
        assert forall|i: int| 0 <= i < rows.len() implies names_item(
            all,
            (#[trigger] rows[i]).item_id@,
        ) by {
            if i < last {
                assert(names_item(kept, front[i].item_id@));
                let k = choose|k: int|
                    0 <= k < kept.len() && (#[trigger] kept[k]).item_id@ == front[i].item_id@;
                assert(all[k] == kept[k]);
            } else if !names_item(kept, rows.last().item_id@) {
                assert(all[kept.len() as int].item_id@ == rows[i].item_id@);
            }
        }
        assert forall|k: int| 0 <= k < all.len() implies exists|i: int|
            0 <= i < rows.len() && #[trigger] rows[i] == #[trigger] all[k] && (forall|j: int|
                0 <= j < i ==> (#[trigger] rows[j]).item_id@ != rows[i].item_id@) by {
            if k < kept.len() {
                assert(all[k] == kept[k]);
                let i = choose|i: int|
                    0 <= i < front.len() && #[trigger] front[i] == kept[k] && (forall|j: int|
                        0 <= j < i ==> (#[trigger] front[j]).item_id@ != front[i].item_id@);
                assert(rows[i] == all[k]);
                assert forall|j: int| 0 <= j < i implies (#[trigger] rows[j]).item_id@
                    != rows[i].item_id@ by {
                    assert(front[j].item_id@ != front[i].item_id@);
                }
            } else {
                assert(rows[last] == all[k]);
                assert forall|j: int| 0 <= j < last implies (#[trigger] rows[j]).item_id@
                    != rows[last].item_id@ by {
                    assert(names_item(kept, front[j].item_id@));
                }
            }
        }
    }
}

/// An exact search answers with rows that it was given, as many as there are or
/// as its limit asks for and one more, and with the best of them in their order.
pub proof fn exact_answers_are_the_best_rows(
    matches: Seq<IndexedMatch>,
    rows: Seq<ExactRow>,
    query: Seq<char>,
    limit: u32,
    i: int,
    j: int,
)
    requires
        answers(matches, best(exact_keys(rows, query), kept(limit)), rows, query),
        limit < u32::MAX,
    ensures
        rows.len() <= limit + 1 ==> matches.len() == rows.len(),
        rows.len() > limit + 1 ==> matches.len() == limit + 1,
        0 <= i < matches.len() ==> exists|k: int|
            0 <= k < rows.len() && (#[trigger] rows[k]).item_id == matches[i].item_id
                && rows[k].display_name == matches[i].display_name && (rows[k].kind == 1
                <==> matches[i].kind is Item),
        0 <= i < j < matches.len() ==> exists|k: int, m: int|
            0 <= k < rows.len() && 0 <= m < rows.len() && (#[trigger] rows[k]).item_id
                == matches[i].item_id && (#[trigger] rows[m]).item_id == matches[j].item_id
                && key_leq(
                key_for(
                    query,
                    rows[k].display_name_norm@,
                    rows[k].item_id_norm@,
                    rows[k].item_id@,
                ),
                key_for(
                    query,
                    rows[m].display_name_norm@,
                    rows[m].item_id_norm@,
                    rows[m].item_id@,
                ),
            ),
{
    let keys = exact_keys(rows, query);
    let top = best(keys, kept(limit));
    let sorted = keys.sort_by(key_order());
    key_order_is_total();
    keys.lemma_sort_by_ensures(key_order());
    keys.to_multiset_ensures();
    sorted.to_multiset_ensures();
    assert(sorted.len() == rows.len());
    if 0 <= i < matches.len() {
        assert(answers_key(matches[i], top[i], rows, query));
        let k = choose|k: int|
            0 <= k < rows.len() && (#[trigger] rows[k]).key(query) == top[i] && shows(
                matches[i],
                rows[k],
            );
        assert(rows[k].item_id == matches[i].item_id);
        if i < j < matches.len() {
            assert(answers_key(matches[j], top[j], rows, query));
            let m = choose|m: int|
                0 <= m < rows.len() && (#[trigger] rows[m]).key(query) == top[j] && shows(
                    matches[j],
                    rows[m],
                );
            assert(rows[m].item_id == matches[j].item_id);
            assert(key_order()(sorted[i], sorted[j]));
            assert(rows[k].item_id == matches[i].item_id && rows[m].item_id == matches[j].item_id);
        }
    }
}

/// A row that the full text finds ranks by its name and its item ID as searches
/// compare them.
pub proof fn full_text_ranks_normalized_names(rows: Seq<FullTextRow>, query: Seq<char>, i: int)
    requires
        0 <= i < rows.len(),
    ensures
        full_text_keys(rows, query).len() == rows.len(),
        full_text_keys(rows, query)[i] == key_for(
            query,
            crate::index::search::normalized(rows[i].display_name@),
            crate::index::search::normalized(rows[i].item_id@),
            rows[i].item_id@,
        ),
{
}

/// A row can be read if its kind is known and its path is a list of texts; the
/// first that cannot is named.
pub proof fn unreadable_rows_are_named(rows: Seq<ExactRow>, i: int)
    ensures
        first_unreadable(rows, i) ==> 0 <= i < rows.len() && !((rows[i].kind == 1 || rows[i].kind
            == 2) && crate::index::profile::parsed_json_list(rows[i].breadcrumbs@) is Ok),
        first_unreadable(rows, i) ==> forall|j: int|
            0 <= j < i ==> ((#[trigger] rows[j]).kind == 1 || rows[j].kind == 2)
                && crate::index::profile::parsed_json_list(rows[j].breadcrumbs@) is Ok,
{
    if first_unreadable(rows, i) {
        assert forall|j: int| 0 <= j < i implies ((#[trigger] rows[j]).kind == 1 || rows[j].kind
            == 2) && crate::index::profile::parsed_json_list(rows[j].breadcrumbs@) is Ok by {
            assert(rows[j].readable());
        }
    }
}

} // verus!
