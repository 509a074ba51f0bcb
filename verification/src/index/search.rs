//! How queries are normalized, matched and ranked.

use crate::index::profile::{
    parse_breadcrumbs_column, parse_indexed_kind, RowError, ENTRY_BREADCRUMBS_COLUMN,
    PATTERN_BREADCRUMBS_COLUMN,
};
use crate::numerals::push_decimal;
use crate::opc::InventoryNodeKind;
use crate::text::{
    chars_of, contains_text, join_texts, push_text, replace_char, same_text, split_words,
    starts_with_text,
};
use vstd::prelude::*;

verus! {

#[derive(Debug, Clone, Copy, PartialEq, Eq, Structural)]
pub enum SearchMode {
    Unspecified,
    Exact,
    Prefix,
    Contains,
}

impl SearchMode {
    pub open spec fn number(self) -> i32 {
        match self {
            SearchMode::Unspecified => 0,
            SearchMode::Exact => 1,
            SearchMode::Prefix => 2,
            SearchMode::Contains => 3,
        }
    }

    pub fn try_from(value: i32) -> (mode: Result<Self, ()>)
        ensures
            mode is Ok <==> 0 <= value <= 3,
            mode matches Ok(m) ==> m.number() == value,
    {
        if value == 0 {
            Ok(SearchMode::Unspecified)
        } else if value == 1 {
            Ok(SearchMode::Exact)
        } else if value == 2 {
            Ok(SearchMode::Prefix)
        } else if value == 3 {
            Ok(SearchMode::Contains)
        } else {
            Err(())
        }
    }
}

/// The words of a text with single blanks between them.
pub open spec fn spaced(text: Seq<char>) -> Seq<char> {
    crate::text::join(crate::text::words(text), seq![' '])
}

/// A text as it is searched: its words with single blanks between them, in
/// lowercase.
pub open spec fn normalized(text: Seq<char>) -> Seq<char> {
    if crate::text::is_ascii_text(spaced(text)) {
        crate::text::ascii_lowercase(spaced(text))
    } else {
        crate::text::lowercase(spaced(text))
    }
}

pub fn normalize_query(value: &str) -> (query: String)
    ensures
        query@ == normalized(value@),
{
    let list = split_words(value);
    proof {
        reveal_strlit(" ");
        assert(" "@ =~= seq![' ']);
    }
    let plain = join_texts(&list, " ");
    plain.as_str().to_lowercase()
}

/// Spacing a text twice changes nothing more. Its only whitespace are single
/// blanks between words, and nothing is left of whitespace alone.
pub proof fn spacing_is_stable(text: Seq<char>)
    ensures
        spaced(spaced(text)) == spaced(text),
        crate::text::is_single_spaced(spaced(text)),
        spaced(text).len() == 0 <==> crate::text::is_blank(text),
{
    crate::text::words_are_words(text);
    crate::text::splitting_undoes_joining(crate::text::words(text));
    crate::text::blank_text_has_no_words(text);
}

/// Normalizing a query twice changes nothing more, as long as its words are
/// ASCII. Its only whitespace are single blanks between words, and it is empty
/// only where it was made of whitespace alone.
pub proof fn normalizing_is_stable(text: Seq<char>)
    requires
        crate::text::is_ascii_text(spaced(text)),
    ensures
        normalized(normalized(text)) == normalized(text),
        crate::text::is_single_spaced(normalized(text)),
        normalized(text).len() == 0 <==> crate::text::is_blank(text),
{
    let plain = spaced(text);
    let lower = normalized(text);
    spacing_is_stable(text);
    lowercase_words(text);
    assert(lower == crate::text::join(
        crate::text::all_ascii_lowercase(crate::text::words(text)),
        seq![' '],
    ));
    crate::text::words_keep_apart_in_lowercase(plain);
    crate::text::words_are_words(text);
    crate::text::splitting_undoes_joining(crate::text::words(text));
    assert(spaced(lower) == lower);
    assert forall|i: int| 0 <= i < lower.len() implies #[trigger] lower[i] <= '\u{7f}' by {
        assert(plain[i] <= '\u{7f}');
    }
    assert(crate::text::ascii_lowercase(lower) =~= lower);
    assert forall|i: int| 0 <= i < lower.len() && crate::text::is_whitespace(
        #[trigger] lower[i],
    ) implies {
        &&& lower[i] == ' '
        &&& 0 < i < lower.len() - 1
        &&& !crate::text::is_whitespace(lower[i - 1])
        &&& !crate::text::is_whitespace(lower[i + 1])
    } by {
        assert(lower[i] == crate::text::ascii_lower(plain[i]));
        assert(crate::text::is_whitespace(plain[i]));
        assert(lower[i - 1] == crate::text::ascii_lower(plain[i - 1]));
        assert(lower[i + 1] == crate::text::ascii_lower(plain[i + 1]));
    }
}

proof fn lowercase_words(text: Seq<char>)
    ensures
        crate::text::ascii_lowercase(spaced(text)) == crate::text::join(
            crate::text::all_ascii_lowercase(crate::text::words(text)),
            seq![' '],
        ),
{
    assert(crate::text::ascii_lowercase(seq![' ']) =~= seq![' ']);
    crate::text::lowercase_of_joined(crate::text::words(text), seq![' ']);
}

/// However much whitespace stands between words, and of which kind, the query
/// is the same.
pub proof fn whitespace_does_not_count(
    head: Seq<char>,
    gap: Seq<char>,
    other: Seq<char>,
    tail: Seq<char>,
)
    requires
        gap.len() > 0,
        other.len() > 0,
        crate::text::is_blank(gap),
        crate::text::is_blank(other),
    ensures
        normalized(head + gap + tail) == normalized(head + other + tail),
{
    crate::text::whitespace_parts_words(head, gap, tail);
    crate::text::whitespace_parts_words(head, other, tail);
}

/// Queries whose words are ASCII and differ in case alone are the same.
pub proof fn ascii_case_does_not_count(a: Seq<char>, b: Seq<char>)
    requires
        crate::text::is_ascii_text(spaced(a)),
        crate::text::is_ascii_text(spaced(b)),
        crate::text::ascii_lowercase(a) == crate::text::ascii_lowercase(b),
    ensures
        normalized(a) == normalized(b),
{
    crate::text::words_keep_apart_in_lowercase(a);
    crate::text::words_keep_apart_in_lowercase(b);
    lowercase_words(a);
    lowercase_words(b);
}

/// A query of whitespace alone is empty.
pub proof fn blank_queries_are_empty(text: Seq<char>)
    requires
        crate::text::is_blank(text),
    ensures
        normalized(text).len() == 0,
{
    spacing_is_stable(text);
}

/// A character as it stands in a pattern: one that patterns give a meaning is
/// preceded by a backslash.
pub open spec fn escaped_char(c: char) -> Seq<char> {
    if c == '\\' || c == '%' || c == '_' {
        seq!['\\', c]
    } else {
        seq![c]
    }
}

pub open spec fn escaped(text: Seq<char>) -> Seq<char>
    decreases text.len(),
{
    if text.len() == 0 {
        Seq::empty()
    } else {
        escaped(text.drop_last()) + escaped_char(text.last())
    }
}

/// Escapes a text so that a pattern matches it literally.
pub fn escape_like(value: &str) -> (pattern: String)
    ensures
        pattern@ == escaped(value@),
{
    let chars = chars_of(value);
    let mut out = String::new();
    let mut i: usize = 0;
    while i < chars.len()
        invariant
            i <= chars.len(),
            out@ == escaped(chars@.take(i as int)),
        decreases chars.len() - i,
    {
        proof {
            assert(chars@.take(i + 1).drop_last() =~= chars@.take(i as int));
        }
        let c = chars[i];
        if c == '\\' || c == '%' || c == '_' {
            out.push('\\');
        }
        out.push(c);
        i += 1;
        assert(out@ =~= escaped(chars@.take(i as int)));
    }
    assert(chars@.take(chars.len() as int) =~= value@);
    out
}

/// The text that a pattern stands for, where it has no wildcards: a backslash
/// stands for the character behind it, any other character for itself.
pub open spec fn literal(pattern: Seq<char>) -> Option<Seq<char>>
    decreases pattern.len(),
{
    if pattern.len() == 0 {
        Some(Seq::empty())
    } else if pattern[0] == '%' || pattern[0] == '_' {
        None
    } else if pattern[0] == '\\' {
        if pattern.len() == 1 {
            None
        } else {
            match literal(pattern.skip(2)) {
                Some(rest) => Some(seq![pattern[1]] + rest),
                None => None,
            }
        }
    } else {
        match literal(pattern.skip(1)) {
            Some(rest) => Some(seq![pattern[0]] + rest),
            None => None,
        }
    }
}

proof fn escaping_starts_with_the_first(text: Seq<char>)
    requires
        text.len() > 0,
    ensures
        escaped(text) == escaped_char(text[0]) + escaped(text.drop_first()),
    decreases text.len(),
{
    let rest = text.drop_first();
    if text.len() == 1 {
        assert(text.drop_last() =~= Seq::<char>::empty());
        assert(rest =~= Seq::<char>::empty());
        assert(escaped(text) =~= escaped_char(text[0]) + escaped(rest));
    } else {
        escaping_starts_with_the_first(text.drop_last());
        assert(text.drop_last().drop_first() =~= rest.drop_last());
        assert(escaped(text) =~= escaped_char(text[0]) + escaped(rest));
    }
}

/// An escaped text is a pattern for that text and for no other.
pub proof fn escaped_text_is_literal(text: Seq<char>)
    ensures
        literal(escaped(text)) == Some(text),
    decreases text.len(),
{
    if text.len() > 0 {
        let rest = text.drop_first();
        let pattern = escaped(text);
        escaping_starts_with_the_first(text);
        escaped_text_is_literal(rest);
        assert(text =~= seq![text[0]] + rest);
        if escaped_char(text[0]).len() == 2 {
            assert(pattern.skip(2) =~= escaped(rest));
        } else {
            assert(pattern.skip(1) =~= escaped(rest));
        }
    } else {
        assert(text =~= Seq::<char>::empty());
    }
}

/// A word as a full-text phrase: in quotes, with quotes inside doubled.
pub open spec fn phrase(word: Seq<char>) -> Seq<char> {
    "\""@ + crate::text::replaced(word, '"', "\"\""@) + "\""@
}

pub open spec fn phrases(list: Seq<Seq<char>>) -> Seq<Seq<char>> {
    list.map_values(|word: Seq<char>| phrase(word))
}

/// The text inside a phrase: two quotes stand for one, and no other quote may
/// occur.
pub open spec fn unquoted(inner: Seq<char>) -> Option<Seq<char>>
    decreases inner.len(),
{
    if inner.len() == 0 {
        Some(Seq::empty())
    } else if inner[0] == '"' {
        if inner.len() == 1 || inner[1] != '"' {
            None
        } else {
            match unquoted(inner.skip(2)) {
                Some(rest) => Some(seq!['"'] + rest),
                None => None,
            }
        }
    } else {
        match unquoted(inner.skip(1)) {
            Some(rest) => Some(seq![inner[0]] + rest),
            None => None,
        }
    }
}

proof fn replacing_starts_with_the_first(text: Seq<char>, from: char, to: Seq<char>)
    requires
        text.len() > 0,
    ensures
        crate::text::replaced(text, from, to) == (if text[0] == from {
            to
        } else {
            seq![text[0]]
        }) + crate::text::replaced(text.drop_first(), from, to),
    decreases text.len(),
{
    let rest = text.drop_first();
    let first = if text[0] == from {
        to
    } else {
        seq![text[0]]
    };
    if text.len() == 1 {
        assert(text.drop_last() =~= Seq::<char>::empty());
        assert(rest =~= Seq::<char>::empty());
    } else {
        replacing_starts_with_the_first(text.drop_last(), from, to);
        assert(text.drop_last().drop_first() =~= rest.drop_last());
    }
    assert(crate::text::replaced(text, from, to) =~= first + crate::text::replaced(rest, from, to));
}

/// A phrase is a word between quotes, whatever the word holds: no quote of the
/// word ends it.
pub proof fn phrase_holds_the_word(word: Seq<char>)
    ensures
        phrase(word).len() >= 2,
        phrase(word)[0] == '"' && phrase(word).last() == '"',
        unquoted(phrase(word).subrange(1, phrase(word).len() - 1)) == Some(word),
{
    reveal_strlit("\"");
    reveal_strlit("\"\"");
    let inner = crate::text::replaced(word, '"', "\"\""@);
    assert(phrase(word).subrange(1, phrase(word).len() - 1) =~= inner);
    quoting_is_undone(word);
}

proof fn quoting_is_undone(word: Seq<char>)
    ensures
        unquoted(crate::text::replaced(word, '"', "\"\""@)) == Some(word),
    decreases word.len(),
{
    reveal_strlit("\"\"");
    if word.len() > 0 {
        let rest = word.drop_first();
        let inner = crate::text::replaced(word, '"', "\"\""@);
        replacing_starts_with_the_first(word, '"', "\"\""@);
        quoting_is_undone(rest);
        assert(word =~= seq![word[0]] + rest);
        if word[0] == '"' {
            assert(inner.skip(2) =~= crate::text::replaced(rest, '"', "\"\""@));
        } else {
            assert(inner.skip(1) =~= crate::text::replaced(rest, '"', "\"\""@));
        }
    } else {
        assert(word =~= Seq::<char>::empty());
    }
}

/// The full-text query that asks for every word of a text.
pub fn build_fts_query(query: &str) -> (fts: String)
    ensures
        fts@ == crate::text::join(phrases(crate::text::words(query@)), " AND "@),
{
    let list = split_words(query);
    let ghost all = crate::text::words(query@);
    let mut quoted: Vec<String> = Vec::new();
    let mut i: usize = 0;
    while i < list.len()
        invariant
            i <= list.len(),
            crate::text::texts(list@) == all,
            crate::text::texts(quoted@) == phrases(all).take(i as int),
        decreases list.len() - i,
    {
        let mut term = "\"".to_owned();
        let inner = replace_char(list[i].as_str(), '"', "\"\"");
        push_text(&mut term, inner.as_str());
        push_text(&mut term, "\"");
        let ghost before = quoted@;
        assert(term@ == phrase(all[i as int])) by {
            assert(all[i as int] == list@[i as int]@);
        }
        quoted.push(term);
        assert(crate::text::texts(quoted@) =~= crate::text::texts(before).push(term@));
        i += 1;
        assert(crate::text::texts(quoted@) =~= phrases(all).take(i as int));
    }
    assert(phrases(all).take(all.len() as int) =~= phrases(all));
    join_texts(&quoted, " AND ")
}

/// How well an entry answers a query, zero being best: equal, then starting
/// with it, then containing it, the display name before the item ID.
pub open spec fn rank(query: Seq<char>, display_name: Seq<char>, item_id: Seq<char>) -> u8 {
    if display_name == query {
        0
    } else if item_id == query {
        1
    } else if crate::text::has_prefix(display_name, query) {
        2
    } else if crate::text::has_prefix(item_id, query) {
        3
    } else if crate::text::occurs_in(query, display_name) {
        4
    } else if crate::text::occurs_in(query, item_id) {
        5
    } else {
        6
    }
}

pub fn search_rank(query: &str, display_name_norm: &str, item_id_norm: &str) -> (tier: u8)
    ensures
        tier == rank(query@, display_name_norm@, item_id_norm@),
{
    if same_text(display_name_norm, query) {
        0
    } else if same_text(item_id_norm, query) {
        1
    } else if starts_with_text(display_name_norm, query) {
        2
    } else if starts_with_text(item_id_norm, query) {
        3
    } else if contains_text(display_name_norm, query) {
        4
    } else if contains_text(item_id_norm, query) {
        5
    } else {
        6
    }
}

/// A better tier is never given for less: what equals the query starts with it
/// and what starts with it contains it.
pub proof fn ranks_are_nested(query: Seq<char>, text: Seq<char>)
    ensures
        text == query ==> crate::text::has_prefix(text, query),
        crate::text::has_prefix(text, query) ==> crate::text::occurs_in(query, text),
{
    if text == query {
        assert(text.subrange(0, query.len() as int) =~= query);
    }
    if crate::text::has_prefix(text, query) {
        assert(crate::text::occurs_at(query, text, 0));
    }
}

#[derive(Debug, PartialEq, Eq)]
pub struct IndexedMatch {
    pub item_id: String,
    pub display_name: String,
    pub kind: InventoryNodeKind,
    pub breadcrumbs: Vec<String>,
}

/// Whether two matches name the same entry with the same details.
pub open spec fn same_match(a: IndexedMatch, b: IndexedMatch) -> bool {
    &&& a.item_id == b.item_id
    &&& a.display_name == b.display_name
    &&& a.kind == b.kind
    &&& a.breadcrumbs@ == b.breadcrumbs@
}

pub open spec fn same_matches(a: Seq<IndexedMatch>, b: Seq<IndexedMatch>) -> bool {
    &&& a.len() == b.len()
    &&& forall|i: int| 0 <= i < a.len() ==> same_match(#[trigger] a[i], b[i])
}

pub fn copy_match(value: &IndexedMatch) -> (copy: IndexedMatch)
    ensures
        same_match(copy, *value),
{
    IndexedMatch {
        item_id: value.item_id.clone(),
        display_name: value.display_name.clone(),
        kind: value.kind,
        breadcrumbs: crate::text::copy_texts(&value.breadcrumbs),
    }
}

pub fn copy_matches(values: &Vec<IndexedMatch>) -> (copy: Vec<IndexedMatch>)
    ensures
        same_matches(copy@, values@),
{
    let mut copy: Vec<IndexedMatch> = Vec::new();
    let mut i: usize = 0;
    while i < values.len()
        invariant
            i <= values.len(),
            copy@.len() == i,
            forall|j: int| 0 <= j < i ==> same_match(#[trigger] copy@[j], values@[j]),
        decreases values.len() - i,
    {
        copy.push(copy_match(&values[i]));
        i += 1;
    }
    copy
}

/// Why a stored row holds no match: its kind is unknown, or its breadcrumbs
/// are no list of texts.
pub open spec fn row_refusal(kind: i64, breadcrumbs: Seq<char>, column: usize) -> Option<
    crate::index::profile::RowRefusal,
> {
    if kind != 1 && kind != 2 {
        Some(crate::index::profile::RowRefusal::UnknownKind(kind))
    } else {
        match crate::index::profile::parsed_json_list(breadcrumbs) {
            Ok(_) => None,
            Err(reason) => Some(
                crate::index::profile::RowRefusal::Breadcrumbs { column, reason },
            ),
        }
    }
}

/// Whether a match is what a stored row holds.
pub open spec fn row_holds(
    item_id: String,
    display_name: String,
    kind: i64,
    breadcrumbs: Seq<char>,
    found: IndexedMatch,
) -> bool {
    &&& found.item_id == item_id
    &&& found.display_name == display_name
    &&& crate::index::profile::kind_number(found.kind) == kind
    &&& crate::index::profile::denotes(
        crate::index::profile::parsed_json_list(breadcrumbs),
        crate::text::texts(found.breadcrumbs@),
    )
}

/// The match that a stored row holds whose breadcrumbs stand in a column.
fn match_of_row(
    item_id: String,
    display_name: String,
    kind: i64,
    breadcrumbs: &str,
    column: usize,
) -> (found: Result<IndexedMatch, RowError>)
    ensures
        found is Ok == row_refusal(kind, breadcrumbs@, column) is None,
        found matches Ok(value) ==> row_holds(item_id, display_name, kind, breadcrumbs@, value),
        found matches Err(error) ==> row_refusal(kind, breadcrumbs@, column) == Some(error@),
{
    let kind = match parse_indexed_kind(kind) {
        Ok(kind) => kind,
        Err(error) => return Err(error),
    };
    match parse_breadcrumbs_column(breadcrumbs, column) {
        Ok(breadcrumbs) => Ok(IndexedMatch { item_id, display_name, kind, breadcrumbs }),
        Err(error) => Err(error),
    }
}

/// The match that a stored row holds.
pub fn indexed_match(
    item_id: String,
    display_name: String,
    kind: i64,
    breadcrumbs: &str,
) -> (found: Result<IndexedMatch, RowError>)
    ensures
        found is Ok == row_refusal(kind, breadcrumbs@, ENTRY_BREADCRUMBS_COLUMN) is None,
        found matches Ok(value) ==> row_holds(item_id, display_name, kind, breadcrumbs@, value),
        found matches Err(error) ==> row_refusal(kind, breadcrumbs@, ENTRY_BREADCRUMBS_COLUMN)
            == Some(error@),
{
    match_of_row(item_id, display_name, kind, breadcrumbs, ENTRY_BREADCRUMBS_COLUMN)
}

/// The match that a row holds which was found by pattern.
pub fn pattern_match(
    item_id: String,
    display_name: String,
    kind: i64,
    breadcrumbs: &str,
) -> (found: Result<IndexedMatch, RowError>)
    ensures
        found is Ok == row_refusal(kind, breadcrumbs@, PATTERN_BREADCRUMBS_COLUMN) is None,
        found matches Ok(value) ==> row_holds(item_id, display_name, kind, breadcrumbs@, value),
        found matches Err(error) ==> row_refusal(kind, breadcrumbs@, PATTERN_BREADCRUMBS_COLUMN)
            == Some(error@),
{
    match_of_row(item_id, display_name, kind, breadcrumbs, PATTERN_BREADCRUMBS_COLUMN)
}

/// How a search is carried out.
#[derive(Debug, PartialEq, Eq)]
pub enum SearchPlan {
    /// Compare the normalized columns with the query.
    Exact { query: String },
    /// Ask the full-text table.
    FullText { query: String, fts_query: String },
    /// Match patterns: an SQL text and the values of its parameters.
    Pattern { sql: String, values: Vec<String> },
}

pub open spec fn all_long(list: Seq<Seq<char>>) -> bool {
    forall|i: int| 0 <= i < list.len() ==> (#[trigger] list[i]).len() >= 3
}

/// Whether the trigram index can answer a query.
pub open spec fn suits_full_text(query: Seq<char>) -> bool {
    query.len() >= 3 && all_long(crate::text::words(query))
}

fn words_are_long(query: &str) -> (long: bool)
    ensures
        long == all_long(crate::text::words(query@)),
{
    let list = split_words(query);
    let mut i: usize = 0;
    while i < list.len()
        invariant
            i <= list.len(),
            crate::text::texts(list@) == crate::text::words(query@),
            forall|j: int|
                0 <= j < i ==> (#[trigger] crate::text::words(query@)[j]).len() >= 3,
        decreases list.len() - i,
    {
        let chars = chars_of(list[i].as_str());
        assert(crate::text::words(query@)[i as int] == list@[i as int]@);
        if chars.len() < 3 {
            return false;
        }
        i += 1;
    }
    true
}

pub open spec fn pattern_sql(generation: u64, prefix: bool, limit: u32) -> Seq<char> {
    "SELECT e.item_id, e.display_name, e.kind, e.breadcrumbs FROM entries e
             WHERE e.server = ? AND e.generation = "@ + crate::numerals::decimal(
        generation as nat,
    ) + (if prefix {
        " AND (e.display_name_norm LIKE ? ESCAPE '\\'
                        OR e.item_id_norm LIKE ? ESCAPE '\\')"@
    } else {
        " AND (e.display_name_norm LIKE ? ESCAPE '\\'
                        OR e.item_id_norm LIKE ? ESCAPE '\\'
                        OR e.breadcrumbs LIKE ? ESCAPE '\\')"@
    }) + " ORDER BY CASE
                 WHEN e.display_name_norm = ? THEN 0
                 WHEN e.item_id_norm = ? THEN 1
                 WHEN e.display_name_norm LIKE ? ESCAPE '\\' THEN 2
                 WHEN e.item_id_norm LIKE ? ESCAPE '\\' THEN 3
                 WHEN e.display_name_norm LIKE ? ESCAPE '\\' THEN 4
                 WHEN e.item_id_norm LIKE ? ESCAPE '\\' THEN 5
                 ELSE 6 END,
                 length(e.display_name_norm), e.display_name_norm, e.item_id_norm
             LIMIT "@ + crate::numerals::decimal(one_more(limit) as nat)
}

/// One more than a limit, so that a further match shows.
pub open spec fn one_more(limit: u32) -> u32 {
    if limit == u32::MAX {
        u32::MAX
    } else {
        (limit + 1) as u32
    }
}

pub open spec fn pattern_values(server: Seq<char>, query: Seq<char>, prefix: bool) -> Seq<
    Seq<char>,
> {
    let starting = escaped(query) + "%"@;
    let containing = "%"@ + escaped(query) + "%"@;
    (if prefix {
        seq![server, starting, starting]
    } else {
        seq![server, containing, containing, containing]
    }) + seq![query, query, starting, starting, containing, containing]
}

fn push_copy(values: &mut Vec<String>, text: &str)
    ensures
        crate::text::texts(final(values)@) == crate::text::texts(old(values)@).push(text@),
{
    values.push(text.to_owned());
    assert(crate::text::texts(values@) =~= crate::text::texts(old(values)@).push(text@));
}

fn plan_pattern(server: &str, generation: u64, query: &str, prefix: bool, limit: u32) -> (plan:
    SearchPlan)
    ensures
        plan matches SearchPlan::Pattern { sql, values } && sql@ == pattern_sql(
            generation,
            prefix,
            limit,
        ) && crate::text::texts(values@) == pattern_values(server@, query@, prefix),
{
    let mut sql = "SELECT e.item_id, e.display_name, e.kind, e.breadcrumbs FROM entries e
             WHERE e.server = ? AND e.generation = ".to_owned();
    push_decimal(&mut sql, generation as u128);
    let literal = escape_like(query);
    let mut starting = literal.clone();
    push_text(&mut starting, "%");
    let mut containing = "%".to_owned();
    push_text(&mut containing, literal.as_str());
    push_text(&mut containing, "%");
    let mut values: Vec<String> = Vec::new();
    push_copy(&mut values, server);
    if prefix {
        push_text(
            &mut sql,
            " AND (e.display_name_norm LIKE ? ESCAPE '\\'
                        OR e.item_id_norm LIKE ? ESCAPE '\\')",
        );
        push_copy(&mut values, starting.as_str());
        push_copy(&mut values, starting.as_str());
    } else {
        push_text(
            &mut sql,
            " AND (e.display_name_norm LIKE ? ESCAPE '\\'
                        OR e.item_id_norm LIKE ? ESCAPE '\\'
                        OR e.breadcrumbs LIKE ? ESCAPE '\\')",
        );
        push_copy(&mut values, containing.as_str());
        push_copy(&mut values, containing.as_str());
        push_copy(&mut values, containing.as_str());
    }
    push_text(
        &mut sql,
        " ORDER BY CASE
                 WHEN e.display_name_norm = ? THEN 0
                 WHEN e.item_id_norm = ? THEN 1
                 WHEN e.display_name_norm LIKE ? ESCAPE '\\' THEN 2
                 WHEN e.item_id_norm LIKE ? ESCAPE '\\' THEN 3
                 WHEN e.display_name_norm LIKE ? ESCAPE '\\' THEN 4
                 WHEN e.item_id_norm LIKE ? ESCAPE '\\' THEN 5
                 ELSE 6 END,
                 length(e.display_name_norm), e.display_name_norm, e.item_id_norm
             LIMIT ",
    );
    push_copy(&mut values, query);
    push_copy(&mut values, query);
    push_copy(&mut values, starting.as_str());
    push_copy(&mut values, starting.as_str());
    push_copy(&mut values, containing.as_str());
    push_copy(&mut values, containing.as_str());
    push_decimal(&mut sql, limit.saturating_add(1) as u128);
    assert(crate::text::texts(values@) =~= pattern_values(server@, query@, prefix));
    SearchPlan::Pattern { sql, values }
}

/// Plans a search: exact comparison in mode one, patterns in mode two and for
/// queries that the trigram index cannot answer, full text otherwise.
pub fn plan_search(server: &str, generation: u64, query: &str, mode: i32, limit: u32) -> (plan:
    SearchPlan)
    ensures
        mode == 1 ==> (plan matches SearchPlan::Exact { query: q } && q@ == normalized(query@)),
        mode != 1 && mode != 2 && suits_full_text(normalized(query@)) ==> (
        plan matches SearchPlan::FullText { query: q, fts_query } && q@ == normalized(query@)
            && fts_query@ == crate::text::join(
            phrases(crate::text::words(normalized(query@))),
            " AND "@,
        )),
        mode == 2 || (mode != 1 && !suits_full_text(normalized(query@))) ==> (
        plan matches SearchPlan::Pattern { sql, values } && sql@ == pattern_sql(
            generation,
            mode == 2,
            limit,
        ) && crate::text::texts(values@) == pattern_values(
            server@,
            normalized(query@),
            mode == 2,
        )),
{
    let normalized_query = normalize_query(query);
    if mode == 1 {
        return SearchPlan::Exact { query: normalized_query };
    }
    let length: usize = chars_of(normalized_query.as_str()).len();
    if length >= 3 && words_are_long(normalized_query.as_str()) && mode != 2 {
        let fts_query = build_fts_query(normalized_query.as_str());
        return SearchPlan::FullText { query: normalized_query, fts_query };
    }
    plan_pattern(server, generation, normalized_query.as_str(), mode == 2, limit)
}

/// Whether a text matches a pattern: `%` stands for any run of characters, `_`
/// for any one character, a backslash for the character behind it, and any
/// other character for itself.
pub open spec fn like(text: Seq<char>, pattern: Seq<char>) -> bool
    decreases pattern.len(), text.len(),
{
    if pattern.len() == 0 {
        text.len() == 0
    } else if pattern[0] == '%' {
        like(text, pattern.drop_first()) || (text.len() > 0 && like(text.drop_first(), pattern))
    } else if text.len() == 0 {
        false
    } else if pattern[0] == '_' {
        like(text.drop_first(), pattern.drop_first())
    } else if pattern[0] == '\\' {
        pattern.len() > 1 && text[0] == pattern[1] && like(text.drop_first(), pattern.skip(2))
    } else {
        text[0] == pattern[0] && like(text.drop_first(), pattern.drop_first())
    }
}

/// How a database compares a column with a pattern: whatever the case of ASCII
/// letters.
pub open spec fn column_matches(column: Seq<char>, pattern: Seq<char>) -> bool {
    like(crate::text::ascii_lowercase(column), crate::text::ascii_lowercase(pattern))
}

proof fn anything_is_like_a_run(text: Seq<char>)
    ensures
        like(text, seq!['%']),
    decreases text.len(),
{
    reveal_with_fuel(like, 2);
    let run = seq!['%'];
    assert(run.drop_first() =~= Seq::<char>::empty());
    if text.len() > 0 {
        anything_is_like_a_run(text.drop_first());
    }
}

proof fn prefix_by_first(text: Seq<char>, query: Seq<char>)
    requires
        query.len() > 0,
    ensures
        crate::text::has_prefix(text, query) <==> (text.len() > 0 && text[0] == query[0]
            && crate::text::has_prefix(text.drop_first(), query.drop_first())),
{
    let rest = query.drop_first();
    if crate::text::has_prefix(text, query) {
        let head = text.subrange(0, query.len() as int);
        assert(head[0] == query[0]);
        assert(text.drop_first().subrange(0, rest.len() as int) =~= rest) by {
            assert forall|i: int| 0 <= i < rest.len() implies text.drop_first()[i] == rest[i] by {
                assert(head[i + 1] == query[i + 1]);
            }
        }
    }
    if text.len() > 0 && text[0] == query[0] && crate::text::has_prefix(text.drop_first(), rest) {
        let tail = text.drop_first().subrange(0, rest.len() as int);
        assert forall|i: int| 0 <= i < query.len() implies text[i] == query[i] by {
            if i > 0 {
                assert(tail[i - 1] == rest[i - 1]);
            }
        }
        assert(text.subrange(0, query.len() as int) =~= query);
    }
}

proof fn starting_pattern_finds_prefixes(text: Seq<char>, query: Seq<char>)
    ensures
        like(text, escaped(query) + seq!['%']) <==> crate::text::has_prefix(text, query),
    decreases query.len(),
{
    let pattern = escaped(query) + seq!['%'];
    if query.len() == 0 {
        assert(pattern =~= seq!['%']);
        anything_is_like_a_run(text);
        assert(text.subrange(0, 0) =~= query);
    } else {
        let rest = query.drop_first();
        escaping_starts_with_the_first(query);
        prefix_by_first(text, query);
        starting_pattern_finds_prefixes(text.drop_first(), rest);
        let tail = escaped(rest) + seq!['%'];
        if escaped_char(query[0]).len() == 2 {
            assert(pattern[0] == '\\' && pattern[1] == query[0]);
            assert(pattern.skip(2) =~= tail);
        } else {
            assert(pattern[0] == query[0]);
            assert(pattern.drop_first() =~= tail);
        }
    }
}

proof fn occurrence_by_first(text: Seq<char>, query: Seq<char>)
    ensures
        crate::text::occurs_in(query, text) <==> (crate::text::has_prefix(text, query) || (
        text.len() > 0 && crate::text::occurs_in(query, text.drop_first()))),
{
    if crate::text::has_prefix(text, query) {
        assert(crate::text::occurs_at(query, text, 0));
    }
    if text.len() > 0 {
        let rest = text.drop_first();
        if crate::text::occurs_in(query, rest) {
            let at = choose|at: int| crate::text::occurs_at(query, rest, at);
            assert(text.subrange(at + 1, at + 1 + query.len()) =~= rest.subrange(
                at,
                at + query.len(),
            ));
            assert(crate::text::occurs_at(query, text, at + 1));
        }
    }
    if crate::text::occurs_in(query, text) {
        let at = choose|at: int| crate::text::occurs_at(query, text, at);
        if at > 0 {
            let rest = text.drop_first();
            assert(rest.subrange(at - 1, at - 1 + query.len()) =~= text.subrange(
                at,
                at + query.len(),
            ));
            assert(crate::text::occurs_at(query, rest, at - 1));
        }
    }
}

proof fn containing_pattern_finds_occurrences(text: Seq<char>, query: Seq<char>)
    ensures
        like(text, seq!['%'] + escaped(query) + seq!['%']) <==> crate::text::occurs_in(query, text),
    decreases text.len(),
{
    let pattern = seq!['%'] + escaped(query) + seq!['%'];
    assert(pattern[0] == '%');
    assert(pattern.drop_first() =~= escaped(query) + seq!['%']);
    starting_pattern_finds_prefixes(text, query);
    occurrence_by_first(text, query);
    if text.len() > 0 {
        containing_pattern_finds_occurrences(text.drop_first(), query);
    }
}

proof fn escaping_keeps_case_apart(text: Seq<char>)
    ensures
        crate::text::ascii_lowercase(escaped(text)) == escaped(crate::text::ascii_lowercase(text)),
    decreases text.len(),
{
    let lower = crate::text::ascii_lowercase(text);
    if text.len() > 0 {
        let front = text.drop_last();
        escaping_keeps_case_apart(front);
        assert(lower.drop_last() =~= crate::text::ascii_lowercase(front));
        assert(lower.last() == crate::text::ascii_lower(text.last()));
        let c = text.last();
        assert(crate::text::ascii_lowercase(escaped_char(c)) =~= escaped_char(
            crate::text::ascii_lower(c),
        ));
    }
    assert(crate::text::ascii_lowercase(escaped(text)) =~= escaped(lower));
}

proof fn patterns_in_lowercase(query: Seq<char>)
    ensures
        crate::text::ascii_lowercase(escaped(query) + "%"@) == escaped(
            crate::text::ascii_lowercase(query),
        ) + seq!['%'],
        crate::text::ascii_lowercase("%"@ + escaped(query) + "%"@) == seq!['%'] + escaped(
            crate::text::ascii_lowercase(query),
        ) + seq!['%'],
{
    reveal_strlit("%");
    escaping_keeps_case_apart(query);
    let lower = crate::text::ascii_lowercase(escaped(query));
    assert(crate::text::ascii_lowercase(escaped(query) + "%"@) =~= lower + seq!['%']);
    assert(crate::text::ascii_lowercase("%"@ + escaped(query) + "%"@) =~= seq!['%'] + lower + seq![
        '%',
    ]);
}

/// The values of a pattern search, after the server, make its columns match
/// exactly what the query asks for: in a prefix search the display name and the
/// item ID where they start with the query, in any other the display name, the
/// item ID and the breadcrumbs where the query occurs in them, whatever the
/// case of ASCII letters.
pub proof fn pattern_searches_find_what_was_asked_for(
    server: Seq<char>,
    query: Seq<char>,
    column: Seq<char>,
)
    ensures
        ({
            let lower = crate::text::ascii_lowercase(column);
            let wanted = crate::text::ascii_lowercase(query);
            let starts = pattern_values(server, query, true);
            let contains = pattern_values(server, query, false);
            &&& starts.len() == 9 && contains.len() == 10
            &&& starts[0] == server && contains[0] == server
            &&& forall|i: int|
                1 <= i < 3 ==> (column_matches(column, #[trigger] starts[i])
                    <==> crate::text::has_prefix(lower, wanted))
            &&& forall|i: int|
                1 <= i < 4 ==> (column_matches(column, #[trigger] contains[i])
                    <==> crate::text::occurs_in(wanted, lower))
        }),
{
    let lower = crate::text::ascii_lowercase(column);
    let wanted = crate::text::ascii_lowercase(query);
    patterns_in_lowercase(query);
    starting_pattern_finds_prefixes(lower, wanted);
    containing_pattern_finds_occurrences(lower, wanted);
}

/// Small letters only: what a pattern search finds among normalized names is
/// the query itself.
pub proof fn pattern_searches_find_normalized_names(
    server: Seq<char>,
    query: Seq<char>,
    name: Seq<char>,
)
    requires
        crate::text::ascii_lowercase(query) == query,
        crate::text::ascii_lowercase(name) == name,
    ensures
        column_matches(name, pattern_values(server, query, true)[1]) <==> crate::text::has_prefix(
            name,
            query,
        ),
        column_matches(name, pattern_values(server, query, false)[1]) <==> crate::text::occurs_in(
            query,
            name,
        ),
{
    pattern_searches_find_what_was_asked_for(server, query, name);
}

/// The tier that a database gives an entry by the last six values of a pattern
/// search: two to compare with, two to start with, two to contain, each pair for
/// the display name and then the item ID.
pub open spec fn tier_by_values(
    values: Seq<Seq<char>>,
    display_name: Seq<char>,
    item_id: Seq<char>,
) -> int {
    let n = values.len();
    if display_name == values[n - 6] {
        0
    } else if item_id == values[n - 5] {
        1
    } else if column_matches(display_name, values[n - 4]) {
        2
    } else if column_matches(item_id, values[n - 3]) {
        3
    } else if column_matches(display_name, values[n - 2]) {
        4
    } else if column_matches(item_id, values[n - 1]) {
        5
    } else {
        6
    }
}

/// A database orders normalized names as the gateway ranks them.
pub proof fn databases_rank_alike(
    server: Seq<char>,
    query: Seq<char>,
    prefix: bool,
    display_name: Seq<char>,
    item_id: Seq<char>,
)
    requires
        crate::text::ascii_lowercase(query) == query,
        crate::text::ascii_lowercase(display_name) == display_name,
        crate::text::ascii_lowercase(item_id) == item_id,
    ensures
        tier_by_values(pattern_values(server, query, prefix), display_name, item_id) == rank(
            query,
            display_name,
            item_id,
        ),
{
    let values = pattern_values(server, query, prefix);
    let n = values.len() as int;
    patterns_in_lowercase(query);
    assert(values[n - 6] == query && values[n - 5] == query);
    starting_pattern_finds_prefixes(display_name, query);
    starting_pattern_finds_prefixes(item_id, query);
    containing_pattern_finds_occurrences(display_name, query);
    containing_pattern_finds_occurrences(item_id, query);
}

/// Entries are ranked by what they have of a query: zero is given exactly to
/// those with its name, zero or one to those with its name or item ID, up to
/// three to those of which either starts with it, up to five to those in which
/// it occurs in either. Within each of these steps the name counts more.
pub proof fn ranks_tell_what_matches(
    query: Seq<char>,
    display_name: Seq<char>,
    item_id: Seq<char>,
)
    ensures
        ({
            let tier = rank(query, display_name, item_id);
            &&& tier <= 6
            &&& tier == 0 <==> display_name == query
            &&& tier <= 1 <==> display_name == query || item_id == query
            &&& tier <= 2 <==> display_name == query || item_id == query || crate::text::has_prefix(
                display_name,
                query,
            )
            &&& tier <= 3 <==> crate::text::has_prefix(display_name, query)
                || crate::text::has_prefix(item_id, query)
            &&& tier <= 4 <==> crate::text::occurs_in(query, display_name)
                || crate::text::has_prefix(item_id, query)
            &&& tier <= 5 <==> crate::text::occurs_in(query, display_name)
                || crate::text::occurs_in(query, item_id)
        }),
{
    ranks_are_nested(query, display_name);
    ranks_are_nested(query, item_id);
}

/// The trigram index is asked only where every word has three characters at
/// least, and always then.
pub proof fn full_text_takes_trigrams(query: Seq<char>)
    ensures
        suits_full_text(query) ==> query.len() >= 3,
        suits_full_text(query) ==> forall|i: int|
            0 <= i < crate::text::words(query).len() ==> (#[trigger] crate::text::words(
                query,
            )[i]).len() >= 3,
        crate::text::is_one_word(query) ==> (suits_full_text(query) <==> query.len() >= 3),
        query.len() >= 3 && !suits_full_text(query) ==> exists|i: int|
            0 <= i < crate::text::words(query).len() && (#[trigger] crate::text::words(
                query,
            )[i]).len() < 3,
{
    if crate::text::is_one_word(query) {
        crate::text::one_word_is_its_words(query);
    }
}

proof fn joining_two(list: Seq<Seq<char>>, other: Seq<Seq<char>>, separator: Seq<char>)
    requires
        list.len() > 0,
        other.len() > 0,
    ensures
        crate::text::join(list + other, separator) == crate::text::join(list, separator) + separator
            + crate::text::join(other, separator),
    decreases other.len(),
{
    let all = list + other;
    assert(all.last() == other.last());
    assert(all.drop_last() =~= list + other.drop_last());
    if other.len() == 1 {
        assert(list + other.drop_last() =~= list);
    } else {
        joining_two(list, other.drop_last(), separator);
        assert(crate::text::join(all, separator) =~= crate::text::join(list, separator) + separator
            + crate::text::join(other, separator));
    }
}

/// The full-text query for one word is its phrase; that for more words asks for
/// those before a gap and for those behind it.
pub proof fn every_word_is_asked_for(head: Seq<char>, gap: Seq<char>, tail: Seq<char>)
    requires
        gap.len() > 0,
        crate::text::is_blank(gap),
        !crate::text::is_blank(head),
        !crate::text::is_blank(tail),
    ensures
        ({
            let asked = |query: Seq<char>|
                crate::text::join(phrases(crate::text::words(query)), " AND "@);
            &&& asked(head + gap + tail) == asked(head) + " AND "@ + asked(tail)
            &&& crate::text::is_one_word(head) ==> asked(head) == seq!['"']
                + crate::text::replaced(head, '"', seq!['"', '"']) + seq!['"']
        }),
{
    reveal_strlit("\"");
    reveal_strlit("\"\"");
    crate::text::whitespace_parts_words(head, gap, tail);
    crate::text::blank_text_has_no_words(head);
    crate::text::blank_text_has_no_words(tail);
    let first = crate::text::words(head);
    let second = crate::text::words(tail);
    assert(phrases(first + second) =~= phrases(first) + phrases(second));
    joining_two(phrases(first), phrases(second), " AND "@);
    if crate::text::is_one_word(head) {
        crate::text::one_word_is_its_words(head);
        assert(phrases(first)[0] == phrase(head));
        assert("\"\""@ =~= seq!['"', '"']);
        assert("\""@ =~= seq!['"']);
    }
}

/// One match more than the limit is asked for, so that a cut shows.
pub proof fn cuts_show(limit: u32)
    ensures
        limit < u32::MAX ==> one_more(limit) == limit + 1,
        limit <= one_more(limit),
{
}

/// A pattern search reads entries of one server and of one generation, those
/// of which the display name or the item ID match or, unless it is a prefix
/// search, the breadcrumbs, and one more than its limit at most.
pub proof fn pattern_searches_keep_to_their_generation(generation: u64, prefix: bool, limit: u32)
    ensures
        ({
            let sql = pattern_sql(generation, prefix, limit);
            &&& crate::text::occurs_in(
                "WHERE e.server = ? AND e.generation = "@ + crate::numerals::decimal(
                    generation as nat,
                ) + " AND (e.display_name_norm LIKE ? ESCAPE '\\'"@,
                sql,
            )
            &&& crate::text::occurs_in("OR e.item_id_norm LIKE ? ESCAPE '\\'"@, sql)
            &&& !prefix ==> crate::text::occurs_in("OR e.breadcrumbs LIKE ? ESCAPE '\\')"@, sql)
            &&& limit < u32::MAX ==> crate::text::has_suffix(
                sql,
                "LIMIT "@ + crate::numerals::decimal((limit + 1) as nat),
            )
        }),
{
    let sql = pattern_sql(generation, prefix, limit);
    let number = crate::numerals::decimal(generation as nat);
    let most = crate::numerals::decimal(one_more(limit) as nat);
    let head = "SELECT e.item_id, e.display_name, e.kind, e.breadcrumbs FROM entries e
             WHERE e.server = ? AND e.generation = "@;
    let clause = if prefix {
        " AND (e.display_name_norm LIKE ? ESCAPE '\\'
                        OR e.item_id_norm LIKE ? ESCAPE '\\')"@
    } else {
        " AND (e.display_name_norm LIKE ? ESCAPE '\\'
                        OR e.item_id_norm LIKE ? ESCAPE '\\'
                        OR e.breadcrumbs LIKE ? ESCAPE '\\')"@
    };
    let order = " ORDER BY CASE
                 WHEN e.display_name_norm = ? THEN 0
                 WHEN e.item_id_norm = ? THEN 1
                 WHEN e.display_name_norm LIKE ? ESCAPE '\\' THEN 2
                 WHEN e.item_id_norm LIKE ? ESCAPE '\\' THEN 3
                 WHEN e.display_name_norm LIKE ? ESCAPE '\\' THEN 4
                 WHEN e.item_id_norm LIKE ? ESCAPE '\\' THEN 5
                 ELSE 6 END,
                 length(e.display_name_norm), e.display_name_norm, e.item_id_norm
             LIMIT "@;
    assert(sql == head + number + clause + order + most);
    reveal_strlit("SELECT e.item_id, e.display_name, e.kind, e.breadcrumbs FROM entries e
             WHERE e.server = ? AND e.generation = ");
    reveal_strlit(" AND (e.display_name_norm LIKE ? ESCAPE '\\'
                        OR e.item_id_norm LIKE ? ESCAPE '\\')");
    reveal_strlit(" AND (e.display_name_norm LIKE ? ESCAPE '\\'
                        OR e.item_id_norm LIKE ? ESCAPE '\\'
                        OR e.breadcrumbs LIKE ? ESCAPE '\\')");
    reveal_strlit(" ORDER BY CASE
                 WHEN e.display_name_norm = ? THEN 0
                 WHEN e.item_id_norm = ? THEN 1
                 WHEN e.display_name_norm LIKE ? ESCAPE '\\' THEN 2
                 WHEN e.item_id_norm LIKE ? ESCAPE '\\' THEN 3
                 WHEN e.display_name_norm LIKE ? ESCAPE '\\' THEN 4
                 WHEN e.item_id_norm LIKE ? ESCAPE '\\' THEN 5
                 ELSE 6 END,
                 length(e.display_name_norm), e.display_name_norm, e.item_id_norm
             LIMIT ");
    reveal_strlit("WHERE e.server = ? AND e.generation = ");
    reveal_strlit(" AND (e.display_name_norm LIKE ? ESCAPE '\\'");
    reveal_strlit("OR e.item_id_norm LIKE ? ESCAPE '\\'");
    reveal_strlit("OR e.breadcrumbs LIKE ? ESCAPE '\\')");
    reveal_strlit("LIMIT ");
    let by_server = "WHERE e.server = ? AND e.generation = "@;
    let by_name = " AND (e.display_name_norm LIKE ? ESCAPE '\\'"@;
    let by_item = "OR e.item_id_norm LIKE ? ESCAPE '\\'"@;
    let by_crumbs = "OR e.breadcrumbs LIKE ? ESCAPE '\\')"@;
    let last = "LIMIT "@;
    assert(head.len() == 122 && order.len() == 504 && by_server.len() == 38 && by_name.len() == 43);
    assert(by_item.len() == 35 && by_crumbs.len() == 35 && last.len() == 6);
    assert(clause.len() == if prefix {
        104int
    } else {
        163
    });
    assert(head.subrange(84, 122) =~= by_server);
    assert(clause.subrange(0, 43) =~= by_name);
    assert(clause.subrange(68, 103) =~= by_item);
    assert(order.subrange(498, 504) =~= last);
    let generation_part = by_server + number + by_name;
    assert(sql.subrange(84, 84int + generation_part.len()) =~= generation_part) by {
        assert(generation_part =~= head.subrange(84, 122) + number + clause.subrange(0, 43));
    }
    assert(crate::text::occurs_at(generation_part, sql, 84));
    let before = (head.len() + number.len()) as int;
    assert(sql.subrange(before + 68, before + 103) =~= by_item) by {
        assert(sql.subrange(before + 68, before + 103) =~= clause.subrange(68, 103));
    }
    assert(crate::text::occurs_at(by_item, sql, before + 68));
    if !prefix {
        assert(clause.subrange(128, 163) =~= by_crumbs);
        assert(sql.subrange(before + 128, before + 163) =~= clause.subrange(128, 163));
        assert(crate::text::occurs_at(by_crumbs, sql, before + 128));
    }
    let end = last + most;
    assert(sql.subrange(sql.len() - end.len(), sql.len() as int) =~= end) by {
        assert(end =~= order.subrange(498, 504) + most);
    }
}

/// A pattern search orders what it finds by tier: a name that equals the query,
/// an item ID that does, a name that starts with it, an item ID that does, a name
/// that contains it, an item ID that does; and within a tier by the length of
/// the name, the name and the item ID.
pub proof fn pattern_searches_are_ordered(generation: u64, prefix: bool, limit: u32)
    ensures
        ({
            let sql = pattern_sql(generation, prefix, limit);
            &&& crate::text::occurs_in("WHEN e.display_name_norm = ? THEN 0"@, sql)
            &&& crate::text::occurs_in("WHEN e.item_id_norm = ? THEN 1"@, sql)
            &&& crate::text::occurs_in("WHEN e.display_name_norm LIKE ? ESCAPE '\\' THEN 2"@, sql)
            &&& crate::text::occurs_in("WHEN e.item_id_norm LIKE ? ESCAPE '\\' THEN 3"@, sql)
            &&& crate::text::occurs_in("WHEN e.display_name_norm LIKE ? ESCAPE '\\' THEN 4"@, sql)
            &&& crate::text::occurs_in("WHEN e.item_id_norm LIKE ? ESCAPE '\\' THEN 5"@, sql)
            &&& crate::text::occurs_in("length(e.display_name_norm), e.display_name_norm, e.item_id_norm"@, sql)
        }),
{
    let sql = pattern_sql(generation, prefix, limit);
    let order = " ORDER BY CASE
                 WHEN e.display_name_norm = ? THEN 0
                 WHEN e.item_id_norm = ? THEN 1
                 WHEN e.display_name_norm LIKE ? ESCAPE '\\' THEN 2
                 WHEN e.item_id_norm LIKE ? ESCAPE '\\' THEN 3
                 WHEN e.display_name_norm LIKE ? ESCAPE '\\' THEN 4
                 WHEN e.item_id_norm LIKE ? ESCAPE '\\' THEN 5
                 ELSE 6 END,
                 length(e.display_name_norm), e.display_name_norm, e.item_id_norm
             LIMIT "@;
    let most = crate::numerals::decimal(one_more(limit) as nat);
    let before = sql.len() - most.len() - order.len();
    reveal_strlit(" ORDER BY CASE
                 WHEN e.display_name_norm = ? THEN 0
                 WHEN e.item_id_norm = ? THEN 1
                 WHEN e.display_name_norm LIKE ? ESCAPE '\\' THEN 2
                 WHEN e.item_id_norm LIKE ? ESCAPE '\\' THEN 3
                 WHEN e.display_name_norm LIKE ? ESCAPE '\\' THEN 4
                 WHEN e.item_id_norm LIKE ? ESCAPE '\\' THEN 5
                 ELSE 6 END,
                 length(e.display_name_norm), e.display_name_norm, e.item_id_norm
             LIMIT ");
    assert(order.len() == 504);
    assert(sql.subrange(before, before + order.len()) =~= order);
    reveal_strlit("WHEN e.display_name_norm = ? THEN 0");
    assert("WHEN e.display_name_norm = ? THEN 0"@.len() == 35);
    assert(order.subrange(32, 67) =~= "WHEN e.display_name_norm = ? THEN 0"@);
    part_occurs(sql, order, before, "WHEN e.display_name_norm = ? THEN 0"@, 32);
    reveal_strlit("WHEN e.item_id_norm = ? THEN 1");
    assert("WHEN e.item_id_norm = ? THEN 1"@.len() == 30);
    assert(order.subrange(85, 115) =~= "WHEN e.item_id_norm = ? THEN 1"@);
    part_occurs(sql, order, before, "WHEN e.item_id_norm = ? THEN 1"@, 85);
    reveal_strlit("WHEN e.display_name_norm LIKE ? ESCAPE '\\' THEN 2");
    assert("WHEN e.display_name_norm LIKE ? ESCAPE '\\' THEN 2"@.len() == 49);
    assert(order.subrange(133, 182) =~= "WHEN e.display_name_norm LIKE ? ESCAPE '\\' THEN 2"@);
    part_occurs(sql, order, before, "WHEN e.display_name_norm LIKE ? ESCAPE '\\' THEN 2"@, 133);
    reveal_strlit("WHEN e.item_id_norm LIKE ? ESCAPE '\\' THEN 3");
    assert("WHEN e.item_id_norm LIKE ? ESCAPE '\\' THEN 3"@.len() == 44);
    assert(order.subrange(200, 244) =~= "WHEN e.item_id_norm LIKE ? ESCAPE '\\' THEN 3"@);
    part_occurs(sql, order, before, "WHEN e.item_id_norm LIKE ? ESCAPE '\\' THEN 3"@, 200);
    reveal_strlit("WHEN e.display_name_norm LIKE ? ESCAPE '\\' THEN 4");
    assert("WHEN e.display_name_norm LIKE ? ESCAPE '\\' THEN 4"@.len() == 49);
    assert(order.subrange(262, 311) =~= "WHEN e.display_name_norm LIKE ? ESCAPE '\\' THEN 4"@);
    part_occurs(sql, order, before, "WHEN e.display_name_norm LIKE ? ESCAPE '\\' THEN 4"@, 262);
    reveal_strlit("WHEN e.item_id_norm LIKE ? ESCAPE '\\' THEN 5");
    assert("WHEN e.item_id_norm LIKE ? ESCAPE '\\' THEN 5"@.len() == 44);
    assert(order.subrange(329, 373) =~= "WHEN e.item_id_norm LIKE ? ESCAPE '\\' THEN 5"@);
    part_occurs(sql, order, before, "WHEN e.item_id_norm LIKE ? ESCAPE '\\' THEN 5"@, 329);
    reveal_strlit("length(e.display_name_norm), e.display_name_norm, e.item_id_norm");
    assert("length(e.display_name_norm), e.display_name_norm, e.item_id_norm"@.len() == 64);
    assert(order.subrange(420, 484) =~= "length(e.display_name_norm), e.display_name_norm, e.item_id_norm"@);
    part_occurs(sql, order, before, "length(e.display_name_norm), e.display_name_norm, e.item_id_norm"@, 420);
}

/// What stands in a part of a text stands in the text.
proof fn part_occurs(text: Seq<char>, part: Seq<char>, at: int, needle: Seq<char>, within: int)
    requires
        crate::text::occurs_at(part, text, at),
        crate::text::occurs_at(needle, part, within),
    ensures
        crate::text::occurs_in(needle, text),
{
    assert(text.subrange(at + within, at + within + needle.len()) =~= part.subrange(
        within,
        within + needle.len(),
    ));
    assert(crate::text::occurs_at(needle, text, at + within));
}

/// What is read from a row is what the row holds: its item ID, its name, its kind
/// and its path.
pub proof fn rows_are_read_as_they_are(
    item_id: String,
    display_name: String,
    kind: i64,
    breadcrumbs: Seq<char>,
    column: usize,
    found: IndexedMatch,
)
    ensures
        row_holds(item_id, display_name, kind, breadcrumbs, found) ==> {
            &&& found.item_id@ == item_id@
            &&& found.display_name@ == display_name@
            &&& found.kind is Item <==> kind == 1
            &&& found.kind is BranchAndItem <==> kind == 2
            &&& crate::index::profile::parsed_json_list(breadcrumbs) is Ok
            &&& crate::index::profile::parsed_json_list(breadcrumbs)->Ok_0 == crate::text::texts(
                found.breadcrumbs@,
            )
        },
        row_refusal(kind, breadcrumbs, column) is None <==> (kind == 1 || kind == 2)
            && crate::index::profile::parsed_json_list(breadcrumbs) is Ok,
{
}

/// Matches that are the same say the same: as many, and each with the item ID,
/// the name, the kind and the path of the one in its place.
pub proof fn same_matches_say_the_same(a: Seq<IndexedMatch>, b: Seq<IndexedMatch>, i: int)
    requires
        same_matches(a, b),
    ensures
        a.len() == b.len(),
        0 <= i < a.len() ==> {
            &&& a[i].item_id@ == b[i].item_id@
            &&& a[i].display_name@ == b[i].display_name@
            &&& a[i].kind == b[i].kind
            &&& crate::text::texts(a[i].breadcrumbs@) == crate::text::texts(b[i].breadcrumbs@)
        },
{
}

} // verus!
