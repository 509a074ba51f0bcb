//! How namespaces, sources, node kinds and breadcrumbs are stored.

use crate::opc::{BrowseSource, InventoryNodeKind, NamespaceOrganization};
use crate::text::same_text;
use vstd::prelude::*;

verus! {

pub open spec fn namespace_name(value: NamespaceOrganization) -> Seq<char> {
    match value {
        NamespaceOrganization::Unspecified => "unspecified"@,
        NamespaceOrganization::Flat => "flat"@,
        NamespaceOrganization::Hierarchical => "hierarchical"@,
    }
}

pub fn namespace_string(value: NamespaceOrganization) -> (name: &'static str)
    ensures
        name@ == namespace_name(value),
{
    match value {
        NamespaceOrganization::Unspecified => "unspecified",
        NamespaceOrganization::Flat => "flat",
        NamespaceOrganization::Hierarchical => "hierarchical",
    }
}

pub open spec fn namespace_named(name: Seq<char>) -> NamespaceOrganization {
    if name == "flat"@ {
        NamespaceOrganization::Flat
    } else if name == "hierarchical"@ {
        NamespaceOrganization::Hierarchical
    } else {
        NamespaceOrganization::Unspecified
    }
}

pub fn parse_namespace(value: &str) -> (organization: NamespaceOrganization)
    ensures
        organization == namespace_named(value@),
{
    if same_text(value, "flat") {
        NamespaceOrganization::Flat
    } else if same_text(value, "hierarchical") {
        NamespaceOrganization::Hierarchical
    } else {
        NamespaceOrganization::Unspecified
    }
}

pub open spec fn source_name(value: BrowseSource) -> Seq<char> {
    match value {
        BrowseSource::Unspecified => "unspecified"@,
        BrowseSource::Da3 => "da3"@,
        BrowseSource::Da2 => "da2"@,
        BrowseSource::Flat => "flat"@,
        BrowseSource::Derived => "derived"@,
    }
}

pub fn source_string(value: BrowseSource) -> (name: &'static str)
    ensures
        name@ == source_name(value),
{
    match value {
        BrowseSource::Unspecified => "unspecified",
        BrowseSource::Da3 => "da3",
        BrowseSource::Da2 => "da2",
        BrowseSource::Flat => "flat",
        BrowseSource::Derived => "derived",
    }
}

pub open spec fn source_named(name: Seq<char>) -> BrowseSource {
    if name == "da3"@ {
        BrowseSource::Da3
    } else if name == "da2"@ {
        BrowseSource::Da2
    } else if name == "flat"@ {
        BrowseSource::Flat
    } else if name == "derived"@ {
        BrowseSource::Derived
    } else {
        BrowseSource::Unspecified
    }
}

pub fn parse_source(value: &str) -> (source: BrowseSource)
    ensures
        source == source_named(value@),
{
    if same_text(value, "da3") {
        BrowseSource::Da3
    } else if same_text(value, "da2") {
        BrowseSource::Da2
    } else if same_text(value, "flat") {
        BrowseSource::Flat
    } else if same_text(value, "derived") {
        BrowseSource::Derived
    } else {
        BrowseSource::Unspecified
    }
}

/// What is stored of a namespace and a source is read back as it was.
pub proof fn stored_profile_is_read_back(organization: NamespaceOrganization, source: BrowseSource)
    ensures
        namespace_named(namespace_name(organization)) == organization,
        source_named(source_name(source)) == source,
{
    reveal_strlit("unspecified");
    reveal_strlit("flat");
    reveal_strlit("hierarchical");
    reveal_strlit("da3");
    reveal_strlit("da2");
    reveal_strlit("derived");
    assert("unspecified"@.len() == 11 && "flat"@.len() == 4 && "hierarchical"@.len() == 12);
    assert("da3"@.len() == 3 && "da2"@.len() == 3 && "derived"@.len() == 7);
    assert("da3"@[2] != "da2"@[2]);
}

/// What is known of the namespace behind the active index.
#[derive(Debug, Clone, Copy, PartialEq, Eq, Structural)]
pub struct StoredIndexProfile {
    pub organization: NamespaceOrganization,
    pub source: BrowseSource,
    pub compatibility_fallback: bool,
}

/// Whether an index still fits what a server reports: the same organization
/// and source, or an index made over DA 2 because DA 3 had to be given up.
pub open spec fn compatible(
    indexed_organization: NamespaceOrganization,
    indexed_source: BrowseSource,
    compatibility_fallback: bool,
    raw_organization: NamespaceOrganization,
    raw_source: BrowseSource,
) -> bool {
    &&& indexed_organization == raw_organization
    &&& indexed_source == raw_source || (compatibility_fallback && indexed_source
        == BrowseSource::Da2 && raw_source == BrowseSource::Da3)
}

pub fn index_profile_is_compatible(
    indexed_organization: NamespaceOrganization,
    indexed_source: BrowseSource,
    compatibility_fallback: bool,
    raw_organization: NamespaceOrganization,
    raw_source: BrowseSource,
) -> (fits: bool)
    ensures
        fits == compatible(
            indexed_organization,
            indexed_source,
            compatibility_fallback,
            raw_organization,
            raw_source,
        ),
{
    indexed_organization == raw_organization && (indexed_source == raw_source || (
    compatibility_fallback && indexed_source == BrowseSource::Da2 && raw_source
        == BrowseSource::Da3))
}

pub open spec fn kind_number(value: InventoryNodeKind) -> i64 {
    match value {
        InventoryNodeKind::Item => 1,
        InventoryNodeKind::BranchAndItem => 2,
    }
}

pub fn node_kind_number(value: InventoryNodeKind) -> (number: i64)
    ensures
        number == kind_number(value),
{
    match value {
        InventoryNodeKind::Item => 1,
        InventoryNodeKind::BranchAndItem => 2,
    }
}

/// The column of an entry's breadcrumbs where the entry is looked up.
pub const ENTRY_BREADCRUMBS_COLUMN: usize = 2;

/// The column of an entry's breadcrumbs where entries are matched by pattern.
pub const PATTERN_BREADCRUMBS_COLUMN: usize = 3;

/// Why a stored row cannot be read.
#[derive(Debug, PartialEq, Eq)]
pub enum RowError {
    UnknownKind(i64),
    /// The breadcrumbs stored in a column are no list of texts, and why.
    Breadcrumbs { column: usize, reason: String },
}

/// A [`RowError`] with its text as a sequence of characters.
pub enum RowRefusal {
    UnknownKind(i64),
    Breadcrumbs { column: usize, reason: Seq<char> },
}

impl View for RowError {
    type V = RowRefusal;

    open spec fn view(&self) -> RowRefusal {
        match *self {
            RowError::UnknownKind(value) => RowRefusal::UnknownKind(value),
            RowError::Breadcrumbs { column, reason } => RowRefusal::Breadcrumbs {
                column,
                reason: reason@,
            },
        }
    }
}

impl RowError {
    /// What SQLite's client says of a row that cannot be read: of an unknown
    /// kind as of an invalid parameter, of breadcrumbs as of a text that cannot
    /// be converted.
    pub open spec fn text(self) -> Seq<char> {
        match self {
            RowError::UnknownKind(value) =>
                "Invalid parameter name: unknown indexed node kind "@
                    + crate::numerals::signed_decimal(value as int),
            RowError::Breadcrumbs { column, reason } =>
                "Conversion error from type Text at index: "@ + crate::numerals::decimal(
                column as nat,
            ) + ", "@ + reason@,
        }
    }

    pub fn message(&self) -> (text: String)
        ensures
            text@ == self.text(),
    {
        match self {
            RowError::UnknownKind(value) => {
                let mut text = "Invalid parameter name: unknown indexed node kind ".to_owned();
                crate::numerals::push_signed_decimal(&mut text, *value);
                text
            },
            RowError::Breadcrumbs { column, reason } => {
                let mut text = "Conversion error from type Text at index: ".to_owned();
                crate::numerals::push_decimal(&mut text, *column as u128);
                crate::text::push_text(&mut text, ", ");
                crate::text::push_text(&mut text, reason.as_str());
                text
            },
        }
    }
}

pub fn parse_indexed_kind(value: i64) -> (kind: Result<InventoryNodeKind, RowError>)
    ensures
        kind is Ok <==> value == 1 || value == 2,
        kind matches Ok(k) ==> kind_number(k) == value,
        kind matches Err(error) ==> error == RowError::UnknownKind(value),
{
    if value == 1 {
        Ok(InventoryNodeKind::Item)
    } else if value == 2 {
        Ok(InventoryNodeKind::BranchAndItem)
    } else {
        Err(RowError::UnknownKind(value))
    }
}

/// The JSON array of a list of texts.
pub uninterp spec fn json_list(list: Seq<Seq<char>>) -> Seq<char>;

/// The list of texts that a JSON text denotes, or why it denotes none.
pub uninterp spec fn parsed_json_list(json: Seq<char>) -> Result<Seq<Seq<char>>, Seq<char>>;

#[verifier::external_type_specification]
#[verifier::external_body]
pub struct ExJsonError(serde_json::Error);

/// `serde_json::to_string` on a list of texts: it fails only where a value
/// refuses to be serialized, which no list of texts does. What it writes is a
/// function of the texts, and reading it gives them back.
#[verifier::external_body]
fn write_json_list(list: &Vec<String>) -> (json: Result<String, serde_json::Error>)
    ensures
        json is Ok,
        json matches Ok(text) ==> text@ == json_list(crate::text::texts(list@)) && denotes(
            parsed_json_list(text@),
            crate::text::texts(list@),
        ),
{
    serde_json::to_string(list)
}

/// Whether a JSON text was found to denote a list.
pub open spec fn denotes(parsed: Result<Seq<Seq<char>>, Seq<char>>, list: Seq<Seq<char>>) -> bool {
    parsed is Ok && parsed->Ok_0 == list
}

/// The views of a reading of a JSON text.
pub open spec fn reading(list: Result<Vec<String>, String>) -> Result<Seq<Seq<char>>, Seq<char>> {
    match list {
        Ok(texts) => Ok(crate::text::texts(texts@)),
        Err(reason) => Err(reason@),
    }
}

/// `serde_json::from_str` into a list of texts: whether it succeeds, with which
/// texts, and how its error reads otherwise, is a function of the JSON text.
#[verifier::external_body]
fn read_json_list(json: &str) -> (list: Result<Vec<String>, String>)
    ensures
        reading(list) == parsed_json_list(json@),
{
    serde_json::from_str(json).map_err(|error: serde_json::Error| error.to_string())
}

/// How breadcrumbs are stored.
pub fn breadcrumbs_json(breadcrumbs: &Vec<String>) -> (json: String)
    ensures
        json@ == json_list(crate::text::texts(breadcrumbs@)),
        denotes(parsed_json_list(json@), crate::text::texts(breadcrumbs@)),
{
    match write_json_list(breadcrumbs) {
        Ok(text) => text,
        Err(_) => String::new(),
    }
}

/// What is made of the reading of breadcrumbs stored in a column.
pub fn breadcrumbs_read(outcome: Result<Vec<String>, String>, column: usize) -> (breadcrumbs: Result<
    Vec<String>,
    RowError,
>)
    ensures
        breadcrumbs == (match outcome {
            Ok(list) => Ok::<Vec<String>, RowError>(list),
            Err(reason) => Err::<Vec<String>, RowError>(RowError::Breadcrumbs { column, reason }),
        }),
{
    match outcome {
        Ok(list) => Ok(list),
        Err(reason) => Err(RowError::Breadcrumbs { column, reason }),
    }
}

/// Whether a result is what breadcrumbs stored in a column are read as.
pub open spec fn reads_breadcrumbs(
    value: Seq<char>,
    column: usize,
    breadcrumbs: Result<Vec<String>, RowError>,
) -> bool {
    match parsed_json_list(value) {
        Ok(list) => breadcrumbs is Ok && crate::text::texts(breadcrumbs->Ok_0@) == list,
        Err(reason) => breadcrumbs is Err && breadcrumbs->Err_0@ == (RowRefusal::Breadcrumbs {
            column,
            reason,
        }),
    }
}

pub fn parse_breadcrumbs_column(value: &str, column: usize) -> (breadcrumbs: Result<
    Vec<String>,
    RowError,
>)
    ensures
        reads_breadcrumbs(value@, column, breadcrumbs),
{
    breadcrumbs_read(read_json_list(value), column)
}

pub fn parse_indexed_breadcrumbs(value: &str) -> (breadcrumbs: Result<Vec<String>, RowError>)
    ensures
        reads_breadcrumbs(value@, ENTRY_BREADCRUMBS_COLUMN, breadcrumbs),
{
    parse_breadcrumbs_column(value, ENTRY_BREADCRUMBS_COLUMN)
}

/// An index fits a server that is organized as it was and is read as it was. One
/// that had to fall back from DA3 to DA2 fits its server, which still offers
/// DA3. Nothing else fits.
pub proof fn indexes_fit_unchanged_servers(
    indexed_organization: NamespaceOrganization,
    indexed_source: BrowseSource,
    compatibility_fallback: bool,
    raw_organization: NamespaceOrganization,
    raw_source: BrowseSource,
)
    ensures
        ({
            let fits = compatible(
                indexed_organization,
                indexed_source,
                compatibility_fallback,
                raw_organization,
                raw_source,
            );
            &&& indexed_organization != raw_organization ==> !fits
            &&& indexed_organization == raw_organization && indexed_source == raw_source ==> fits
            &&& indexed_organization == raw_organization && indexed_source is Da2
                && raw_source is Da3 ==> (fits <==> compatibility_fallback)
            &&& indexed_source != raw_source && !(indexed_source is Da2 && raw_source is Da3)
                ==> !fits
        }),
{
}

/// Nothing but its own name is read as an organization or a source: other names
/// leave it unspecified.
pub proof fn other_names_are_unspecified(name: Seq<char>)
    ensures
        namespace_named(name) is Flat <==> name == "flat"@,
        namespace_named(name) is Hierarchical <==> name == "hierarchical"@,
        source_named(name) is Da3 <==> name == "da3"@,
        source_named(name) is Da2 <==> name == "da2"@,
        source_named(name) is Flat <==> name == "flat"@,
        source_named(name) is Derived <==> name == "derived"@,
{
    reveal_strlit("flat");
    reveal_strlit("hierarchical");
    reveal_strlit("da3");
    reveal_strlit("da2");
    reveal_strlit("derived");
    assert("flat"@.len() == 4 && "hierarchical"@.len() == 12 && "derived"@.len() == 7);
    assert("da3"@.len() == 3 && "da2"@.len() == 3);
    assert("da3"@[2] != "da2"@[2]);
}

/// Items are stored as 1, and those that are branches as well as 2.
pub proof fn kinds_have_their_numbers(kind: InventoryNodeKind)
    ensures
        kind is Item <==> kind_number(kind) == 1,
        kind is BranchAndItem <==> kind_number(kind) == 2,
{
}

} // verus!
