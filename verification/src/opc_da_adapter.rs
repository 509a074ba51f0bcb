//! What the values of the native OPC DA client mean to the gateway.

use crate::collections::StrMap;
use crate::numerals::push_decimal;
use crate::opc::{
    BrowseCapabilities, BrowseNode, BrowseNodeKind, BrowsePage, BrowseSource, InventoryCompleted,
    InventoryEntry, InventoryEvent, InventoryNodeKind, InventoryProgress,
    InventorySliceObservation, NamespaceOrganization, MAX_NATIVE_INVENTORY_BATCH_SIZE,
};
use crate::text::{joined, push_text};
use vstd::prelude::*;

verus! {

/// How a native namespace says it is organised.
#[derive(Debug, Clone, Copy, PartialEq, Eq, Structural)]
pub enum NativeNamespace {
    Unknown,
    Flat,
    Hierarchical,
}

/// What a native server can do.
#[derive(Debug, Clone, Copy, PartialEq, Eq, Structural)]
pub struct NativeCapabilities {
    pub namespace: NativeNamespace,
    pub supports_da2: bool,
    pub supports_da3: bool,
    pub max_page_size: u32,
}

pub open spec fn organization_of(native: NativeCapabilities) -> NamespaceOrganization {
    match native.namespace {
        NativeNamespace::Flat => NamespaceOrganization::Flat,
        NativeNamespace::Hierarchical => NamespaceOrganization::Hierarchical,
        NativeNamespace::Unknown => NamespaceOrganization::Unspecified,
    }
}

/// What a namespace is browsed with: a flat one as such, any other with the
/// newest interface there is.
pub open spec fn source_of(native: NativeCapabilities) -> BrowseSource {
    if native.namespace is Flat {
        BrowseSource::Flat
    } else if native.supports_da3 {
        BrowseSource::Da3
    } else if native.supports_da2 {
        BrowseSource::Da2
    } else {
        BrowseSource::Derived
    }
}

pub fn map_capabilities(native: &NativeCapabilities) -> (profile: (
    NamespaceOrganization,
    BrowseSource,
))
    ensures
        profile == (organization_of(*native), source_of(*native)),
{
    let organization = match native.namespace {
        NativeNamespace::Flat => NamespaceOrganization::Flat,
        NativeNamespace::Hierarchical => NamespaceOrganization::Hierarchical,
        NativeNamespace::Unknown => NamespaceOrganization::Unspecified,
    };
    let source = match native.namespace {
        NativeNamespace::Flat => BrowseSource::Flat,
        NativeNamespace::Hierarchical | NativeNamespace::Unknown => {
            if native.supports_da3 {
                BrowseSource::Da3
            } else if native.supports_da2 {
                BrowseSource::Da2
            } else {
                BrowseSource::Derived
            }
        },
    };
    (organization, source)
}

/// The capabilities of a server as the gateway tells them. Sessions and search
/// are its own.
pub fn gateway_capabilities(native: &NativeCapabilities) -> (capabilities: BrowseCapabilities)
    ensures
        capabilities == (BrowseCapabilities {
            organization: organization_of(*native),
            source: source_of(*native),
            supports_browse_sessions: true,
            supports_search: true,
            max_page_size: native.max_page_size,
        }),
{
    let (organization, source) = map_capabilities(native);
    BrowseCapabilities {
        organization,
        source,
        supports_browse_sessions: true,
        supports_search: true,
        max_page_size: native.max_page_size,
    }
}

/// An entry of a native inventory.
#[derive(Debug, PartialEq, Eq)]
pub struct NativeEntry {
    pub display_name: String,
    pub item_id: String,
    pub kind: BrowseNodeKind,
    pub breadcrumbs: Vec<String>,
}

/// How a native inventory ended.
#[derive(Debug, PartialEq, Eq)]
pub struct NativeCompletion {
    pub complete: bool,
    pub cancelled: bool,
    pub truncated: bool,
    pub warning: Option<String>,
    pub capabilities: NativeCapabilities,
}

/// An event of a native inventory.
#[derive(Debug, PartialEq, Eq)]
pub enum NativeInventoryEvent {
    Entry(NativeEntry),
    Progress(InventoryProgress),
    Slice(InventorySliceObservation),
    Completed(NativeCompletion),
}

/// The kind of an inventoried node. Inventories list items, so a node that
/// says it is a mere branch is taken for one.
pub open spec fn inventoried(kind: BrowseNodeKind) -> InventoryNodeKind {
    match kind {
        BrowseNodeKind::Item => InventoryNodeKind::Item,
        BrowseNodeKind::BranchAndItem => InventoryNodeKind::BranchAndItem,
        BrowseNodeKind::Branch => InventoryNodeKind::Item,
    }
}

pub fn map_inventory_event(event: NativeInventoryEvent) -> (mapped: InventoryEvent)
    ensures
        mapped == (match event {
            NativeInventoryEvent::Entry(entry) => InventoryEvent::Entry(
                InventoryEntry {
                    display_name: entry.display_name,
                    item_id: entry.item_id,
                    kind: inventoried(entry.kind),
                    breadcrumbs: entry.breadcrumbs,
                },
            ),
            NativeInventoryEvent::Progress(progress) => InventoryEvent::Progress(progress),
            NativeInventoryEvent::Slice(slice) => InventoryEvent::Slice(slice),
            NativeInventoryEvent::Completed(completed) => InventoryEvent::Completed(
                InventoryCompleted {
                    complete: completed.complete,
                    cancelled: completed.cancelled,
                    truncated: completed.truncated,
                    warning: completed.warning,
                    organization: organization_of(completed.capabilities),
                    source: source_of(completed.capabilities),
                },
            ),
        }),
{
    match event {
        NativeInventoryEvent::Entry(entry) => InventoryEvent::Entry(
            InventoryEntry {
                display_name: entry.display_name,
                item_id: entry.item_id,
                kind: match entry.kind {
                    BrowseNodeKind::Item => InventoryNodeKind::Item,
                    BrowseNodeKind::BranchAndItem => InventoryNodeKind::BranchAndItem,
                    BrowseNodeKind::Branch => InventoryNodeKind::Item,
                },
                breadcrumbs: entry.breadcrumbs,
            },
        ),
        NativeInventoryEvent::Progress(progress) => InventoryEvent::Progress(progress),
        NativeInventoryEvent::Slice(slice) => InventoryEvent::Slice(slice),
        NativeInventoryEvent::Completed(completed) => {
            let (organization, source) = map_capabilities(&completed.capabilities);
            InventoryEvent::Completed(
                InventoryCompleted {
                    complete: completed.complete,
                    cancelled: completed.cancelled,
                    truncated: completed.truncated,
                    warning: completed.warning,
                    organization,
                    source,
                },
            )
        },
    }
}

/// Whether a native inventory may be asked for batches of a size.
pub fn check_batch_size(batch_size: u32) -> (result: Result<(), String>)
    ensures
        result is Ok == (1 <= batch_size <= MAX_NATIVE_INVENTORY_BATCH_SIZE),
        result matches Err(message) ==> message@
            == "native inventory batch size must be between 1 and "@ + crate::numerals::decimal(
            MAX_NATIVE_INVENTORY_BATCH_SIZE as nat,
        ),
{
    if batch_size < 1 || batch_size > MAX_NATIVE_INVENTORY_BATCH_SIZE {
        let mut message = "native inventory batch size must be between 1 and ".to_owned();
        push_decimal(&mut message, MAX_NATIVE_INVENTORY_BATCH_SIZE as u128);
        return Err(message);
    }
    Ok(())
}

/// What is said of an identifier that the native client cannot read.
pub fn invalid_token_message(label: &str, error: &str) -> (message: String)
    ensures
        message@ == "invalid "@ + label@ + " token: "@ + error@,
{
    let mut message = joined("invalid ", label);
    push_text(&mut message, " token: ");
    push_text(&mut message, error);
    message
}

/// What is said of a batch size that the native client does not take.
pub fn batch_update_message(error: &str) -> (message: String)
    ensures
        message@ == "native inventory batch update failed: "@ + error@,
{
    joined("native inventory batch update failed: ", error)
}

/// What is known of the native sessions that are open.
#[derive(Debug)]
pub struct AdapterSessions {
    pub profiles: StrMap<(NamespaceOrganization, BrowseSource)>,
}

impl AdapterSessions {
    pub fn new() -> (sessions: Self)
        ensures
            sessions.profiles@ == Map::<Seq<char>, (NamespaceOrganization, BrowseSource)>::empty(),
    {
        AdapterSessions { profiles: StrMap::new() }
    }

    /// A native session was opened.
    pub fn opened(&mut self, session_id: &str, native: &NativeCapabilities)
        ensures
            final(self).profiles@ == old(self).profiles@.insert(
                session_id@,
                (organization_of(*native), source_of(*native)),
            ),
    {
        self.profiles.insert(session_id, map_capabilities(native));
    }

    /// A native session was closed, or could not be.
    pub fn closed(&mut self, session_id: &str)
        ensures
            final(self).profiles@ == old(self).profiles@.remove(session_id@),
    {
        self.profiles.remove(session_id);
    }

    /// A page of a native session. Without a cursor it is the last one.
    pub fn page(
        &self,
        session_id: &str,
        nodes: Vec<BrowseNode>,
        continuation: Option<String>,
    ) -> (page: Result<BrowsePage, String>)
        ensures
            page is Ok == self.profiles@.contains_key(session_id@),
            page matches Err(message) ==> message@ == "unknown browse session"@,
            page matches Ok(page) ==> page == (BrowsePage {
                nodes,
                next_page_token: continuation,
                complete: continuation is None,
                organization: self.profiles@[session_id@].0,
                source: self.profiles@[session_id@].1,
                warning: None,
            }),
    {
        match self.profiles.get(session_id) {
            Some(profile) => {
                let complete = continuation.is_none();
                Ok(
                    BrowsePage {
                        nodes,
                        next_page_token: continuation,
                        complete,
                        organization: profile.0,
                        source: profile.1,
                        warning: None,
                    },
                )
            },
            None => Err("unknown browse session".to_owned()),
        }
    }
}

/// Every page of a native session can be passed on to callers: it is complete
/// exactly if it has no cursor.
pub proof fn native_pages_are_consistent(page: BrowsePage)
    requires
        page.complete == (page.next_page_token is None),
    ensures
        crate::browse::page_refusal(page) is None,
{
}

/// A flat namespace is read as a flat one, whatever the server offers. Any other
/// is read by DA3 where that is offered, else by DA2, and else derived.
pub proof fn servers_are_read_by_the_best_they_offer(native: NativeCapabilities)
    ensures
        organization_of(native) is Flat <==> native.namespace is Flat,
        organization_of(native) is Hierarchical <==> native.namespace is Hierarchical,
        source_of(native) is Flat <==> native.namespace is Flat,
        source_of(native) is Da3 <==> !(native.namespace is Flat) && native.supports_da3,
        source_of(native) is Da2 <==> !(native.namespace is Flat) && !native.supports_da3
            && native.supports_da2,
        source_of(native) is Derived <==> !(native.namespace is Flat) && !native.supports_da3
            && !native.supports_da2,
{
}

/// A node that is a branch as well is inventoried as such, and every other as an
/// item.
pub proof fn branches_are_told_from_items(kind: BrowseNodeKind)
    ensures
        inventoried(kind) is BranchAndItem <==> kind is BranchAndItem,
{
}

} // verus!
