//! The values exchanged with an OPC DA server.

use crate::measurement::Measurement;
use crate::time::Duration;
use vstd::prelude::*;

verus! {

/// Maximum number of entries requested from one native inventory operation.
pub const MAX_NATIVE_INVENTORY_BATCH_SIZE: u32 = 1_000;

#[derive(Debug, Clone, Copy, PartialEq, Eq, Structural)]
pub enum NamespaceOrganization {
    Unspecified,
    Flat,
    Hierarchical,
}

#[derive(Debug, Clone, Copy, PartialEq, Eq, Structural)]
pub enum BrowseSource {
    Unspecified,
    Da3,
    Da2,
    Flat,
    Derived,
}

#[derive(Debug, Clone, Copy, PartialEq, Eq, Structural)]
pub enum BrowseNodeKind {
    Branch,
    Item,
    BranchAndItem,
}

#[derive(Debug, Clone, Copy, PartialEq, Eq, Structural)]
pub struct BrowseCapabilities {
    pub organization: NamespaceOrganization,
    pub source: BrowseSource,
    pub supports_browse_sessions: bool,
    pub supports_search: bool,
    pub max_page_size: u32,
}

#[derive(Debug, Clone, PartialEq, Eq)]
pub struct BrowseNode {
    pub node_key: String,
    pub display_name: String,
    pub kind: BrowseNodeKind,
    pub item_id: Option<String>,
}

#[derive(Debug, Clone, PartialEq, Eq)]
pub struct BrowsePage {
    pub nodes: Vec<BrowseNode>,
    pub next_page_token: Option<String>,
    pub complete: bool,
    pub organization: NamespaceOrganization,
    pub source: BrowseSource,
    pub warning: Option<String>,
}

#[derive(Debug, Clone, Copy, PartialEq, Eq, Structural)]
pub enum InventoryNodeKind {
    Item,
    BranchAndItem,
}

#[derive(Debug, Clone, PartialEq, Eq)]
pub struct InventoryEntry {
    pub display_name: String,
    pub item_id: String,
    pub kind: InventoryNodeKind,
    pub breadcrumbs: Vec<String>,
}

#[derive(Debug, Clone, Copy, PartialEq, Eq)]
pub struct InventoryProgress {
    pub branches_visited: u64,
    pub entries_seen: u64,
    pub unique_items: u64,
    pub active_time_ms: u64,
    pub paused_time_ms: u64,
    pub items_per_second: Measurement,
    pub estimated_remaining_ms: Option<u64>,
}

#[derive(Debug, Clone, Copy, PartialEq, Eq, Structural)]
pub enum InventorySliceBackend {
    Da3,
    Da2,
}

#[derive(Debug, Clone, Copy, PartialEq, Eq, Structural)]
pub struct InventorySliceObservation {
    pub sequence: u64,
    pub backend: InventorySliceBackend,
    pub nodes_returned: u64,
    pub has_more: bool,
    pub native_operations: u64,
    pub elapsed_ms: u64,
    pub entries_seen: u64,
    pub unique_items: u64,
}

#[derive(Debug, Clone, PartialEq, Eq)]
pub struct InventoryCompleted {
    pub complete: bool,
    pub cancelled: bool,
    pub truncated: bool,
    pub warning: Option<String>,
    pub organization: NamespaceOrganization,
    pub source: BrowseSource,
}

#[derive(Debug, Clone, PartialEq, Eq)]
pub enum InventoryEvent {
    Entry(InventoryEntry),
    Progress(InventoryProgress),
    Slice(InventorySliceObservation),
    Completed(InventoryCompleted),
}

#[derive(Debug, Clone, Copy, PartialEq, Eq)]
pub struct InventoryPacing {
    pub min_interval: Duration,
    /// Maximum number of inventory items requested per second at the native
    /// COM boundary.
    pub item_rate_per_second: Option<u32>,
    /// Native entries requested for the next inventory slice.
    pub batch_size: Option<u32>,
}

impl Default for InventoryPacing {
    fn default() -> (pacing: Self)
        ensures
            pacing == (InventoryPacing {
                min_interval: Duration { nanos: 0 },
                item_rate_per_second: None,
                batch_size: None,
            }),
    {
        InventoryPacing {
            min_interval: Duration::zero(),
            item_rate_per_second: None,
            batch_size: None,
        }
    }
}

/// Steers a running inventory.
pub trait InventoryControl: Send + Sync {
    fn pause(&self);

    fn resume(&self);

    fn cancel(&self);

    /// Applies limits to subsequent native inventory calls.
    ///
    /// A failure is terminal for the active build because continuing with stale
    /// pacing would violate the coordinator's load-control decision.
    fn set_pacing(&self, pacing: InventoryPacing) -> (result: Result<(), String>)
        default_ensures
            result is Ok,
    {
        let _ = pacing;
        Ok(())
    }

    fn is_cancelled(&self) -> (cancelled: bool)
        default_ensures
            !cancelled,
    {
        false
    }
}

#[derive(Debug, Clone, PartialEq, Eq)]
pub struct TagValue {
    pub tag_id: String,
    /// The exact semantic value returned by OPC DA.
    ///
    /// For a `VT_BSTR`, quote characters are preserved exactly as returned by
    /// the server; the gateway does not add display framing.
    pub value: String,
    pub quality: String,
    pub timestamp: String,
}

#[derive(Debug, Clone, PartialEq, Eq)]
pub struct WriteResult {
    pub tag_id: String,
    pub success: bool,
    pub error: Option<String>,
}

#[derive(Debug, Clone, PartialEq, Eq)]
pub enum OpcValue {
    String(String),
    Int(i32),
    Float(Measurement),
    Bool(bool),
}

} // verus!
