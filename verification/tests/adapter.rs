use opcda_bridge_gateway::browse::check_native_page;
use opcda_bridge_gateway::host_metrics::{
    busy_share, filetime_ticks, system_counters, transferred, ProcessCounters, SystemCounters,
};
use opcda_bridge_gateway::opc::{
    BrowseNodeKind, BrowseSource, InventoryEvent, InventoryNodeKind, NamespaceOrganization,
};
use opcda_bridge_gateway::opc_da_adapter::{
    batch_update_message, check_batch_size, gateway_capabilities, invalid_token_message,
    map_capabilities, map_inventory_event, AdapterSessions, NativeCapabilities, NativeCompletion,
    NativeEntry, NativeInventoryEvent, NativeNamespace,
};

fn native(namespace: NativeNamespace, da2: bool, da3: bool) -> NativeCapabilities {
    NativeCapabilities {
        namespace,
        supports_da2: da2,
        supports_da3: da3,
        max_page_size: 500,
    }
}

#[test]
fn capabilities_prefer_the_newest_interface() {
    let cases = [
        (
            native(NativeNamespace::Flat, true, true),
            NamespaceOrganization::Flat,
            BrowseSource::Flat,
        ),
        (
            native(NativeNamespace::Hierarchical, true, true),
            NamespaceOrganization::Hierarchical,
            BrowseSource::Da3,
        ),
        (
            native(NativeNamespace::Hierarchical, true, false),
            NamespaceOrganization::Hierarchical,
            BrowseSource::Da2,
        ),
        (
            native(NativeNamespace::Unknown, false, false),
            NamespaceOrganization::Unspecified,
            BrowseSource::Derived,
        ),
    ];
    for (capabilities, organization, source) in cases {
        assert_eq!(map_capabilities(&capabilities), (organization, source));
        let told = gateway_capabilities(&capabilities);
        assert_eq!(told.organization, organization);
        assert!(told.supports_browse_sessions && told.supports_search);
        assert_eq!(told.max_page_size, 500);
    }
}

#[test]
fn inventoried_branches_count_as_items() {
    for (kind, mapped) in [
        (BrowseNodeKind::Branch, InventoryNodeKind::Item),
        (BrowseNodeKind::Item, InventoryNodeKind::Item),
        (
            BrowseNodeKind::BranchAndItem,
            InventoryNodeKind::BranchAndItem,
        ),
    ] {
        let event = map_inventory_event(NativeInventoryEvent::Entry(NativeEntry {
            display_name: "Name".into(),
            item_id: "Id".into(),
            kind,
            breadcrumbs: vec!["Area".into()],
        }));
        match event {
            InventoryEvent::Entry(entry) => {
                assert_eq!(entry.kind, mapped);
                assert_eq!(entry.breadcrumbs, vec!["Area"]);
            }
            other => panic!("unexpected {other:?}"),
        }
    }
    let event = map_inventory_event(NativeInventoryEvent::Completed(NativeCompletion {
        complete: true,
        cancelled: false,
        truncated: false,
        warning: None,
        capabilities: native(NativeNamespace::Flat, true, true),
    }));
    match event {
        InventoryEvent::Completed(completed) => {
            assert_eq!(completed.source, BrowseSource::Flat);
            assert!(completed.complete);
        }
        other => panic!("unexpected {other:?}"),
    }
}

#[test]
fn batch_sizes_are_bounded() {
    assert!(check_batch_size(1).is_ok());
    assert!(check_batch_size(1_000).is_ok());
    for size in [0, 1_001] {
        assert_eq!(
            check_batch_size(size).unwrap_err(),
            "native inventory batch size must be between 1 and 1000"
        );
    }
    assert_eq!(
        invalid_token_message("browse node", "too short"),
        "invalid browse node token: too short"
    );
    assert_eq!(
        batch_update_message("closed"),
        "native inventory batch update failed: closed"
    );
}

#[test]
fn pages_carry_the_profile_of_their_session() {
    let mut sessions = AdapterSessions::new();
    assert_eq!(
        sessions.page("native", vec![], None).unwrap_err(),
        "unknown browse session"
    );
    sessions.opened("native", &native(NativeNamespace::Hierarchical, true, false));
    let page = sessions.page("native", vec![], Some("next".into())).unwrap();
    assert!(!page.complete);
    assert_eq!(page.source, BrowseSource::Da2);
    assert!(check_native_page(&page).is_ok());
    let last = sessions.page("native", vec![], None).unwrap();
    assert!(last.complete);
    assert!(check_native_page(&last).is_ok());
    sessions.closed("native");
    assert!(sessions.page("native", vec![], None).is_err());
}

#[test]
fn host_counters_are_compared_reading_by_reading() {
    assert_eq!(filetime_ticks(1, 2), 2 * 4_294_967_296 + 1);
    assert_eq!(filetime_ticks(u32::MAX, u32::MAX), u64::MAX);
    let first = system_counters(40, 70, 30);
    assert_eq!(
        first,
        SystemCounters {
            busy_ticks: 60,
            total_ticks: 100
        }
    );
    let second = system_counters(60, 120, 80);
    assert_eq!(busy_share(Some(first), Some(second)), Some((80, 100)));
    assert_eq!(busy_share(Some(second), Some(second)), None);
    assert_eq!(busy_share(None, Some(second)), None);
    assert_eq!(
        transferred(
            Some(ProcessCounters {
                read_bytes: 5,
                write_bytes: 9
            }),
            Some(ProcessCounters {
                read_bytes: 8,
                write_bytes: 4
            })
        ),
        Some((3, 0))
    );
    assert_eq!(transferred(None, None), None);
}
