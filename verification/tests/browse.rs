use opcda_bridge_gateway::browse::session::{
    PageBinding, PageKey, Session, MAX_CACHED_PAGES_PER_SESSION, MAX_NODE_BINDINGS_PER_SESSION,
    MAX_PAGE_BINDINGS_PER_SESSION,
};
use opcda_bridge_gateway::browse::{
    check_native_page, normalize_page_size, operation_error, BrowseCode, BrowseManager,
    PageLookup, DEFAULT_PAGE_SIZE, MAX_ACTIVE_SESSIONS, MAX_PAGE_SIZE, SESSION_TTL_SECONDS,
};
use opcda_bridge_gateway::opc::{
    BrowseNode, BrowseNodeKind, BrowsePage, BrowseSource, NamespaceOrganization,
};
use opcda_bridge_gateway::time::{Duration, Instant};
use opcda_bridge_gateway::tokens::fresh_tokens;

const NOW: Instant = Instant {
    nanos: 5_000_000_000_000,
};

fn page() -> BrowsePage {
    BrowsePage {
        nodes: Vec::new(),
        next_page_token: None,
        complete: true,
        organization: NamespaceOrganization::Hierarchical,
        source: BrowseSource::Da2,
        warning: None,
    }
}

fn native_page(page_token: Option<&str>) -> BrowsePage {
    BrowsePage {
        nodes: vec![BrowseNode {
            node_key: "native-node".into(),
            display_name: page_token.unwrap_or("root").into(),
            kind: BrowseNodeKind::BranchAndItem,
            item_id: Some("exact.item".into()),
        }],
        next_page_token: if page_token.is_none() {
            Some("native-next".into())
        } else {
            None
        },
        complete: page_token.is_some(),
        organization: NamespaceOrganization::Hierarchical,
        source: BrowseSource::Da2,
        warning: None,
    }
}

fn key(parent: Option<&str>, token: Option<&str>, page_size: u32) -> PageKey {
    PageKey {
        parent_node_key: parent.map(str::to_string),
        page_token: token.map(str::to_string),
        page_size,
    }
}

/// Opens a session and records the first page of its root.
fn browsed() -> (BrowseManager, String, BrowsePage) {
    let mut manager = BrowseManager::new();
    let session = manager
        .open_session("S", "native-session".into(), NOW)
        .unwrap();
    let first = manager
        .store_page(session.as_str(), key(None, None, 10), native_page(None), NOW)
        .unwrap();
    (manager, session, first)
}

#[test]
fn normalize_page_size_defaults_and_rejects_large_values() {
    assert_eq!(normalize_page_size(0).unwrap(), DEFAULT_PAGE_SIZE);
    assert_eq!(normalize_page_size(MAX_PAGE_SIZE).unwrap(), MAX_PAGE_SIZE);
    let error = normalize_page_size(MAX_PAGE_SIZE + 1).unwrap_err();
    assert_eq!(error.code, BrowseCode::InvalidArgument);
    assert_eq!(error.message, "page_size must be between 1 and 1000");
}

#[test]
fn session_cache_and_bindings_evict_old_entries() {
    let mut session = Session::new("S".into(), "native".into(), NOW);
    session.touch(NOW);
    session.cache_page(key(None, None, 10), page());
    session.cache_page(key(None, None, 10), page());
    assert_eq!(session.pages.len(), 1);
    for index in 0..=MAX_CACHED_PAGES_PER_SESSION {
        session.cache_page(key(None, Some(index.to_string().as_str()), 10), page());
    }
    assert_eq!(session.pages.len(), MAX_CACHED_PAGES_PER_SESSION);

    for index in 0..=MAX_PAGE_BINDINGS_PER_SESSION {
        session.bind_page(
            format!("token-{index}"),
            PageBinding {
                native_page_token: format!("native-{index}"),
                parent_node_key: Some("parent".into()),
                page_size: 10,
            },
        );
    }
    assert_eq!(session.page_bindings.len(), MAX_PAGE_BINDINGS_PER_SESSION);
    assert!(!session.page_bindings.contains_key("token-0"));
    session.cache_page(key(Some("parent"), Some("child"), 10), page());
    session.invalidate_parent(&Some("parent".into()));
    assert!(session
        .pages
        .iter()
        .all(|entry| entry.0.parent_node_key.as_deref() != Some("parent")));
    assert_eq!(session.page_bindings.len(), 0);
    assert!(session.page_binding_order.is_empty());
}

#[test]
fn rejects_native_open_and_active_session_limit() {
    let refused = operation_error("open failed".into());
    assert_eq!(refused.code, BrowseCode::Unavailable);
    assert_eq!(refused.message, "open failed");
    let mut manager = BrowseManager::new();
    for index in 0..MAX_ACTIVE_SESSIONS {
        assert!(manager.check_capacity().is_ok());
        manager
            .admit_session(
                format!("session-{index}").as_str(),
                "S",
                format!("native-{index}"),
                NOW,
            )
            .unwrap();
    }
    let error = manager.check_capacity().unwrap_err();
    assert_eq!(error.code, BrowseCode::ResourceExhausted);
    assert_eq!(
        manager
            .open_session("S", "one-too-many".into(), NOW)
            .unwrap_err()
            .code,
        BrowseCode::ResourceExhausted
    );
}

#[test]
fn opens_browse_session_and_translates_opaque_values() {
    let (_, session, first) = browsed();
    assert_ne!(session, "native-session");
    assert_eq!(first.nodes[0].display_name, "root");
    assert!(first.next_page_token.is_some());
    assert_ne!(first.next_page_token.as_deref(), Some("native-next"));
    assert_ne!(
        first.nodes[0].node_key, "native-node",
        "the gateway must not expose native node keys"
    );
}

#[test]
fn page_token_is_bound_to_parent_and_page_size() {
    let (mut manager, session, first) = browsed();
    let token = first.next_page_token.unwrap();
    let parent = first.nodes[0].node_key.clone();
    let wrong_parent = manager
        .lookup_page(
            "S",
            session.as_str(),
            Some("wrong"),
            Some(token.as_str()),
            10,
            false,
            NOW,
        )
        .unwrap_err();
    assert_eq!(wrong_parent.code, BrowseCode::NotFound);
    let wrong_size = manager
        .lookup_page(
            "S",
            session.as_str(),
            Some(parent.as_str()),
            Some(token.as_str()),
            11,
            false,
            NOW,
        )
        .unwrap_err();
    assert_eq!(wrong_size.code, BrowseCode::FailedPrecondition);
}

#[test]
fn cursors_and_nodes_lead_to_their_native_counterparts() {
    let (mut manager, session, first) = browsed();
    let token = first.next_page_token.unwrap();
    let parent = first.nodes[0].node_key.clone();
    match manager
        .lookup_page("S", session.as_str(), None, Some(token.as_str()), 10, false, NOW)
        .unwrap()
    {
        PageLookup::Fetch {
            native_session_id,
            native_parent_key,
            native_page_token,
        } => {
            assert_eq!(native_session_id, "native-session");
            assert_eq!(native_parent_key, None);
            assert_eq!(native_page_token.as_deref(), Some("native-next"));
        }
        other => panic!("unexpected {other:?}"),
    }
    match manager
        .lookup_page("S", session.as_str(), Some(parent.as_str()), None, 10, false, NOW)
        .unwrap()
    {
        PageLookup::Fetch {
            native_parent_key, ..
        } => assert_eq!(native_parent_key.as_deref(), Some("native-node")),
        other => panic!("unexpected {other:?}"),
    }
}

#[test]
fn cache_hit_does_not_open_another_native_session() {
    let (mut manager, session, first) = browsed();
    match manager
        .lookup_page("S", session.as_str(), None, None, 10, false, NOW)
        .unwrap()
    {
        PageLookup::Cached(second) => assert_eq!(first, second),
        other => panic!("unexpected {other:?}"),
    }
    assert_eq!(
        manager
            .recheck_page(session.as_str(), &key(None, None, 10), false, NOW)
            .unwrap(),
        Some(first)
    );
}

#[test]
fn refresh_forces_a_new_native_page() {
    let (mut manager, session, first) = browsed();
    let lookup = manager
        .lookup_page("S", session.as_str(), None, None, 10, true, NOW)
        .unwrap();
    assert!(matches!(lookup, PageLookup::Fetch { .. }));
    assert_eq!(
        manager
            .recheck_page(session.as_str(), &key(None, None, 10), true, NOW)
            .unwrap(),
        None
    );
    let token = first.next_page_token.unwrap();
    assert_eq!(
        manager
            .lookup_page("S", session.as_str(), None, Some(token.as_str()), 10, false, NOW)
            .unwrap_err()
            .message,
        "invalid browse page token",
        "cursors of the refreshed parent are forgotten"
    );
}

#[test]
fn rejects_refresh_with_page_token_and_wrong_server_or_token() {
    let (mut manager, session, first) = browsed();
    let token = first.next_page_token.unwrap();
    let parent = first.nodes[0].node_key.clone();
    assert_eq!(
        BrowseManager::check_request(10, true, true)
            .unwrap_err()
            .code,
        BrowseCode::InvalidArgument
    );
    assert_eq!(BrowseManager::check_request(0, true, false).unwrap(), 200);
    assert_eq!(
        manager
            .lookup_page("Other", session.as_str(), None, None, 10, false, NOW)
            .unwrap_err()
            .code,
        BrowseCode::FailedPrecondition
    );
    assert_eq!(
        manager
            .lookup_page("S", session.as_str(), None, Some("unknown"), 10, false, NOW)
            .unwrap_err()
            .code,
        BrowseCode::FailedPrecondition
    );
    assert_eq!(
        manager
            .lookup_page(
                "S",
                session.as_str(),
                Some(parent.as_str()),
                Some(token.as_str()),
                10,
                false,
                NOW
            )
            .unwrap_err()
            .code,
        BrowseCode::FailedPrecondition
    );
}

#[test]
fn rejects_inconsistent_native_pages_and_node_limit() {
    let mut manager = BrowseManager::new();
    let session = manager
        .open_session("S", "native-session".into(), NOW)
        .unwrap();
    let with_token = BrowsePage {
        next_page_token: Some("next".into()),
        complete: true,
        ..page()
    };
    assert_eq!(
        check_native_page(&with_token).unwrap_err().code,
        BrowseCode::Internal
    );
    assert_eq!(
        manager
            .store_page(session.as_str(), key(None, None, 10), with_token, NOW)
            .unwrap_err()
            .code,
        BrowseCode::Internal
    );
    let without_token = BrowsePage {
        next_page_token: None,
        complete: false,
        ..page()
    };
    assert_eq!(
        manager
            .store_page(session.as_str(), key(None, None, 10), without_token, NOW)
            .unwrap_err()
            .code,
        BrowseCode::Internal
    );

    let mut full = manager.sessions.take(session.as_str()).unwrap();
    for index in 0..MAX_NODE_BINDINGS_PER_SESSION {
        full.node_bindings
            .insert(format!("gateway-{index}"), format!("native-{index}"));
    }
    manager.sessions.insert(session.as_str(), full);
    let native = BrowsePage {
        nodes: vec![BrowseNode {
            node_key: "native-node".into(),
            display_name: "node".into(),
            kind: BrowseNodeKind::Item,
            item_id: Some("item".into()),
        }],
        ..page()
    };
    let error = manager
        .store_page(session.as_str(), key(None, None, 10), native, NOW)
        .unwrap_err();
    assert_eq!(error.code, BrowseCode::ResourceExhausted);
    assert_eq!(error.message, "maximum browse nodes per session reached");
}

#[test]
fn expired_sessions_are_closed_before_the_next_request() {
    let (mut manager, session, _) = browsed();
    let edge = NOW.plus(Duration::from_secs(SESSION_TTL_SECONDS));
    assert!(manager.remove_expired(edge).is_empty());
    let late = edge.plus(Duration::from_secs(1));
    let gone = manager.remove_expired(late);
    assert_eq!(gone.len(), 1);
    assert_eq!(gone[0].session_id, session);
    assert_eq!(gone[0].session.native_session_id, "native-session");
    let error = manager
        .lookup_page("S", session.as_str(), None, None, 10, false, late)
        .unwrap_err();
    assert_eq!(error.code, BrowseCode::NotFound);
    assert!(manager.remove_expired(late).is_empty());
}

#[test]
fn used_sessions_do_not_expire() {
    let (mut manager, session, _) = browsed();
    let later = NOW.plus(Duration::from_secs(50));
    manager
        .lookup_page("S", session.as_str(), None, None, 10, false, later)
        .unwrap();
    assert!(manager
        .remove_expired(NOW.plus(Duration::from_secs(100)))
        .is_empty());
}

#[test]
fn explicit_close_releases_native_session() {
    let (mut manager, session, _) = browsed();
    assert_eq!(
        manager.begin_close(session.as_str()).unwrap(),
        "native-session"
    );
    manager.close_session(session.as_str()).unwrap();
    assert_eq!(
        manager.close_session(session.as_str()).unwrap_err().code,
        BrowseCode::NotFound
    );
    assert_eq!(
        manager.begin_close(session.as_str()).unwrap_err().code,
        BrowseCode::NotFound
    );
    let closed = manager
        .store_page(session.as_str(), key(None, None, 10), native_page(None), NOW)
        .unwrap_err();
    assert_eq!(closed.message, "browse session closed during browse");
}

#[test]
fn given_identifiers_are_taken_in_order() {
    let mut manager = BrowseManager::new();
    manager
        .admit_session("session", "S", "native".into(), NOW)
        .unwrap();
    let recorded = manager
        .record_page(
            "session",
            key(None, None, 10),
            native_page(None),
            vec!["node".into(), "cursor".into()],
            NOW,
        )
        .unwrap();
    assert_eq!(recorded.nodes[0].node_key, "node");
    assert_eq!(recorded.next_page_token.as_deref(), Some("cursor"));
}

#[test]
fn identifiers_are_random_and_well_formed() {
    let tokens = fresh_tokens(3);
    assert_eq!(tokens.len(), 3);
    assert_ne!(tokens[0], tokens[1]);
    for token in tokens {
        assert_eq!(token.len(), 36);
        assert_eq!(token.as_bytes()[14], b'4');
        for (index, byte) in token.bytes().enumerate() {
            if [8, 13, 18, 23].contains(&index) {
                assert_eq!(byte, b'-');
            } else {
                assert!(byte.is_ascii_digit() || (b'a'..=b'f').contains(&byte));
            }
        }
    }
}

#[test]
fn sessions_of_failed_requests_do_not_stay_open() {
    assert!(BrowseManager::closes_after_request(true, true));
    assert!(!BrowseManager::closes_after_request(true, false));
    assert!(!BrowseManager::closes_after_request(false, true));
}
