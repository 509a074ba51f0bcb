use opcda_bridge_gateway::index::entries::{count_inserted, prepare_entries, EntryError};
use opcda_bridge_gateway::index::generations::{
    abandon_generation, active_profile, discard_empty_generation, fail_generation, find_newest,
    generation_state_string, has_obsolete_generations, parse_generation_state,
    promote_with_profile, recover_interrupted, remove_emptied_generations, search_generation,
    start_generation, update_progress, GenerationError, GenerationRow, GenerationState,
    CLEANUP_BATCH_SIZE,
};
use opcda_bridge_gateway::index::ranking::{
    keep_found, rank_exact, rank_full_text, ExactRow, FullTextRow,
};
use opcda_bridge_gateway::index::search::{
    indexed_match, normalize_query, pattern_match, plan_search, IndexedMatch, SearchPlan,
};
use opcda_bridge_gateway::measurement::Measurement;
use opcda_bridge_gateway::opc::{
    BrowseSource, InventoryEntry, InventoryNodeKind, InventoryProgress, NamespaceOrganization,
};

fn number(value: f64) -> Measurement {
    Measurement {
        bits: value.to_bits(),
    }
}

fn zero_progress() -> InventoryProgress {
    InventoryProgress {
        branches_visited: 0,
        entries_seen: 0,
        unique_items: 0,
        active_time_ms: 0,
        paused_time_ms: 0,
        items_per_second: number(0.0),
        estimated_remaining_ms: None,
    }
}

fn inventory_entry(display_name: &str, item_id: &str) -> InventoryEntry {
    InventoryEntry {
        display_name: display_name.into(),
        item_id: item_id.into(),
        kind: InventoryNodeKind::Item,
        breadcrumbs: vec![],
    }
}

fn start(rows: &mut Vec<GenerationRow>, started_at: &str) -> u64 {
    start_generation(
        rows,
        NamespaceOrganization::Hierarchical,
        BrowseSource::Da2,
        started_at.into(),
    )
    .unwrap()
}

fn promote(rows: &mut Vec<GenerationRow>, generation: u64, at: &str, items: u64) {
    promote_with_profile(rows, generation, at.into(), items, None, None).unwrap();
}

fn state_of(rows: &Vec<GenerationRow>, generation: u64) -> GenerationState {
    rows.iter()
        .find(|row| row.generation == generation)
        .unwrap()
        .state
}

#[test]
fn staging_generations_are_recovered_once_their_lock_is_free() {
    let mut rows = Vec::new();
    let active = start(&mut rows, "1");
    promote(&mut rows, active, "2", 1);
    let staging = start(&mut rows, "3");
    // While another process holds the server's lock, nothing is recovered.
    assert_eq!(
        generation_state_string(state_of(&rows, staging)),
        "staging"
    );
    recover_interrupted(&mut rows);
    assert_eq!(
        generation_state_string(state_of(&rows, staging)),
        "superseded"
    );
    assert_eq!(state_of(&rows, active), GenerationState::Active);
}

#[test]
fn interrupted_builds_fail_where_nothing_is_active() {
    let mut rows = Vec::new();
    let generation = start(&mut rows, "1");
    recover_interrupted(&mut rows);
    assert_eq!(rows.len(), 1);
    assert_eq!(state_of(&rows, generation), GenerationState::Failed);
    assert_eq!(
        rows[0].last_error.as_deref(),
        Some("namespace index build interrupted by gateway restart")
    );
    assert_eq!(search_generation(&rows), None);
}

#[test]
fn confirmed_compatibility_fallbacks_are_recorded() {
    let mut migrated = vec![GenerationRow {
        generation: 1,
        state: GenerationState::Active,
        organization: NamespaceOrganization::Hierarchical,
        source: BrowseSource::Da2,
        started_at: "1".into(),
        completed_at: Some("2".into()),
        entry_count: 0,
        unique_item_count: 0,
        last_error: None,
        compatibility_fallback: false,
    }];
    assert!(!active_profile(&migrated).unwrap().compatibility_fallback);
    let generation = start_generation(
        &mut migrated,
        NamespaceOrganization::Hierarchical,
        BrowseSource::Da3,
        "3".into(),
    )
    .unwrap();
    assert_eq!(generation, 2);
    promote_with_profile(
        &mut migrated,
        generation,
        "4".into(),
        1,
        Some((NamespaceOrganization::Hierarchical, BrowseSource::Da2)),
        Some("DA3 compatibility fallback".into()),
    )
    .unwrap();
    let profile = active_profile(&migrated).unwrap();
    assert_eq!(profile.source, BrowseSource::Da2);
    assert!(profile.compatibility_fallback);
}

#[test]
fn invalid_entries_and_failed_generations_are_told_apart() {
    let mut rows = Vec::new();
    let generation = start_generation(
        &mut rows,
        NamespaceOrganization::Flat,
        BrowseSource::Flat,
        "1".into(),
    )
    .unwrap();
    let invalid = vec![inventory_entry("Invalid", "")];
    assert_eq!(
        prepare_entries(&invalid, generation),
        Err(EntryError::EmptyItemId)
    );
    assert!(prepare_entries(&vec![inventory_entry("Valid", "S.Valid")], generation).is_ok());
    update_progress(
        &mut rows,
        generation,
        &InventoryProgress {
            branches_visited: 1,
            entries_seen: 1,
            unique_items: 1,
            active_time_ms: 1,
            paused_time_ms: 0,
            items_per_second: number(1.0),
            estimated_remaining_ms: Some(10),
        },
    )
    .unwrap();
    assert_eq!(rows[0].entry_count, 1);
    let error = update_progress(
        &mut rows,
        generation,
        &InventoryProgress {
            unique_items: u64::MAX,
            ..zero_progress()
        },
    )
    .unwrap_err();
    assert!(error
        .message()
        .contains("unique item count exceeds SQLite range"));

    assert!(indexed_match("S.Valid".into(), "Valid".into(), 99, "[]").is_err());
    assert!(indexed_match("S.Valid".into(), "Valid".into(), 1, "not-json").is_err());
    assert!(pattern_match("S.Valid".into(), "Valid".into(), 1, "not-json")
        .unwrap_err()
        .message()
        .starts_with("Conversion error from type Text at index: 3, "));
    assert!(
        promote_with_profile(&mut rows, generation + 1, "2".into(), 0, None, None).is_err()
    );

    fail_generation(&mut rows, generation, "failed".into()).unwrap();
    assert_eq!(generation_state_string(rows[0].state), "failed");
    assert_eq!(rows[0].last_error.as_deref(), Some("failed"));

    let replacement = start_generation(
        &mut rows,
        NamespaceOrganization::Hierarchical,
        BrowseSource::Da3,
        "3".into(),
    )
    .unwrap();
    assert_eq!(rows.len(), 2);
    assert!(discard_empty_generation(&mut rows, replacement, false).unwrap());
    assert_eq!(rows.len(), 1);
    assert_eq!(search_generation(&rows), None);
}

#[test]
fn promotion_uses_inventory_metadata_without_scanning_entries() {
    let mut rows = Vec::new();
    let generation = start_generation(
        &mut rows,
        NamespaceOrganization::Flat,
        BrowseSource::Flat,
        "1".into(),
    )
    .unwrap();
    promote(&mut rows, generation, "2", 1);
    let row = rows.remove(0);
    assert_eq!(generation_state_string(row.state), "active");
    assert_eq!(row.entry_count, 1);
    assert_eq!(row.unique_item_count, 1);
}

#[test]
fn refused_promotion_keeps_the_previous_generation_active() {
    let mut rows = Vec::new();
    let previous = start(&mut rows, "1");
    promote(&mut rows, previous, "2", 1);
    let target = start(&mut rows, "3");
    assert_eq!(
        promote_with_profile(&mut rows, target, "4".into(), u64::MAX, None, None),
        Err(GenerationError::EntryCountExceedsRange)
    );
    assert_eq!(generation_state_string(rows[0].state), "active");
    assert_eq!(rows[0].generation, previous);
    assert_eq!(generation_state_string(rows[1].state), "staging");
    assert_eq!(rows[1].generation, target);
    assert_eq!(search_generation(&rows), Some(previous));
}

#[test]
fn superseded_generations_stay_until_they_are_empty() {
    let mut rows = Vec::new();
    let previous = start(&mut rows, "1");
    promote(&mut rows, previous, "2", CLEANUP_BATCH_SIZE as u64 + 1);
    assert!(!has_obsolete_generations(&rows));
    let active = start(&mut rows, "3");
    promote(&mut rows, active, "4", 1);
    assert_eq!(
        generation_state_string(state_of(&rows, previous)),
        "superseded"
    );
    assert!(has_obsolete_generations(&rows));
    // As long as entries of it are left the generation stays.
    assert_eq!(
        remove_emptied_generations(&mut rows, &vec![previous, active], CLEANUP_BATCH_SIZE),
        0
    );
    assert_eq!(rows.len(), 2);
    assert_eq!(
        remove_emptied_generations(&mut rows, &vec![active], CLEANUP_BATCH_SIZE),
        1
    );
    assert_eq!(rows.len(), 1);
    assert_eq!(search_generation(&rows), Some(active));
    assert!(!has_obsolete_generations(&rows));
}

#[test]
fn abandoned_generations_are_dropped_or_kept_as_failed() {
    let mut rows = Vec::new();
    let empty = start(&mut rows, "1");
    assert_eq!(
        abandon_generation(&mut rows, empty, false, "cancelled".into()),
        Ok(true)
    );
    assert!(rows.is_empty());
    let filled = start(&mut rows, "2");
    assert_eq!(
        abandon_generation(&mut rows, filled, true, "cancelled".into()),
        Ok(false)
    );
    assert_eq!(rows[0].state, GenerationState::Failed);
    assert_eq!(rows[0].last_error.as_deref(), Some("cancelled"));
    assert_eq!(
        abandon_generation(&mut rows, u64::MAX, true, "cancelled".into()),
        Err(GenerationError::GenerationExceedsRange)
    );
}

#[test]
fn generation_states_are_read_back() {
    for state in [
        GenerationState::Staging,
        GenerationState::Active,
        GenerationState::Superseded,
        GenerationState::Failed,
    ] {
        assert_eq!(
            parse_generation_state(generation_state_string(state)),
            Some(state)
        );
    }
    assert_eq!(parse_generation_state("unknown"), None);
}

#[test]
fn generation_errors_have_messages() {
    let mut rows = vec![GenerationRow {
        generation: i64::MAX as u64,
        state: GenerationState::Failed,
        organization: NamespaceOrganization::Flat,
        source: BrowseSource::Flat,
        started_at: "1".into(),
        completed_at: None,
        entry_count: 0,
        unique_item_count: 0,
        last_error: None,
        compatibility_fallback: false,
    }];
    let error = start_generation(
        &mut rows,
        NamespaceOrganization::Flat,
        BrowseSource::Flat,
        "2".into(),
    )
    .unwrap_err();
    assert_eq!(error, GenerationError::Exhausted);
    assert!(!error.message().is_empty());
    assert_eq!(
        fail_generation(&mut rows, u64::MAX, "x".into()),
        Err(GenerationError::GenerationExceedsRange)
    );
    assert_eq!(
        GenerationError::GenerationExceedsRange.message(),
        "namespace index generation exceeds SQLite range"
    );
    assert_eq!(find_newest(&rows, GenerationState::Active), None);
    assert_eq!(find_newest(&rows, GenerationState::Failed), Some(0));
}

#[test]
fn entries_are_prepared_for_storage() {
    let entries = vec![
        InventoryEntry {
            display_name: "PV".into(),
            item_id: "FCS0201!204FI00510.PV".into(),
            kind: InventoryNodeKind::Item,
            breadcrumbs: vec!["FCS0201".into(), "204FI00510".into()],
        },
        InventoryEntry {
            display_name: "Temperature".into(),
            item_id: "FCS0201!204TI00510.PV".into(),
            kind: InventoryNodeKind::BranchAndItem,
            breadcrumbs: vec!["FCS0201".into()],
        },
    ];
    let prepared = prepare_entries(&entries, 1).unwrap();
    assert_eq!(prepared.len(), 2);
    assert_eq!(prepared[0].item_id, "FCS0201!204FI00510.PV");
    assert_eq!(prepared[0].item_id_norm, "fcs0201!204fi00510.pv");
    assert_eq!(prepared[0].display_name_norm, "pv");
    assert_eq!(prepared[0].breadcrumbs, r#"["FCS0201","204FI00510"]"#);
    assert_eq!(prepared[0].breadcrumb_text, "FCS0201 204FI00510");
    assert_eq!(prepared[1].kind, 2);
    assert_eq!(count_inserted(&vec![1, 0, 1]), 2);
    assert_eq!(
        prepare_entries(&entries, u64::MAX),
        Err(EntryError::GenerationExceedsRange)
    );

    let mut rows = Vec::new();
    let first = start(&mut rows, "1");
    promote(&mut rows, first, "2", 2);
    let second = start(&mut rows, "3");
    promote(&mut rows, second, "4", 1);
    assert_eq!(search_generation(&rows), Some(second));
    recover_interrupted(&mut rows);
    assert_eq!(search_generation(&rows), Some(second));
    assert_eq!(state_of(&rows, second), GenerationState::Active);
}

#[test]
fn stored_entries_are_read_back() {
    let entries = vec![InventoryEntry {
        display_name: "Pump 1".into(),
        item_id: "Area.Pump".into(),
        kind: InventoryNodeKind::BranchAndItem,
        breadcrumbs: vec!["Area".into(), "Pumps".into()],
    }];
    let prepared = prepare_entries(&entries, 1).unwrap().remove(0);
    let read = indexed_match(
        prepared.item_id,
        prepared.display_name,
        prepared.kind,
        prepared.breadcrumbs.as_str(),
    )
    .unwrap();
    assert_eq!(
        read,
        IndexedMatch {
            item_id: "Area.Pump".into(),
            display_name: "Pump 1".into(),
            kind: InventoryNodeKind::BranchAndItem,
            breadcrumbs: vec!["Area".into(), "Pumps".into()],
        }
    );
}

fn full_text_row(display_name: &str, item_id: &str) -> FullTextRow {
    FullTextRow {
        item_id: item_id.into(),
        display_name: display_name.into(),
    }
}

#[test]
fn full_text_search_ranks_bounded_candidates_without_join_sort() {
    let rows = vec![
        full_text_row("ordinary two", "area.219.item"),
        full_text_row("block 219", "display-contains"),
        full_text_row("ordinary", "219.item"),
        full_text_row("219 block", "display-prefix"),
        full_text_row("219", "display-exact"),
    ];
    let ids = |limit: u32| -> Vec<String> {
        rank_full_text(&rows, "219", limit)
            .iter()
            .map(|candidate| candidate.item_id.clone())
            .collect()
    };
    assert_eq!(
        ids(10),
        vec![
            "display-exact",
            "display-prefix",
            "219.item",
            "display-contains",
            "area.219.item",
        ]
    );
    assert_eq!(ids(2), vec!["display-exact", "display-prefix", "219.item"]);
    let gone = keep_found(vec![
        None,
        Some(IndexedMatch {
            item_id: "display-prefix".into(),
            display_name: "219 block".into(),
            kind: InventoryNodeKind::Item,
            breadcrumbs: vec![],
        }),
    ]);
    assert_eq!(gone.len(), 1);
}

fn exact_row(display_name: &str, item_id: &str) -> ExactRow {
    ExactRow {
        item_id: item_id.into(),
        display_name: display_name.into(),
        display_name_norm: normalize_query(display_name),
        item_id_norm: normalize_query(item_id),
        kind: 1,
        breadcrumbs: "[]".into(),
    }
}

#[test]
fn exact_search_uses_ranked_equality_matches_without_duplicates() {
    let rows = vec![
        exact_row("PUMP", "z-display"),
        exact_row("pump", "a-display"),
        exact_row("Pump output", "PUMP"),
        exact_row("PUMP", "pump"),
        exact_row("unrelated", "other"),
    ];
    let rows: Vec<ExactRow> = rows
        .into_iter()
        .filter(|row| row.display_name_norm == "pump" || row.item_id_norm == "pump")
        .collect();
    let ids = |limit: u32| -> Vec<String> {
        rank_exact(&rows, "pump", limit)
            .unwrap()
            .iter()
            .map(|value| value.item_id.clone())
            .collect()
    };
    assert_eq!(ids(10), vec!["a-display", "pump", "z-display", "PUMP"]);
    assert_eq!(ids(2), vec!["a-display", "pump", "z-display"]);
    let broken = vec![ExactRow {
        kind: 99,
        ..exact_row("PUMP", "x")
    }];
    assert!(rank_exact(&broken, "pump", 10).is_err());
}

#[test]
fn searches_are_planned_by_mode() {
    assert_eq!(
        plan_search("S", 4, "PuMp", 1, 10),
        SearchPlan::Exact {
            query: "pump".into()
        }
    );
    assert_eq!(
        plan_search("S", 4, "Pump Two", 3, 10),
        SearchPlan::FullText {
            query: "pump two".into(),
            fts_query: "\"pump\" AND \"two\"".into()
        }
    );
    match plan_search("S", 4, "100%", 2, 10) {
        SearchPlan::Pattern { sql, values } => {
            assert!(sql.contains("LIKE"));
            assert!(values.contains(&"S".to_string()));
            assert!(values.contains(&"100\\%%".to_string()));
        }
        other => panic!("unexpected plan {other:?}"),
    }
    assert!(matches!(
        plan_search("S", 4, "ar", 3, 10),
        SearchPlan::Pattern { .. }
    ));
}

#[test]
fn normalizing_a_query_twice_changes_nothing() {
    let query = normalize_query("  PUMP \u{a0}\t Speed ");
    assert_eq!(query, "pump speed");
    assert_eq!(normalize_query(&query), query);
    assert_eq!(normalize_query("pump\nSPEED"), query);
    assert_eq!(normalize_query(" \u{3000} "), "");
    assert_eq!(normalize_query("\u{c4}RA"), "\u{e4}ra");
}
