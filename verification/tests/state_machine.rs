use quickspell::state::compute_filtered;
use quickspell::{
    Action, AppState, AppStatus, EscapeResult, Item, SearchConfig, Spell,
};

fn item(kind: &str, name: &str, data: &str) -> Item {
    Item {
        item_type: kind.to_string(),
        name: name.to_string(),
        data: data.to_string(),
    }
}

fn spell(id: &str, search: Option<SearchConfig>, actions: Vec<Action>) -> Spell {
    Spell {
        name: format!("Spell {id}"),
        id: id.to_string(),
        enabled: true,
        provider: "true".to_string(),
        alias: None,
        is_streaming: None,
        preview: None,
        search,
        actions,
    }
}

fn started(spells: Vec<Spell>, items: Vec<Item>) -> AppState {
    let mut state = AppState::new();
    state.begin_loading_with_spells(spells).unwrap();
    let uid = state.inner.stack[0].id;
    state.finish_loading_with_items(items, uid);
    state
}

#[test]
fn begin_twice_fails_with_already_started() {
    let mut state = AppState::new();
    assert!(state
        .begin_loading_with_spells(vec![spell("quickspell", None, Vec::new())])
        .is_ok());
    assert_eq!(state.inner.status, AppStatus::Loading);
    let again = state.begin_loading_with_spells(Vec::new());
    assert_eq!(again.unwrap_err(), "already started");
}

#[test]
fn finish_loading_installs_items_only_for_current_frame() {
    let mut state = started(
        vec![spell("quickspell", None, Vec::new())],
        vec![item("A", "a", "1")],
    );
    assert_eq!(state.inner.status, AppStatus::Ready);
    assert_eq!(state.inner.stack[0].all_items.len(), 1);
    assert_eq!(state.inner.stack[0].filtered_items.len(), 1);

    // a batch for a frame that is no longer current is discarded
    let stale_uid = state.inner.stack[0].id + 7;
    state.finish_loading_with_items(vec![item("B", "b", "2")], stale_uid);
    assert_eq!(state.inner.stack[0].all_items.len(), 1);
    assert_eq!(state.inner.stack[0].all_items[0].item_type, "A");
}

#[test]
fn selection_clamps_at_both_ends() {
    let items = vec![
        item("F", "a", "1"),
        item("F", "b", "2"),
        item("F", "c", "3"),
        item("F", "d", "4"),
        item("F", "e", "5"),
    ];
    let mut state = started(vec![spell("quickspell", None, Vec::new())], items);
    assert!(state.set_selection_delta(100));
    assert_eq!(state.inner.stack[0].selected_idx, 4);
    assert!(state.set_selection_delta(-100));
    assert_eq!(state.inner.stack[0].selected_idx, 0);
    assert!(state.set_selection_delta(2));
    assert_eq!(state.inner.stack[0].selected_idx, 2);
}

#[test]
fn selection_on_empty_filtered_set_stays_zero() {
    let mut state = started(vec![spell("quickspell", None, Vec::new())], Vec::new());
    assert!(state.set_selection_delta(100));
    assert_eq!(state.inner.stack[0].selected_idx, 0);
    assert!(state.set_selection_delta(-3));
    assert_eq!(state.inner.stack[0].selected_idx, 0);
}

#[test]
fn escape_is_two_staged() {
    let spells = vec![
        spell("quickspell", None, Vec::new()),
        spell("files", None, Vec::new()),
    ];
    let mut state = started(spells, vec![item("F", "a", "1")]);
    state.push_spell_frame("files").unwrap();
    let uid = state.inner.stack[1].id;
    state.finish_loading_with_items(vec![item("G", "g", "2")], uid);
    state.set_query("g".to_string());
    assert_eq!(state.inner.stack.len(), 2);

    let first = state.handle_escape();
    assert_eq!(first, EscapeResult::ClearedQuery);
    assert_eq!(state.inner.stack.len(), 2);
    assert_eq!(state.inner.stack[1].query, "");
    assert_eq!(
        state.inner.stack[1].filtered_items,
        state.inner.stack[1].all_items
    );

    let second = state.handle_escape();
    assert_eq!(second, EscapeResult::PoppedFrame);
    assert_eq!(state.inner.stack.len(), 1);
    assert_eq!(state.inner.status, AppStatus::Ready);

    let third = state.handle_escape();
    assert_eq!(third, EscapeResult::Noop);
    assert_eq!(state.inner.stack.len(), 1);
}

#[test]
fn stale_filter_result_is_rejected() {
    let items = vec![item("F", "alpha", "1"), item("F", "beta", "2")];
    let cfg = SearchConfig::default();
    let mut state = started(
        vec![spell("quickspell", Some(cfg), Vec::new())],
        items,
    );

    state.set_query("a".to_string());
    let (all, _query, search) = state.current_filter_input().unwrap();
    let result_for_a = compute_filtered(&all, "a", &search);

    // a newer query arrives before the result for "a" lands
    state.set_query("b".to_string());
    let before = state.inner.stack[0].filtered_items.clone();
    let applied = state.apply_filtered("a", result_for_a);
    assert!(!applied);
    assert_eq!(state.inner.stack[0].filtered_items, before);
    assert_eq!(state.inner.stack[0].query, "b");
}

#[test]
fn filter_items_caps_results_at_one_hundred() {
    let mut items = Vec::new();
    for i in 0..500 {
        items.push(item("ITEM", &format!("candidate {i}"), &format!("/x/{i}")));
    }
    let mut state = started(
        vec![spell("quickspell", Some(SearchConfig::default()), Vec::new())],
        items,
    );
    state.set_query("ITEM".to_string());
    assert!(state.filter_items());
    assert_eq!(state.inner.stack[0].filtered_items.len(), 100);
    assert_eq!(state.inner.stack[0].all_items.len(), 500);
    assert!(!state.inner.stack[0].is_filtering);
}

#[test]
fn filter_without_config_returns_all_items() {
    let items = vec![item("F", "alpha", "1"), item("F", "beta", "2")];
    let mut state = started(vec![spell("quickspell", None, Vec::new())], items);
    state.set_query("zzz".to_string());
    assert!(state.filter_items());
    assert_eq!(state.inner.stack[0].filtered_items.len(), 2);
}

#[test]
fn filter_with_config_ranks_and_excludes() {
    let items = vec![item("F", "alpha", "1"), item("F", "beta", "2")];
    let cfg = SearchConfig {
        field: 2,
        ..SearchConfig::default()
    };
    let mut state = started(vec![spell("quickspell", Some(cfg), Vec::new())], items);
    state.set_query("bet".to_string());
    assert!(state.filter_items());
    assert_eq!(state.inner.stack[0].filtered_items.len(), 1);
    assert_eq!(state.inner.stack[0].filtered_items[0].name, "beta");
}

#[test]
fn append_items_respects_staleness() {
    let mut state = started(
        vec![spell("quickspell", None, Vec::new())],
        vec![item("F", "a", "1")],
    );
    let uid = state.inner.stack[0].id;
    assert!(state.is_current_frame(uid));
    state.append_items_for_frame(uid, vec![item("F", "b", "2")]);
    assert_eq!(state.inner.stack[0].all_items.len(), 2);
    assert_eq!(state.inner.stack[0].filtered_items.len(), 2);

    assert!(!state.is_current_frame(uid + 9));
    state.append_items_for_frame(uid + 9, vec![item("F", "c", "3")]);
    assert_eq!(state.inner.stack[0].all_items.len(), 2);
}

#[test]
fn set_error_clears_everything() {
    let mut state = started(
        vec![spell("quickspell", None, Vec::new())],
        vec![item("F", "a", "1")],
    );
    state.set_error();
    assert_eq!(state.inner.status, AppStatus::Error);
    assert_eq!(state.inner.stack.len(), 0);
    assert_eq!(state.inner.spells.len(), 0);
}

#[test]
fn push_spell_frame_validates_target() {
    let mut state = started(
        vec![spell("quickspell", None, Vec::new())],
        vec![item("F", "a", "1")],
    );
    let err = state.push_spell_frame("missing").unwrap_err();
    assert_eq!(err, "spell missing not found");
    assert_eq!(state.inner.stack.len(), 1);
    assert_eq!(state.inner.status, AppStatus::Ready);
}

#[test]
fn push_spell_frame_allocates_fresh_ids() {
    let spells = vec![
        spell("quickspell", None, Vec::new()),
        spell("files", None, Vec::new()),
    ];
    let mut state = started(spells, Vec::new());
    let first_id = state.inner.stack[0].id;
    state.push_spell_frame("files").unwrap();
    assert_eq!(state.inner.status, AppStatus::Loading);
    assert_eq!(state.inner.stack.len(), 2);
    assert!(state.inner.stack[1].id > first_id);
    assert_eq!(state.inner.stack[1].spell_id, "files");
    assert_eq!(state.inner.stack[1].query, "");
}

#[test]
fn get_current_spell_follows_the_top_frame() {
    let spells = vec![
        spell("quickspell", None, Vec::new()),
        spell("files", Some(SearchConfig::default()), Vec::new()),
    ];
    let mut state = started(spells, Vec::new());
    assert_eq!(state.get_current_spell().unwrap().id, "quickspell");
    state.push_spell_frame("files").unwrap();
    let cur = state.get_current_spell().unwrap();
    assert_eq!(cur.id, "files");
    assert!(cur.search.is_some());
}

#[test]
fn snapshot_reflects_the_top_frame() {
    let spells = vec![
        spell("quickspell", None, Vec::new()),
        spell("files", None, Vec::new()),
    ];
    let mut state = started(spells, vec![item("F", "a", "1"), item("F", "b", "2")]);
    state.push_spell_frame("files").unwrap();
    let uid = state.inner.stack[1].id;
    state.finish_loading_with_items(
        vec![item("G", "x", "7"), item("G", "y", "8"), item("G", "z", "9")],
        uid,
    );
    state.set_selection_delta(2);

    let snap = state.snapshot();
    assert_eq!(snap.status, AppStatus::Ready);
    assert_eq!(snap.no_of_spells, 2);
    assert_eq!(snap.spell_names, vec!["Spell quickspell", "Spell files"]);
    assert_eq!(snap.top_items.len(), 3);
    assert_eq!(snap.total_items, 3);
    assert_eq!(snap.selected_index, 2);
    assert_eq!(snap.selected_item.unwrap().name, "z");
    assert!(!snap.is_filtering);
}

#[test]
fn snapshot_of_empty_state_uses_defaults() {
    let state = AppState::new();
    let snap = state.snapshot();
    assert_eq!(snap.status, AppStatus::NotStarted);
    assert_eq!(snap.no_of_spells, 0);
    assert_eq!(snap.spell_names.len(), 0);
    assert_eq!(snap.top_items.len(), 0);
    assert_eq!(snap.total_items, 0);
    assert_eq!(snap.query, "");
    assert_eq!(snap.selected_index, 0);
    assert!(snap.selected_item.is_none());
}

#[test]
fn snapshot_shows_at_most_one_hundred_items() {
    let mut items = Vec::new();
    for i in 0..150 {
        items.push(item("F", &format!("n{i}"), &format!("/d/{i}")));
    }
    let state = started(vec![spell("quickspell", None, Vec::new())], items);
    let snap = state.snapshot();
    assert_eq!(snap.top_items.len(), 100);
    assert_eq!(snap.total_items, 150);
}

#[test]
fn escape_on_empty_state_is_a_noop() {
    let mut state = AppState::new();
    assert_eq!(state.handle_escape(), EscapeResult::Noop);
    assert_eq!(state.inner.stack.len(), 0);
}

#[test]
fn snapshot_names_fall_back_to_spell_id() {
    let mut state = AppState::new();
    // the starting frame's id has no loaded definition behind it
    state
        .begin_loading_with_spells(vec![spell("other", None, Vec::new())])
        .unwrap();
    let snap = state.snapshot();
    assert_eq!(snap.spell_names, vec!["quickspell"]);
}
