use quickspell::actions::{condition_passes, resolve_action, ActionPlan};
use quickspell::{Action, AppState, Counter, Frame, Item};

fn item(kind: &str, name: &str, data: &str) -> Item {
    Item {
        item_type: kind.to_string(),
        name: name.to_string(),
        data: data.to_string(),
    }
}

fn frame_with(spell_id: &str, items: Vec<Item>, selected_idx: usize) -> Frame {
    Frame {
        id: 0,
        spell_id: spell_id.to_string(),
        query: String::new(),
        all_items: items.clone(),
        filtered_items: items,
        is_filtering: false,
        selected_idx,
    }
}

fn cmd(name: Option<&str>, condition: Option<&str>, cmd: &str) -> Action {
    Action::Cmd {
        name: name.map(|s| s.to_string()),
        condition: condition.map(|s| s.to_string()),
        cmd: cmd.to_string(),
    }
}

#[test]
fn item_round_trip() {
    let parsed = Item::from_line("FILE\tnotes.txt\t/x/notes.txt").unwrap();
    assert_eq!(parsed.item_type, "FILE");
    assert_eq!(parsed.name, "notes.txt");
    assert_eq!(parsed.data, "/x/notes.txt");
    assert_eq!(parsed.raw(), "FILE\tnotes.txt\t/x/notes.txt");
}

#[test]
fn from_line_needs_three_fields() {
    assert!(Item::from_line("FILE\tonly-two").is_none());
    assert!(Item::from_line("no-tabs-at-all").is_none());
    let trailing = Item::from_line("A\tB\t").unwrap();
    assert_eq!(trailing.data, "");
    let extra = Item::from_line("A\tB\tC\tD").unwrap();
    assert_eq!(extra.data, "C");
}

#[test]
fn parse_item_line_skips_blank_lines() {
    assert!(quickspell::item::parse_item_line("   ").is_none());
    assert!(quickspell::item::parse_item_line("").is_none());
    assert!(quickspell::item::parse_item_line("A\tB\tC").is_some());
    assert!(quickspell::item::parse_item_line("garbage line").is_none());
}

#[test]
fn field_indexing_falls_back_to_name() {
    let it = item("FILE", "name", "/data");
    assert_eq!(it.field(0), "FILE");
    assert_eq!(it.field(1), "name");
    assert_eq!(it.field(2), "/data");
    assert_eq!(it.field(9), "name");
}

#[test]
fn conditions_read_boolean_spellings() {
    let frames: Vec<Frame> = Vec::new();
    for (text, want) in [
        ("true", true),
        ("YES", true),
        ("y", true),
        ("1", true),
        ("false", false),
        ("No", false),
        ("n", false),
        ("0", false),
        ("something else", true),
        ("   ", true),
    ] {
        assert_eq!(
            condition_passes(Some(text), &frames).unwrap(),
            want,
            "condition text {text:?}"
        );
    }
}

#[test]
fn conditions_compare_with_quotes_stripped() {
    let frames = vec![frame_with(
        "quickspell",
        vec![item("APP", "[A] Notes", "/Applications/Notes.app")],
        0,
    )];
    let passes = condition_passes(
        Some("{{context.quickspell.selection.type}} == 'APP'"),
        &frames,
    )
    .unwrap();
    assert!(passes);

    let fails = condition_passes(
        Some("{{context.quickspell.selection.type}} == 'FILE'"),
        &frames,
    )
    .unwrap();
    assert!(!fails);

    let negated = condition_passes(
        Some("{{context.quickspell.selection.type}} != \"FILE\""),
        &frames,
    )
    .unwrap();
    assert!(negated);
}

#[test]
fn condition_render_failure_aborts_invocation() {
    let frames: Vec<Frame> = Vec::new();
    let actions = vec![cmd(None, Some("{{#if}}"), "echo hi")];
    let err = resolve_action(&actions, "MAIN", &frames).unwrap_err();
    assert!(!err.is_empty());
}

#[test]
fn first_passing_action_wins() {
    let frames: Vec<Frame> = Vec::new();
    let actions = vec![
        cmd(Some("open"), Some("false"), "echo first"),
        cmd(Some("open"), None, "echo second"),
        cmd(Some("open"), None, "echo third"),
    ];
    match resolve_action(&actions, "open", &frames).unwrap() {
        ActionPlan::RunCmd { program, args } => {
            assert_eq!(program, "echo");
            assert_eq!(args, vec!["second"]);
        }
        other => panic!("expected a command plan, got {other:?}"),
    }
}

#[test]
fn unnamed_actions_answer_to_the_main_label() {
    let frames: Vec<Frame> = Vec::new();
    let actions = vec![cmd(None, None, "open .")];
    assert!(resolve_action(&actions, "MAIN", &frames).is_ok());
    let err = resolve_action(&actions, "other", &frames).unwrap_err();
    assert_eq!(err, "no matching action for label other");
}

#[test]
fn command_tokenization_respects_quotes() {
    let frames = vec![frame_with(
        "files",
        vec![item("FILE", "notes", "/home/me/my notes.txt")],
        0,
    )];
    let actions = vec![cmd(
        None,
        None,
        "open \"{{context.files.selection.data}}\" --flag",
    )];
    match resolve_action(&actions, "MAIN", &frames).unwrap() {
        ActionPlan::RunCmd { program, args } => {
            assert_eq!(program, "open");
            assert_eq!(args, vec!["/home/me/my notes.txt", "--flag"]);
        }
        other => panic!("expected a command plan, got {other:?}"),
    }
}

#[test]
fn unclosed_quote_is_a_parse_error() {
    let frames: Vec<Frame> = Vec::new();
    let actions = vec![cmd(None, None, "echo \"unclosed")];
    let err = resolve_action(&actions, "MAIN", &frames).unwrap_err();
    assert_eq!(err, "failed to parse action command: missing closing quote");
}

#[test]
fn empty_rendered_command_is_an_error() {
    let frames: Vec<Frame> = Vec::new();
    let actions = vec![cmd(None, None, "   ")];
    let err = resolve_action(&actions, "MAIN", &frames).unwrap_err();
    assert_eq!(err, "resolved command is empty");
}

#[test]
fn push_spell_plan_carries_the_trimmed_target_id() {
    let frames = vec![frame_with(
        "quickspell",
        vec![item("SPELL", "Files", "search_files")],
        0,
    )];
    let actions = vec![Action::Spell {
        name: None,
        condition: None,
        spell: " {{context.quickspell.selection.data}} ".to_string(),
    }];
    match resolve_action(&actions, "MAIN", &frames).unwrap() {
        ActionPlan::PushSpell { spell_id } => assert_eq!(spell_id, "search_files"),
        other => panic!("expected a push plan, got {other:?}"),
    }
}

#[test]
fn empty_rendered_spell_id_is_an_error() {
    let frames: Vec<Frame> = Vec::new();
    let actions = vec![Action::Spell {
        name: None,
        condition: None,
        spell: "  ".to_string(),
    }];
    let err = resolve_action(&actions, "MAIN", &frames).unwrap_err();
    assert_eq!(err, "resolved spell id is empty");
}

#[test]
fn plan_action_needs_an_active_spell() {
    let state = AppState::new();
    let err = state.plan_action("MAIN").unwrap_err();
    assert_eq!(err, "no active spell");
}

#[test]
fn counter_steps_and_resets() {
    let mut c = Counter::default();
    assert_eq!(c.get(), 0);
    assert_eq!(c.increment(), 1);
    assert_eq!(c.increment(), 2);
    assert_eq!(c.decrement(), 1);
    assert_eq!(c.reset(), 0);
    assert_eq!(c.get(), 0);
}
