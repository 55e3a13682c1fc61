use quickspell::template::resolve_template;
use quickspell::{Frame, Item, TemplateError};

fn frame(spell_id: &str, items: Vec<&str>, selected_idx: usize, query: &str) -> Frame {
    let parsed_items: Vec<Item> = items
        .into_iter()
        .map(|s| Item::from_line(s).expect("failed to parse item"))
        .collect();

    Frame {
        id: 0,
        spell_id: spell_id.to_string(),
        query: query.to_string(),
        all_items: parsed_items.clone(),
        filtered_items: parsed_items,
        is_filtering: false,
        selected_idx,
    }
}

#[test]
fn resolves_basic_field() {
    let frames = vec![frame(
        "search_files",
        vec!["FILE\t[F] notes.txt\t/Users/me/notes.txt"],
        0,
        "notes",
    )];

    let out = resolve_template("{{context.search_files.selection.data}}", &frames).unwrap();
    assert_eq!(out, "/Users/me/notes.txt");
}

#[test]
fn resolves_condition_string() {
    let frames = vec![frame(
        "quickspell",
        vec!["APP\t[A] Notes\t/Applications/Notes.app"],
        0,
        "",
    )];

    let out = resolve_template("{{context.quickspell.selection.type}} == 'APP'", &frames).unwrap();
    assert_eq!(out, "APP == 'APP'");
}

#[test]
fn handles_missing_selection() {
    let frames = vec![frame("search_files", Vec::new(), 0, "")];

    let out = resolve_template("{{context.search_files.selection.data}}", &frames).unwrap();
    assert_eq!(out, "");
}

#[test]
fn resolves_multi_frame_context() {
    let frames = vec![
        frame("quickspell", vec!["SPELL\tQuickspell\tsearch_files"], 0, ""),
        frame(
            "search_files",
            vec!["FILE\t[F] notes.txt\t/Users/me/notes.txt"],
            0,
            "notes",
        ),
    ];

    let out = resolve_template(
        "{{context.quickspell.selection.data}} -> {{context.search_files.selection.data}}",
        &frames,
    )
    .unwrap();

    assert_eq!(out, "search_files -> /Users/me/notes.txt");
}

#[test]
fn resolves_query_and_spell_id() {
    let frames = vec![frame(
        "search_files",
        vec!["FILE\ta.txt\t/x/a.txt"],
        0,
        "abc",
    )];

    let out = resolve_template(
        "{{context.search_files.query}}:{{context.search_files.spellId}}",
        &frames,
    )
    .unwrap();
    assert_eq!(out, "abc:search_files");
}

#[test]
fn resolves_raw_line_of_selection() {
    let frames = vec![frame(
        "search_files",
        vec!["FILE\ta.txt\t/x/a.txt", "DIR\tstuff\t/x/stuff"],
        1,
        "",
    )];

    let out = resolve_template("{{context.search_files.selection.raw}}", &frames).unwrap();
    assert_eq!(out, "DIR\tstuff\t/x/stuff");
}

#[test]
fn malformed_template_reports_render_error() {
    let frames = vec![frame("quickspell", Vec::new(), 0, "")];
    let out = resolve_template("{{#if}}", &frames);
    assert!(matches!(out, Err(TemplateError::Render(_))));
}

#[test]
fn selection_clamps_to_last_item() {
    let frames = vec![frame(
        "search_files",
        vec!["FILE\ta.txt\t/x/a.txt", "FILE\tb.txt\t/x/b.txt"],
        7,
        "",
    )];

    let out = resolve_template("{{context.search_files.selection.label}}", &frames).unwrap();
    assert_eq!(out, "b.txt");
}
