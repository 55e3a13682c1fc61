use quickspell::search::filter_items;
use quickspell::{Item, SearchConfig, SearchMode, SearchScheme};

fn item(kind: &str, name: &str, data: &str) -> Item {
    Item {
        item_type: kind.to_string(),
        name: name.to_string(),
        data: data.to_string(),
    }
}

#[test]
fn empty_query_is_identity() {
    let items = vec![
        item("FILE", "zeta", "/z"),
        item("FILE", "alpha", "/a"),
        item("DIR", "mid", "/m"),
    ];
    let cfg = SearchConfig {
        field: 2,
        scheme: SearchScheme::Path,
        mode: SearchMode::Exact,
    };
    let out = filter_items(&items, "", &cfg);
    assert_eq!(out, items);

    let out2 = filter_items(&items, "", &SearchConfig::default());
    assert_eq!(out2, items);
}

#[test]
fn field_selection_ignores_other_columns() {
    let cfg = SearchConfig {
        field: 3,
        scheme: SearchScheme::Plain,
        mode: SearchMode::Fuzzy,
    };
    let items1 = vec![
        item("FILE", "first", "/tmp/beta"),
        item("FILE", "second", "/tmp/alpha"),
    ];
    let items2 = vec![
        item("DIR", "zz-renamed", "/tmp/beta"),
        item("APP", "yy-other", "/tmp/alpha"),
    ];
    let out1 = filter_items(&items1, "alpha", &cfg);
    let out2 = filter_items(&items2, "alpha", &cfg);
    let data1: Vec<&str> = out1.iter().map(|i| i.data.as_str()).collect();
    let data2: Vec<&str> = out2.iter().map(|i| i.data.as_str()).collect();
    assert_eq!(data1, data2);
    assert_eq!(data1, vec!["/tmp/alpha"]);
}

#[test]
fn path_tie_break_prefers_basename_match() {
    let items = vec![
        item("FILE", "x", "/a/b/repos-old/readme"),
        item("DIR", "repos", "/a/b/repos/"),
    ];
    let cfg = SearchConfig {
        field: 3,
        scheme: SearchScheme::Path,
        mode: SearchMode::Fuzzy,
    };
    let out = filter_items(&items, "repos", &cfg);
    assert_eq!(out.len(), 2);
    assert_eq!(out[0].item_type, "DIR");
    assert_eq!(out[1].item_type, "FILE");
}

#[test]
fn path_equal_scores_fall_back_to_shorter_then_input_order() {
    // all three match "log" in the basename at the same offset with equal
    // scores; the shorter haystack wins, and exact ties keep input order
    let items = vec![
        item("FILE", "a", "/var/log-archive"),
        item("FILE", "b", "/var/logs"),
        item("FILE", "c", "/opt/logs"),
    ];
    let cfg = SearchConfig {
        field: 3,
        scheme: SearchScheme::Path,
        mode: SearchMode::Exact,
    };
    let out = filter_items(&items, "log", &cfg);
    assert_eq!(out.len(), 3);
    assert_eq!(out[0].name, "b");
    assert_eq!(out[1].name, "c");
    assert_eq!(out[2].name, "a");
}

#[test]
fn exact_mode_requires_contiguous_match() {
    let items = vec![
        item("FILE", "scattered", "rxexpxoxs"),
        item("FILE", "contiguous", "xx-REPOS-xx"),
    ];
    let exact = SearchConfig {
        field: 3,
        scheme: SearchScheme::Plain,
        mode: SearchMode::Exact,
    };
    let out = filter_items(&items, "repos", &exact);
    assert_eq!(out.len(), 1);
    assert_eq!(out[0].name, "contiguous");

    let fuzzy = SearchConfig {
        field: 3,
        scheme: SearchScheme::Plain,
        mode: SearchMode::Fuzzy,
    };
    let out2 = filter_items(&items, "repos", &fuzzy);
    assert_eq!(out2.len(), 2);
}

#[test]
fn plain_scheme_ranks_by_score_only() {
    // an earlier match scores higher; a gap costs more than a later start
    let items = vec![
        item("FILE", "late", "xxab"),
        item("FILE", "early", "abxx"),
        item("FILE", "gapped", "axxb"),
    ];
    let cfg = SearchConfig {
        field: 3,
        scheme: SearchScheme::Plain,
        mode: SearchMode::Fuzzy,
    };
    let out = filter_items(&items, "ab", &cfg);
    assert_eq!(out.len(), 3);
    assert_eq!(out[0].name, "early");
    assert_eq!(out[1].name, "late");
    assert_eq!(out[2].name, "gapped");
}

#[test]
fn non_matching_candidates_are_excluded() {
    let items = vec![
        item("FILE", "notes", "/x/notes"),
        item("FILE", "music", "/x/music"),
    ];
    let cfg = SearchConfig {
        field: 2,
        scheme: SearchScheme::Plain,
        mode: SearchMode::Fuzzy,
    };
    let out = filter_items(&items, "notes", &cfg);
    assert_eq!(out.len(), 1);
    assert_eq!(out[0].name, "notes");
}

#[test]
fn matching_is_case_insensitive() {
    let items = vec![item("FILE", "Notes.TXT", "/x")];
    let cfg = SearchConfig {
        field: 2,
        scheme: SearchScheme::Plain,
        mode: SearchMode::Exact,
    };
    let out = filter_items(&items, "nOtEs", &cfg);
    assert_eq!(out.len(), 1);
}

#[test]
fn out_of_range_field_matches_whole_line() {
    let items = vec![item("FILE", "abc", "/x/y")];
    let cfg = SearchConfig {
        field: 9,
        scheme: SearchScheme::Plain,
        mode: SearchMode::Exact,
    };
    // "c\t/" spans the name and data columns of the joined line
    let out = filter_items(&items, "abc\t/x", &cfg);
    assert_eq!(out.len(), 1);
}
