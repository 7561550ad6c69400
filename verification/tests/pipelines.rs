use zotero_local::annotations::annotations_from_rows;
use zotero_local::rows::{annotation_row, item_row, ItemRow};
use zotero_local::search::search_summaries;

fn row(key: &str, title: Option<&str>, creators: Option<&str>, date: Option<&str>, kind: &str, deleted: i64) -> ItemRow {
    item_row(
        key.to_string(),
        title.map(|s| s.to_string()),
        creators.map(|s| s.to_string()),
        date.map(|s| s.to_string()),
        kind.to_string(),
        deleted,
    )
}

#[test]
fn search_orders_case_insensitively() {
    let rows = vec![
        row("K1", Some("beta"), None, None, "book", 0),
        row("K2", Some("Alpha"), None, None, "book", 0),
        row("K3", Some("GAMMA"), None, None, "book", 0),
    ];
    let out = search_summaries(rows, "");
    let titles: Vec<&str> = out.iter().map(|s| s.title.as_str()).collect();
    assert_eq!(titles, vec!["Alpha", "beta", "GAMMA"]);
}

#[test]
fn search_empty_term_keeps_all_eligible() {
    let rows = vec![
        row("K1", Some("one"), None, None, "book", 0),
        row("K2", Some("two"), None, None, "journalArticle", 0),
        row("K3", Some("att"), None, None, "attachment", 0),
        row("K4", Some("note"), None, None, "note", 0),
        row("K5", Some("anno"), None, None, "annotation", 0),
        row("K6", Some("gone"), None, None, "book", 1),
    ];
    let out = search_summaries(rows, "   ");
    let keys: Vec<&str> = out.iter().map(|s| s.key.as_str()).collect();
    assert_eq!(keys, vec!["K1", "K2"]);
}

#[test]
fn search_term_matches_title_creators_or_date() {
    let rows = vec![
        row("K1", Some("Deep Learning"), Some("Goodfellow, Ian"), Some("2016"), "book", 0),
        row("K2", Some("Shallow Ponds"), Some("Smith, Jane"), Some("2019-03"), "book", 0),
        row("K3", Some("Misc"), None, None, "book", 0),
    ];
    assert_eq!(search_summaries(clone_rows(&rows), "LEARN").len(), 1);
    assert_eq!(search_summaries(clone_rows(&rows), "smith").len(), 1);
    assert_eq!(search_summaries(clone_rows(&rows), "2019").len(), 1);
    assert_eq!(search_summaries(clone_rows(&rows), "absent").len(), 0);
}

fn clone_rows(rows: &[ItemRow]) -> Vec<ItemRow> {
    rows.iter()
        .map(|r| ItemRow {
            key: r.key.clone(),
            title: r.title.clone(),
            creators: r.creators.clone(),
            date: r.date.clone(),
            kind_name: r.kind_name.clone(),
            deleted: r.deleted,
        })
        .collect()
}

#[test]
fn search_defaults_missing_columns() {
    let rows = vec![row("K1", None, None, Some("around 2020 or so"), "book", 0)];
    let out = search_summaries(rows, "");
    assert_eq!(out.len(), 1);
    assert_eq!(out[0].title, "");
    assert_eq!(out[0].creators, "");
    assert_eq!(out[0].year, "2020");
}

#[test]
fn search_caps_results_at_limit() {
    let mut rows = Vec::new();
    for i in 0..80 {
        rows.push(row(&format!("K{i}"), Some(&format!("title {i:03}")), None, None, "book", 0));
    }
    let out = search_summaries(rows, "");
    assert_eq!(out.len(), 75);
    assert_eq!(out[0].title, "title 000");
}

fn ann(att: i64, sort: &str, id: i64, key: &str, code: i64, deleted: i64) -> zotero_local::rows::AnnotationRow {
    annotation_row(
        att,
        sort.to_string(),
        id,
        key.to_string(),
        format!("ATT{att}"),
        " #FFD400 ".to_string(),
        "  some text  ".to_string(),
        " a comment ".to_string(),
        " 12 ".to_string(),
        code,
        deleted,
    )
}

#[test]
fn annotations_reading_order_and_positions() {
    let rows = vec![
        ann(2, "00003", 9, "B1", 1, 0),
        ann(1, "00002", 7, "A2", 2, 0),
        ann(2, "00001", 8, "B0", 1, 0),
        ann(1, "00001", 5, "A0", 1, 0),
        ann(1, "00001", 6, "A1", 1, 0),
    ];
    let out = annotations_from_rows(rows);
    let keys: Vec<&str> = out.iter().map(|a| a.key.as_str()).collect();
    assert_eq!(keys, vec!["A0", "A1", "A2", "B0", "B1"]);
    for (i, a) in out.iter().enumerate() {
        assert_eq!(a.sort_index, i);
    }
}

#[test]
fn annotations_rerun_is_identical() {
    let make = || {
        vec![
            ann(2, "00003", 9, "B1", 3, 0),
            ann(1, "00002", 7, "A2", 2, 0),
            ann(1, "00001", 5, "A0", 1, 0),
        ]
    };
    let first = annotations_from_rows(make());
    let second = annotations_from_rows(make());
    assert_eq!(first.len(), second.len());
    for (a, b) in first.iter().zip(second.iter()) {
        assert_eq!(a.key, b.key);
        assert_eq!(a.sort_index, b.sort_index);
        assert_eq!(a.color_hex, b.color_hex);
        assert_eq!(a.is_image_selection, b.is_image_selection);
    }
}

#[test]
fn annotations_trim_and_lowercase() {
    let out = annotations_from_rows(vec![ann(1, "00001", 5, "A0", 1, 0)]);
    assert_eq!(out[0].color_hex, "#ffd400");
    assert_eq!(out[0].text, "some text");
    assert_eq!(out[0].comment, "a comment");
    assert_eq!(out[0].page_label, "12");
    assert_eq!(out[0].attachment_key, "ATT1");
}

#[test]
fn image_selection_iff_code_three() {
    let rows = vec![
        ann(1, "00001", 1, "A1", 1, 0),
        ann(1, "00002", 2, "A2", 2, 0),
        ann(1, "00003", 3, "A3", 3, 0),
        ann(1, "00004", 4, "A4", 4, 0),
    ];
    let out = annotations_from_rows(rows);
    let marks: Vec<bool> = out.iter().map(|a| a.is_image_selection).collect();
    assert_eq!(marks, vec![false, false, true, false]);
}

#[test]
fn annotations_exclude_deleted() {
    let rows = vec![
        ann(1, "00001", 5, "A0", 1, 0),
        ann(1, "00002", 6, "A1", 1, 1),
        ann(1, "00003", 7, "A2", 1, 0),
    ];
    let out = annotations_from_rows(rows);
    let keys: Vec<&str> = out.iter().map(|a| a.key.as_str()).collect();
    assert_eq!(keys, vec!["A0", "A2"]);
    assert_eq!(out[1].sort_index, 1);
}
