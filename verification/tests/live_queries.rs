use rusqlite::Connection;
use zotero_local::errors::StoreError;
use zotero_local::queries::{
    companion_or_absent, get_annotations, get_citation_key, get_item, open_companion_connection,
    open_zotero_connection, resolve_annotation_scope, search_items,
};
use zotero_local::rows::Creator;

fn zotero_db() -> Connection {
    let conn = Connection::open_in_memory().unwrap();
    conn.execute_batch(
        "CREATE TABLE items (itemID INTEGER PRIMARY KEY, key TEXT, itemTypeID INTEGER, libraryID INTEGER);
         CREATE TABLE itemTypes (itemTypeID INTEGER PRIMARY KEY, typeName TEXT);
         CREATE TABLE fields (fieldID INTEGER PRIMARY KEY, fieldName TEXT);
         CREATE TABLE itemDataValues (valueID INTEGER PRIMARY KEY, value);
         CREATE TABLE itemData (itemID INTEGER, fieldID INTEGER, valueID INTEGER);
         CREATE TABLE creators (creatorID INTEGER PRIMARY KEY, firstName TEXT, lastName TEXT, fieldMode INTEGER);
         CREATE TABLE itemCreators (itemID INTEGER, creatorID INTEGER, orderIndex INTEGER);
         CREATE TABLE deletedItems (itemID INTEGER);
         CREATE TABLE itemAttachments (itemID INTEGER, parentItemID INTEGER);
         CREATE TABLE itemAnnotations (itemID INTEGER, parentItemID INTEGER, type INTEGER,
             color TEXT, text TEXT, comment TEXT, pageLabel TEXT, sortIndex TEXT);
         CREATE TABLE libraries (libraryID INTEGER PRIMARY KEY, type TEXT);
         CREATE TABLE groups (groupID INTEGER, libraryID INTEGER);
         INSERT INTO itemTypes VALUES (1, 'book'), (2, 'attachment'), (3, 'note'), (4, 'annotation');
         INSERT INTO fields VALUES (1, 'title'), (2, 'date'), (3, 'publisher');
         INSERT INTO libraries VALUES (1, 'user'), (2, 'group');
         INSERT INTO groups VALUES (77, 2);",
    )
    .unwrap();
    conn
}

fn add_item(conn: &Connection, id: i64, key: &str, type_id: i64, library: i64) {
    conn.execute(
        "INSERT INTO items VALUES (?1, ?2, ?3, ?4)",
        (id, key, type_id, library),
    )
    .unwrap();
}

fn add_field(conn: &Connection, item: i64, field: i64, value_id: i64, value: &str) {
    conn.execute("INSERT INTO itemDataValues VALUES (?1, ?2)", (value_id, value))
        .unwrap();
    conn.execute(
        "INSERT INTO itemData VALUES (?1, ?2, ?3)",
        (item, field, value_id),
    )
    .unwrap();
}

#[test]
fn search_returns_ordered_summaries() {
    let conn = zotero_db();
    add_item(&conn, 1, "KB", 1, 1);
    add_field(&conn, 1, 1, 1, "beta title");
    add_field(&conn, 1, 2, 2, "2019-07-01");
    add_item(&conn, 2, "KA", 1, 1);
    add_field(&conn, 2, 1, 3, "Alpha title");
    conn.execute(
        "INSERT INTO creators VALUES (1, 'Jane', 'Smith', 0)",
        (),
    )
    .unwrap();
    conn.execute("INSERT INTO itemCreators VALUES (2, 1, 0)", ())
        .unwrap();
    let out = search_items(&conn, "").unwrap();
    let keys: Vec<&str> = out.iter().map(|s| s.key.as_str()).collect();
    assert_eq!(keys, vec!["KA", "KB"]);
    assert_eq!(out[0].creators, "Smith, Jane");
    assert_eq!(out[1].year, "2019");
}

#[test]
fn search_excludes_deleted_and_non_catalog_items() {
    let conn = zotero_db();
    add_item(&conn, 1, "LIVE", 1, 1);
    add_field(&conn, 1, 1, 1, "kept");
    add_item(&conn, 2, "DEAD", 1, 1);
    add_field(&conn, 2, 1, 2, "kept too");
    conn.execute("INSERT INTO deletedItems VALUES (2)", ()).unwrap();
    add_item(&conn, 3, "NOTE", 3, 1);
    let out = search_items(&conn, "").unwrap();
    let keys: Vec<&str> = out.iter().map(|s| s.key.as_str()).collect();
    assert_eq!(keys, vec!["LIVE"]);
}

#[test]
fn search_filters_by_term() {
    let conn = zotero_db();
    add_item(&conn, 1, "K1", 1, 1);
    add_field(&conn, 1, 1, 1, "Deep Learning");
    add_item(&conn, 2, "K2", 1, 1);
    add_field(&conn, 2, 1, 2, "Cooking at Home");
    let out = search_items(&conn, "  learn  ").unwrap();
    assert_eq!(out.len(), 1);
    assert_eq!(out[0].key, "K1");
}

#[test]
fn get_item_collects_fields_and_creators() {
    let conn = zotero_db();
    add_item(&conn, 1, "KX", 1, 1);
    add_field(&conn, 1, 1, 1, "A Title");
    add_field(&conn, 1, 3, 2, "A House");
    conn.execute_batch(
        "INSERT INTO creators VALUES (1, 'Jane', 'Smith', 0);
         INSERT INTO creators VALUES (2, '', 'Acme Corp', 1);
         INSERT INTO itemCreators VALUES (1, 2, 1);
         INSERT INTO itemCreators VALUES (1, 1, 0);",
    )
    .unwrap();
    let d = get_item(&conn, "KX").unwrap();
    assert_eq!(d.key, "KX");
    assert_eq!(d.item_type, "book");
    let mut fields = d.fields.clone();
    fields.sort();
    assert_eq!(
        fields,
        vec![
            ("publisher".to_string(), "A House".to_string()),
            ("title".to_string(), "A Title".to_string()),
        ]
    );
    assert_eq!(d.creators.len(), 2);
    match &d.creators[0] {
        Creator::Personal { first_name, last_name } => {
            assert_eq!(first_name, "Jane");
            assert_eq!(last_name, "Smith");
        }
        _ => panic!("expected a personal creator first"),
    }
    match &d.creators[1] {
        Creator::Org { name } => assert_eq!(name, "Acme Corp"),
        _ => panic!("expected an organizational creator second"),
    }
}

#[test]
fn get_item_absent_or_deleted_is_not_found() {
    let conn = zotero_db();
    add_item(&conn, 1, "GONE", 1, 1);
    conn.execute("INSERT INTO deletedItems VALUES (1)", ()).unwrap();
    assert!(matches!(
        get_item(&conn, "NOPE"),
        Err(StoreError::NotFound(_))
    ));
    assert!(matches!(
        get_item(&conn, "GONE"),
        Err(StoreError::NotFound(_))
    ));
}

#[test]
fn annotations_traverse_attachments_in_order() {
    let conn = zotero_db();
    add_item(&conn, 1, "PARENT", 1, 1);
    add_item(&conn, 2, "ATT1", 2, 1);
    add_item(&conn, 3, "ATT2", 2, 1);
    conn.execute_batch(
        "INSERT INTO itemAttachments VALUES (2, 1);
         INSERT INTO itemAttachments VALUES (3, 1);",
    )
    .unwrap();
    add_item(&conn, 4, "AN1", 4, 1);
    add_item(&conn, 5, "AN2", 4, 1);
    add_item(&conn, 6, "AN3", 4, 1);
    add_item(&conn, 7, "ANDEAD", 4, 1);
    conn.execute_batch(
        "INSERT INTO itemAnnotations VALUES (6, 3, 3, '#FF0000', 't3', 'c3', '3', '00001');
         INSERT INTO itemAnnotations VALUES (5, 2, 1, ' #FFD400 ', ' t2 ', 'c2', '2', '00005');
         INSERT INTO itemAnnotations VALUES (4, 2, 1, '#AAA', 't1', 'c1', '1', '00002');
         INSERT INTO itemAnnotations VALUES (7, 2, 1, '#BBB', 'gone', 'cg', '9', '00000');
         INSERT INTO deletedItems VALUES (7);",
    )
    .unwrap();
    let out = get_annotations(&conn, "PARENT").unwrap();
    let keys: Vec<&str> = out.iter().map(|a| a.key.as_str()).collect();
    assert_eq!(keys, vec!["AN1", "AN2", "AN3"]);
    assert_eq!(out[0].attachment_key, "ATT1");
    assert_eq!(out[2].attachment_key, "ATT2");
    assert_eq!(out[1].color_hex, "#ffd400");
    assert_eq!(out[1].text, "t2");
    for (i, a) in out.iter().enumerate() {
        assert_eq!(a.sort_index, i);
    }
    assert!(out[2].is_image_selection);
    assert!(!out[0].is_image_selection);
}

fn companion_db() -> Connection {
    let conn = Connection::open_in_memory().unwrap();
    conn.execute_batch(
        "CREATE TABLE citationkey (itemKey TEXT, citationKey TEXT);
         INSERT INTO citationkey VALUES ('K1', ' smith2020 ');
         INSERT INTO citationkey VALUES ('K2', '   ');",
    )
    .unwrap();
    conn
}

#[test]
fn citation_key_is_trimmed() {
    let conn = companion_db();
    assert_eq!(
        get_citation_key(Some(&conn), "K1").unwrap(),
        Some("smith2020".to_string())
    );
}

#[test]
fn citation_key_blank_or_missing_is_none() {
    let conn = companion_db();
    assert_eq!(get_citation_key(Some(&conn), "K2").unwrap(), None);
    assert_eq!(get_citation_key(Some(&conn), "K9").unwrap(), None);
}

#[test]
fn citation_key_without_companion_is_none_not_error() {
    assert_eq!(get_citation_key(None, "K1").unwrap(), None);
}

#[test]
fn citation_key_with_unopenable_companion_is_none_not_error() {
    let opened = open_companion_connection("/no/such/dir/better-bibtex.sqlite");
    let conn = companion_or_absent(opened);
    assert!(conn.is_none());
    assert_eq!(get_citation_key(conn.as_ref(), "K1").unwrap(), None);
}

#[test]
fn open_errors_carry_the_resolved_path() {
    match open_zotero_connection("/no/such/dir/zotero.sqlite") {
        Err(StoreError::DatabaseUnavailable(m)) => {
            assert!(m.starts_with("failed to open Zotero database /no/such/dir/zotero.sqlite: "));
        }
        _ => panic!("expected a database error"),
    }
}

#[test]
fn annotation_scope_resolves_library_and_group() {
    let conn = zotero_db();
    add_item(&conn, 1, "PERSONAL", 4, 1);
    add_item(&conn, 2, "GROUPED", 4, 2);
    let (kind, group) = resolve_annotation_scope(&conn, "PERSONAL").unwrap();
    assert_eq!(kind, "user");
    assert_eq!(group, None);
    let (kind, group) = resolve_annotation_scope(&conn, "GROUPED").unwrap();
    assert_eq!(kind, "group");
    assert_eq!(group, Some(77));
    assert!(matches!(
        resolve_annotation_scope(&conn, "ABSENT"),
        Err(StoreError::NotFound(_))
    ));
}

#[test]
fn opening_a_missing_database_fails() {
    let r = open_zotero_connection("/no/such/dir/zotero.sqlite");
    assert!(matches!(r, Err(StoreError::DatabaseUnavailable(_))));
}
