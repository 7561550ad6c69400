//! The four read operations and the scope lookup, each against an
//! open connection: the fixed statement is issued through the trusted
//! boundary, and everything decided about the raw rows — filtering,
//! ordering, defaulting, shaping — is done by the verified pipelines.
//! Rows come from a database another application owns, so each
//! operation's contract states what holds of every possible result.
use vstd::prelude::*;

use crate::annotations::{annotations_from_rows, spec_annotation_of, spec_annotation_order};
use crate::citation::{citation_key_from_stored, spec_citation_norm};
use crate::db;
use crate::detail::{detail_from_parts, head_from_rows, spec_detail_shape};
use crate::errors::{database_error, not_found_error, open_error, spec_carries_path, StoreError};
use crate::paths::sqlite_file_uri;
use crate::rows::{Annotation, AnnotationRow, ItemDetail, ItemRow, ItemSummary};
use crate::search::{search_summaries, spec_search_order, spec_summary_of, SEARCH_LIMIT};
use crate::text::spec_trim;

verus! {

fn search_sql() -> &'static str {
    "WITH title_data AS (
        SELECT d.itemID AS itemID, CAST(v.value AS TEXT) AS value
        FROM itemData d
        JOIN fields f ON f.fieldID = d.fieldID
        JOIN itemDataValues v ON v.valueID = d.valueID
        WHERE f.fieldName = 'title'
    ),
    date_data AS (
        SELECT d.itemID AS itemID, CAST(v.value AS TEXT) AS value
        FROM itemData d
        JOIN fields f ON f.fieldID = d.fieldID
        JOIN itemDataValues v ON v.valueID = d.valueID
        WHERE f.fieldName = 'date'
    ),
    creator_data AS (
        SELECT
            ic.itemID AS itemID,
            GROUP_CONCAT(
                CASE
                    WHEN c.fieldMode = 1 THEN COALESCE(c.lastName, '')
                    ELSE TRIM(
                        COALESCE(c.lastName, '') ||
                        CASE WHEN COALESCE(c.firstName, '') <> '' THEN ', ' || c.firstName ELSE '' END
                    )
                END,
                '; '
            ) AS value
        FROM itemCreators ic
        JOIN creators c ON c.creatorID = ic.creatorID
        GROUP BY ic.itemID
    )
    SELECT
        i.key,
        title_data.value,
        creator_data.value,
        date_data.value,
        it.typeName,
        EXISTS(SELECT 1 FROM deletedItems di WHERE di.itemID = i.itemID)
    FROM items i
    JOIN itemTypes it ON it.itemTypeID = i.itemTypeID
    LEFT JOIN title_data ON title_data.itemID = i.itemID
    LEFT JOIN date_data ON date_data.itemID = i.itemID
    LEFT JOIN creator_data ON creator_data.itemID = i.itemID"
}

fn head_sql() -> &'static str {
    "SELECT i.itemID, i.key, it.typeName,
        EXISTS(SELECT 1 FROM deletedItems di WHERE di.itemID = i.itemID)
    FROM items i
    JOIN itemTypes it ON it.itemTypeID = i.itemTypeID
    WHERE i.key = ?1"
}

fn field_sql() -> &'static str {
    "SELECT f.fieldName, CAST(v.value AS TEXT)
    FROM itemData d
    JOIN fields f ON f.fieldID = d.fieldID
    JOIN itemDataValues v ON v.valueID = d.valueID
    WHERE d.itemID = ?1"
}

fn creator_sql() -> &'static str {
    "SELECT c.firstName, c.lastName, c.fieldMode
    FROM itemCreators ic
    JOIN creators c ON c.creatorID = ic.creatorID
    WHERE ic.itemID = ?1
    ORDER BY ic.orderIndex ASC"
}

fn citation_sql() -> &'static str {
    "SELECT citationKey FROM citationkey WHERE itemKey = ?1 LIMIT 1"
}

fn annotation_sql() -> &'static str {
    "SELECT
        att.itemID,
        CAST(COALESCE(ia.sortIndex, '') AS TEXT),
        anno.itemID,
        anno.key,
        att.key,
        COALESCE(ia.color, ''),
        COALESCE(ia.text, ''),
        COALESCE(ia.comment, ''),
        COALESCE(ia.pageLabel, ''),
        ia.type,
        EXISTS(SELECT 1 FROM deletedItems di WHERE di.itemID = anno.itemID)
    FROM items root
    JOIN itemAttachments iatt ON iatt.parentItemID = root.itemID
    JOIN items att ON att.itemID = iatt.itemID
    JOIN itemAnnotations ia ON ia.parentItemID = att.itemID
    JOIN items anno ON anno.itemID = ia.itemID
    WHERE root.key = ?1"
}

fn scope_sql() -> &'static str {
    "SELECT l.type, g.groupID
    FROM items i
    JOIN libraries l ON l.libraryID = i.libraryID
    LEFT JOIN groups g ON g.libraryID = l.libraryID
    WHERE i.key = ?1
    LIMIT 1"
}

/// Opens the primary database at the given path, read-only through
/// its immutable-mode URI; a failure's message carries the resolved
/// path and the underlying report.
pub fn open_zotero_connection(path: &str) -> (r: Result<rusqlite::Connection, StoreError>)
    ensures
        r matches Err(e) ==> (e matches StoreError::DatabaseUnavailable(m) && spec_carries_path(
            m@,
            "failed to open Zotero database "@,
            path@,
        )),
{
    let uri = sqlite_file_uri(path);
    match db::open_readonly_uri(uri.as_str()) {
        Ok(c) => Ok(c),
        Err(m) => Err(open_error("failed to open Zotero database ", path, &m)),
    }
}

/// Opens the companion database at the given path, read-only through
/// its immutable-mode URI; a failure's message carries the resolved
/// path and the underlying report.
pub fn open_companion_connection(path: &str) -> (r: Result<rusqlite::Connection, StoreError>)
    ensures
        r matches Err(e) ==> (e matches StoreError::DatabaseUnavailable(m) && spec_carries_path(
            m@,
            "failed to open Better BibTeX database "@,
            path@,
        )),
{
    let uri = sqlite_file_uri(path);
    match db::open_readonly_uri(uri.as_str()) {
        Ok(c) => Ok(c),
        Err(m) => Err(open_error("failed to open Better BibTeX database ", path, &m)),
    }
}

/// The companion connection the citation-key lookup works with: a
/// companion that failed to open is handled like an absent one —
/// citation keys are an enhancement, so the failure is downgraded
/// here, in one audited place, never surfaced as an error.
pub fn companion_or_absent(opened: Result<rusqlite::Connection, StoreError>) -> (r: Option<
    rusqlite::Connection,
>)
    ensures
        opened matches Err(_) ==> r is None,
        opened matches Ok(_) ==> r is Some,
{
    match opened {
        Ok(c) => Some(c),
        Err(_) => None,
    }
}

/// Item search. Whatever rows the statement answered with, the result
/// is their verified search pipeline: eligible rows the trimmed term
/// matches, in case-insensitive title order, at most one page.
pub fn search_items(conn: &rusqlite::Connection, query: &str) -> (r: Result<
    Vec<ItemSummary>,
    StoreError,
>)
    ensures
        r matches Err(e) ==> e matches StoreError::DatabaseUnavailable(_),
        r matches Ok(v) ==> v@.len() <= SEARCH_LIMIT,
        r matches Ok(v) ==> exists|rows: Seq<ItemRow>|
            {
                &&& v@.len() == #[trigger] spec_search_order(rows, query@).len()
                &&& forall|i: int|
                    0 <= i < v@.len() ==> spec_summary_of(
                        #[trigger] v@[i],
                        spec_search_order(rows, query@)[i],
                    )
            },
{
    match db::query_item_rows(conn, search_sql()) {
        Err(m) => Err(database_error("failed to execute Zotero search query: ", &m)),
        Ok(rows) => {
            let ghost rs = rows@;
            let out = search_summaries(rows, query);
            proof {
                crate::search::lemma_search_len(rs, query@);
                assert(out@.len() == spec_search_order(rs, query@).len());
            }
            Ok(out)
        },
    }
}

/// A detail assembled, field for field and creator for creator, from
/// some raw parts as `spec_detail_shape` demands.
pub open spec fn spec_detail_witnessed(d: ItemDetail) -> bool {
    exists|fields: Seq<(String, Option<String>)>, creators: Seq<(Option<String>, Option<String>, i64)>|
        #[trigger] spec_detail_shape(d, fields, creators)
}

/// Item detail for one key. The picked head row is the first
/// non-deleted row the statement answered with for the key; `None`
/// there is the item's absence. The assembled detail holds every
/// stored field and creator of that row's item, in stored order.
pub fn get_item(conn: &rusqlite::Connection, item_key: &str) -> (r: Result<ItemDetail, StoreError>)
    ensures
        r matches Err(e) ==> (e matches StoreError::NotFound(_)
            || e matches StoreError::DatabaseUnavailable(_)),
        r matches Ok(d) ==> spec_detail_witnessed(d),
{
    let heads = match db::query_head_rows(conn, head_sql(), item_key) {
        Err(m) => {
            return Err(database_error("failed to load Zotero item: ", &m));
        },
        Ok(h) => h,
    };
    let head = match head_from_rows(&heads) {
        Some(h) => h,
        None => {
            return Err(not_found_error("failed to load Zotero item: no such item ", item_key, ""));
        },
    };
    let (item_id, key, kind) = head;
    let fields = match db::query_field_rows(conn, field_sql(), item_id) {
        Err(m) => {
            return Err(database_error("failed to execute Zotero field query: ", &m));
        },
        Ok(f) => f,
    };
    let creators = match db::query_creator_rows(conn, creator_sql(), item_id) {
        Err(m) => {
            return Err(database_error("failed to execute Zotero creator query: ", &m));
        },
        Ok(c) => c,
    };
    let ghost gf = fields@;
    let ghost gc = creators@;
    let d = detail_from_parts(key, kind, fields, creators);
    proof {
        assert(spec_detail_shape(d, gf, gc));
    }
    Ok(d)
}

/// Citation-key lookup. No companion connection — however its absence
/// came about — yields `Ok(None)`, never an error; a found value is
/// handed back trimmed, and a blank one becomes `None`.
pub fn get_citation_key(conn: Option<&rusqlite::Connection>, item_key: &str) -> (r: Result<
    Option<String>,
    StoreError,
>)
    ensures
        conn is None ==> (r matches Ok(v) && v is None),
        r matches Ok(Some(s)) ==> s@.len() > 0 && (exists|raw: Seq<char>|
            #[trigger] spec_citation_norm(Some(raw)) == Some(s@)),
        r matches Err(e) ==> e matches StoreError::DatabaseUnavailable(_),
{
    match conn {
        None => Ok(None),
        Some(c) => {
            match db::query_citation_row(c, citation_sql(), item_key) {
                Err(m) => Err(
                    database_error("failed to read Better BibTeX citation key: ", &m),
                ),
                Ok(stored) => {
                    let ghost gs = stored;
                    let norm = citation_key_from_stored(stored);
                    proof {
                        let gn = norm;
                        match gn {
                            Some(s) => {
                                let raw = gs->Some_0@;
                                assert(spec_citation_norm(Some(raw)) == Some(s@));
                            },
                            None => {},
                        }
                    }
                    Ok(norm)
                },
            }
        },
    }
}

/// Annotation retrieval for one parent item. Whatever rows the
/// traversal statement answered with, the result is their verified
/// pipeline: live annotations in reading order, positions dense from
/// zero.
pub fn get_annotations(conn: &rusqlite::Connection, item_key: &str) -> (r: Result<
    Vec<Annotation>,
    StoreError,
>)
    ensures
        r matches Err(e) ==> e matches StoreError::DatabaseUnavailable(_),
        r matches Ok(v) ==> forall|i: int| 0 <= i < v@.len() ==> (#[trigger] v@[i]).sort_index == i,
        r matches Ok(v) ==> exists|rows: Seq<AnnotationRow>|
            {
                &&& v@.len() == #[trigger] spec_annotation_order(rows).len()
                &&& forall|i: int|
                    0 <= i < v@.len() ==> spec_annotation_of(
                        #[trigger] v@[i],
                        spec_annotation_order(rows)[i],
                        i,
                    )
            },
{
    match db::query_annotation_rows(conn, annotation_sql(), item_key) {
        Err(m) => Err(database_error("failed to execute Zotero annotation query: ", &m)),
        Ok(rows) => {
            let ghost rs = rows@;
            let out = annotations_from_rows(rows);
            proof {
                assert(out@.len() == spec_annotation_order(rs).len());
            }
            Ok(out)
        },
    }
}

/// The owning library scope of one annotation: the library type and,
/// when the library backs a group, the group id. A missing row is the
/// annotation's absence.
pub fn resolve_annotation_scope(conn: &rusqlite::Connection, annotation_key: &str) -> (r: Result<
    (String, Option<i64>),
    StoreError,
>)
    ensures
        r matches Err(e) ==> (e matches StoreError::NotFound(_)
            || e matches StoreError::DatabaseUnavailable(_)),
{
    match db::query_scope_row(conn, scope_sql(), annotation_key) {
        Err(m) => Err(
            database_error("failed to resolve annotation library for cached image: ", &m),
        ),
        Ok(None) => Err(
            not_found_error("no annotation ", annotation_key, " in the Zotero database."),
        ),
        Ok(Some(t)) => Ok(t),
    }
}

} // verus!
