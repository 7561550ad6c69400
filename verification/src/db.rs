//! The trusted boundary to the SQLite driver. Each function here wraps
//! one fixed query shape: it prepares the statement it is handed,
//! binds the given values, and converts the result rows into the plain
//! row types of this crate. Nothing about the rows' contents is
//! assumed — the database file belongs to another application — so the
//! verified callers state what holds of every possible result.
use vstd::prelude::*;

use rusqlite::OptionalExtension;

use crate::rows::{annotation_row, item_row, AnnotationRow, ItemRow};

verus! {

#[verifier::external_type_specification]
#[verifier::external_body]
pub struct ExConnection(rusqlite::Connection);

/// Relies on rusqlite's `Connection::open_with_flags`: opens the
/// database named by the URI strictly read-only, with URI
/// interpretation enabled; any failure is reported as its message.
#[verifier::external_body]
pub(crate) fn open_readonly_uri(uri: &str) -> Result<rusqlite::Connection, String> {
    rusqlite::Connection::open_with_flags(
        uri,
        rusqlite::OpenFlags::SQLITE_OPEN_READ_ONLY | rusqlite::OpenFlags::SQLITE_OPEN_URI,
    )
        .map_err(|e| format!("{e}"))
}

/// Relies on rusqlite's `Statement::query_map`: one `ItemRow` per
/// result row, columns in the order the search statement selects them.
#[verifier::external_body]
pub(crate) fn query_item_rows(conn: &rusqlite::Connection, sql: &str) -> Result<
    Vec<ItemRow>,
    String,
> {
    let mut stmt = conn.prepare(sql).map_err(|e| format!("{e}"))?;
    let rows = stmt.query_map(
        (),
        |w| Ok(item_row(w.get(0)?, w.get(1)?, w.get(2)?, w.get(3)?, w.get(4)?, w.get(5)?)),
    ).map_err(|e| format!("{e}"))?;
    rows.collect::<Result<Vec<ItemRow>, rusqlite::Error>>().map_err(|e| format!("{e}"))
}

/// Relies on rusqlite's `Statement::query_map` with the item key
/// bound: one tuple of internal id, key, type name and deleted marker
/// per matching row.
#[verifier::external_body]
pub(crate) fn query_head_rows(conn: &rusqlite::Connection, sql: &str, key: &str) -> Result<
    Vec<(i64, String, String, i64)>,
    String,
> {
    let mut stmt = conn.prepare(sql).map_err(|e| format!("{e}"))?;
    let rows = stmt.query_map((key,), |w| Ok((w.get(0)?, w.get(1)?, w.get(2)?, w.get(3)?)))
        .map_err(|e| format!("{e}"))?;
    rows.collect::<Result<Vec<(i64, String, String, i64)>, rusqlite::Error>>().map_err(
        |e| format!("{e}"),
    )
}

/// Relies on rusqlite's `Statement::query_map` with the internal item
/// id bound: one stored field name and optional value per row.
#[verifier::external_body]
pub(crate) fn query_field_rows(conn: &rusqlite::Connection, sql: &str, item_id: i64) -> Result<
    Vec<(String, Option<String>)>,
    String,
> {
    let mut stmt = conn.prepare(sql).map_err(|e| format!("{e}"))?;
    let rows = stmt.query_map((item_id,), |w| Ok((w.get(0)?, w.get(1)?))).map_err(
        |e| format!("{e}"),
    )?;
    rows.collect::<Result<Vec<(String, Option<String>)>, rusqlite::Error>>().map_err(
        |e| format!("{e}"),
    )
}

/// Relies on rusqlite's `Statement::query_map` with the internal item
/// id bound: one creator row of optional first name, optional last
/// name and field-mode flag, in the statement's order.
#[verifier::external_body]
pub(crate) fn query_creator_rows(conn: &rusqlite::Connection, sql: &str, item_id: i64) -> Result<
    Vec<(Option<String>, Option<String>, i64)>,
    String,
> {
    let mut stmt = conn.prepare(sql).map_err(|e| format!("{e}"))?;
    let rows = stmt.query_map((item_id,), |w| Ok((w.get(0)?, w.get(1)?, w.get(2)?))).map_err(
        |e| format!("{e}"),
    )?;
    rows.collect::<Result<Vec<(Option<String>, Option<String>, i64)>, rusqlite::Error>>().map_err(
        |e| format!("{e}"),
    )
}

/// Relies on rusqlite's `Connection::query_row` and
/// `OptionalExtension::optional`: the first column of the first
/// matching row, or `None` when no row matches.
#[verifier::external_body]
pub(crate) fn query_citation_row(conn: &rusqlite::Connection, sql: &str, key: &str) -> Result<
    Option<String>,
    String,
> {
    conn.query_row(sql, (key,), |w| w.get(0)).optional().map_err(|e| format!("{e}"))
}

/// Relies on rusqlite's `Statement::query_map` with the parent item
/// key bound: one `AnnotationRow` per result row, columns in the order
/// the annotation statement selects them.
#[verifier::external_body]
pub(crate) fn query_annotation_rows(conn: &rusqlite::Connection, sql: &str, key: &str) -> Result<
    Vec<AnnotationRow>,
    String,
> {
    let mut stmt = conn.prepare(sql).map_err(|e| format!("{e}"))?;
    let rows = stmt.query_map(
        (key,),
        |w| Ok(annotation_row(
            w.get(0)?, w.get(1)?, w.get(2)?, w.get(3)?, w.get(4)?, w.get(5)?,
            w.get(6)?, w.get(7)?, w.get(8)?, w.get(9)?, w.get(10)?,
        )),
    ).map_err(|e| format!("{e}"))?;
    rows.collect::<Result<Vec<AnnotationRow>, rusqlite::Error>>().map_err(|e| format!("{e}"))
}

/// Relies on rusqlite's `Connection::query_row` and
/// `OptionalExtension::optional`: the library type and optional group
/// id of the first matching row, or `None` when no row matches.
#[verifier::external_body]
pub(crate) fn query_scope_row(conn: &rusqlite::Connection, sql: &str, key: &str) -> Result<
    Option<(String, Option<i64>)>,
    String,
> {
    conn.query_row(sql, (key,), |w| Ok((w.get(0)?, w.get(1)?))).optional().map_err(
        |e| format!("{e}"),
    )
}

} // verus!
