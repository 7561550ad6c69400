//! Read-only resolution layer for a Zotero library stored on disk:
//! locates the application's SQLite database files, opens them in
//! read-only immutable mode, and answers item search, item detail,
//! citation-key and annotation queries, plus a cached-image path lookup.
#![verifier::loop_isolation(false)]

pub mod annotations;
pub mod db;
pub mod citation;
pub mod detail;
pub mod errors;
pub mod images;
pub mod queries;
pub mod search;
pub mod paths;
pub mod rows;
pub mod text;
