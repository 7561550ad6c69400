//! The error kinds this layer reports. Every variant carries a
//! descriptive message for the caller; an absent companion database is
//! not an error at all but a `None` result (see the citation-key query).
use vstd::prelude::*;

verus! {

#[derive(Debug)]
pub enum StoreError {
    /// No home directory or no resolvable database path; the message
    /// names the override variable to set.
    ConfigurationMissing(String),
    /// The requested item, annotation or cached image is absent.
    NotFound(String),
    /// The primary database could not be opened or read; the message
    /// carries the resolved path and the underlying report.
    DatabaseUnavailable(String),
}

impl StoreError {
    /// The message carried by the variant.
    pub open spec fn spec_message(&self) -> Seq<char> {
        match self {
            StoreError::ConfigurationMissing(m) => m@,
            StoreError::NotFound(m) => m@,
            StoreError::DatabaseUnavailable(m) => m@,
        }
    }

    pub fn message(&self) -> (r: &String)
        ensures
            r@ == self.spec_message(),
    {
        match self {
            StoreError::ConfigurationMissing(m) => m,
            StoreError::NotFound(m) => m,
            StoreError::DatabaseUnavailable(m) => m,
        }
    }
}

/// A message of the shape the connection opener owes its caller: the
/// given prefix, then the resolved path, then `": "` and some
/// underlying report.
pub open spec fn spec_carries_path(m: Seq<char>, prefix: Seq<char>, path: Seq<char>) -> bool {
    exists|report: Seq<char>| m == #[trigger] (prefix + path + ": "@ + report)
}

/// A database failure whose message is the given prefix followed by
/// the underlying report.
pub fn database_error(prefix: &str, msg: &String) -> (e: StoreError)
    ensures
        e matches StoreError::DatabaseUnavailable(m) && m@ == prefix@ + msg@,
{
    let mut s = String::from_str(prefix);
    s.append(msg.as_str());
    StoreError::DatabaseUnavailable(s)
}

/// A database failure whose message carries the resolved path and the
/// underlying report.
pub fn open_error(prefix: &str, path: &str, msg: &String) -> (e: StoreError)
    ensures
        e matches StoreError::DatabaseUnavailable(m) && m@ == prefix@ + path@ + ": "@ + msg@,
{
    let mut s = String::from_str(prefix);
    s.append(path);
    s.append(": ");
    s.append(msg.as_str());
    StoreError::DatabaseUnavailable(s)
}

/// An absence report whose message names the thing that is missing.
pub fn not_found_error(prefix: &str, key: &str, suffix: &str) -> (e: StoreError)
    ensures
        e matches StoreError::NotFound(m) && m@ == prefix@ + key@ + suffix@,
{
    let mut s = String::from_str(prefix);
    s.append(key);
    s.append(suffix);
    StoreError::NotFound(s)
}

} // verus!
