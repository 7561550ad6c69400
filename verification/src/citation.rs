//! Citation-key normalization: the stored value is an enhancement,
//! so a missing row or a blank value becomes `None`, and anything
//! else is handed back trimmed.
use vstd::prelude::*;

use crate::text::{spec_trim, trim_string};

verus! {

/// What a stored lookup result normalizes to: `None` when no row
/// matched or the value trims to nothing, otherwise the trimmed value.
pub open spec fn spec_citation_norm(stored: Option<Seq<char>>) -> Option<Seq<char>> {
    match stored {
        Some(v) => if spec_trim(v).len() == 0 {
            None
        } else {
            Some(spec_trim(v))
        },
        None => None,
    }
}

/// Normalizes the stored citation-key value.
pub fn citation_key_from_stored(stored: Option<String>) -> (r: Option<String>)
    ensures
        match (spec_citation_norm(
            match stored {
                Some(v) => Some(v@),
                None => None,
            },
        ), r) {
            (Some(v), Some(s)) => s@ == v,
            (None, None) => true,
            _ => false,
        },
{
    match stored {
        Some(v) => {
            let t = trim_string(v.as_str());
            if t.as_str().is_empty() {
                None
            } else {
                Some(t)
            }
        },
        None => None,
    }
}

} // verus!
