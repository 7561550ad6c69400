//! Item detail: picking the live row for a key, and assembling the
//! stored fields and creators into the result shape. Field values
//! arrive verbatim; a missing value becomes the empty string, never
//! null. A creator whose field-mode flag is 1 is organizational and
//! carries a single name; any other flag value means a personal
//! creator with given and family name.
use vstd::prelude::*;

use crate::rows::{Creator, ItemDetail};
use crate::search::spec_opt_or_empty;

verus! {

/// The first row for the key that is not marked deleted (the marker
/// still in stored integer form), scanning from position `i`.
pub open spec fn spec_first_live(rows: Seq<(i64, String, String, i64)>, i: int) -> Option<
    (i64, String, String, i64),
>
    decreases rows.len() - i,
{
    if i < 0 || i >= rows.len() {
        None
    } else if rows[i].3 == 0 {
        Some(rows[i])
    } else {
        spec_first_live(rows, i + 1)
    }
}

/// A deleted item never reaches a detail: whatever rows the lookup
/// answered with, the picked head is one of them and is not marked
/// deleted; and when every row is deleted the pick is `None` — the
/// same answer as for a key with no rows at all.
pub proof fn lemma_head_excludes_deleted(rows: Seq<(i64, String, String, i64)>, i: int)
    requires
        0 <= i,
    ensures
        spec_first_live(rows, i) matches Some(t) ==> (t.3 == 0 && exists|k: int|
            i <= k < rows.len() && rows[k] == t),
        (forall|k: int| i <= k < rows.len() ==> (#[trigger] rows[k]).3 != 0) ==> spec_first_live(
            rows,
            i,
        ) is None,
    decreases rows.len() - i,
{
    if i >= rows.len() {
    } else if rows[i].3 == 0 {
        assert(i <= i < rows.len() && rows[i] == rows[i]);
    } else {
        lemma_head_excludes_deleted(rows, i + 1);
        match spec_first_live(rows, i + 1) {
            Some(t) => {
                let w = choose|k: int| i + 1 <= k < rows.len() && rows[k] == t;
                assert(i <= w < rows.len() && rows[w] == t);
            },
            None => {},
        }
    }
}

/// Picks the item row the detail is built from: the first row for the
/// key that is not marked deleted; `None` when every matching row is
/// deleted or none matches.
pub fn head_from_rows(rows: &Vec<(i64, String, String, i64)>) -> (r: Option<(i64, String, String)>)
    ensures
        match spec_first_live(rows@, 0) {
            Some(t) => r matches Some(h) && h.0 == t.0 && h.1@ == t.1@ && h.2@ == t.2@,
            None => r is None,
        },
{
    let mut i: usize = 0;
    while i < rows.len()
        invariant
            i <= rows@.len(),
            spec_first_live(rows@, 0) == spec_first_live(rows@, i as int),
        decreases rows.len() - i,
    {
        if rows[i].3 == 0 {
            let id = rows[i].0;
            let key = rows[i].1.clone();
            let kind = rows[i].2.clone();
            return Some((id, key, kind));
        }
        i = i + 1;
    }
    None
}

/// How one emitted field pair relates to its stored row: the name
/// verbatim, a missing value read as empty.
pub open spec fn spec_field_of(f: (String, String), t: (String, Option<String>)) -> bool {
    f.0@ == t.0@ && f.1@ == spec_opt_or_empty(t.1)
}

/// How one emitted creator relates to its stored row: organizational
/// exactly when the field-mode flag is 1, with every name part read
/// as empty when missing.
pub open spec fn spec_creator_of(c: Creator, t: (Option<String>, Option<String>, i64)) -> bool {
    if t.2 == 1 {
        c matches Creator::Org { name } && name@ == spec_opt_or_empty(t.1)
    } else {
        c matches Creator::Personal { first_name, last_name } && first_name@ == spec_opt_or_empty(
            t.0,
        ) && last_name@ == spec_opt_or_empty(t.1)
    }
}

/// The whole assembled detail, relative to the raw parts it was built
/// from: every stored field and creator, in stored order.
pub open spec fn spec_detail_shape(
    d: ItemDetail,
    fields: Seq<(String, Option<String>)>,
    creators: Seq<(Option<String>, Option<String>, i64)>,
) -> bool {
    &&& d.fields@.len() == fields.len()
    &&& forall|i: int| 0 <= i < fields.len() ==> spec_field_of(#[trigger] d.fields@[i], fields[i])
    &&& d.creators@.len() == creators.len()
    &&& forall|i: int|
        0 <= i < creators.len() ==> spec_creator_of(#[trigger] d.creators@[i], creators[i])
}

fn or_empty(o: Option<String>) -> (r: String)
    ensures
        r@ == spec_opt_or_empty(o),
{
    match o {
        Some(s) => s,
        None => String::new(),
    }
}

/// Assembles the detail for one item from its key, its type name, its
/// stored field rows and its creator rows.
pub fn detail_from_parts(
    key: String,
    kind: String,
    fields: Vec<(String, Option<String>)>,
    creators: Vec<(Option<String>, Option<String>, i64)>,
) -> (d: ItemDetail)
    ensures
        d.key@ == key@,
        d.item_type@ == kind@,
        spec_detail_shape(d, fields@, creators@),
{
    let ghost orig_fields = fields@;
    let mut rest_f = fields;
    let mut out_f: Vec<(String, String)> = Vec::new();
    while rest_f.len() > 0
        invariant
            out_f@.len() + rest_f@.len() == orig_fields.len(),
            rest_f@ == orig_fields.skip(out_f@.len() as int),
            forall|i: int|
                0 <= i < out_f@.len() ==> spec_field_of(#[trigger] out_f@[i], orig_fields[i]),
        decreases rest_f.len(),
    {
        let ghost i = out_f@.len() as int;
        let x = rest_f.remove(0);
        proof {
            assert(x == orig_fields[i]) by {
                assert(orig_fields.skip(i)[0] == orig_fields[i]);
            }
            assert(rest_f@ =~= orig_fields.skip(i + 1));
        }
        let (name, value) = x;
        out_f.push((name, or_empty(value)));
    }
    let ghost orig_creators = creators@;
    let mut rest_c = creators;
    let mut out_c: Vec<Creator> = Vec::new();
    while rest_c.len() > 0
        invariant
            out_c@.len() + rest_c@.len() == orig_creators.len(),
            rest_c@ == orig_creators.skip(out_c@.len() as int),
            forall|i: int|
                0 <= i < out_c@.len() ==> spec_creator_of(#[trigger] out_c@[i], orig_creators[i]),
        decreases rest_c.len(),
    {
        let ghost i = out_c@.len() as int;
        let x = rest_c.remove(0);
        proof {
            assert(x == orig_creators[i]) by {
                assert(orig_creators.skip(i)[0] == orig_creators[i]);
            }
            assert(rest_c@ =~= orig_creators.skip(i + 1));
        }
        let (first, last, mode) = x;
        if mode == 1 {
            out_c.push(Creator::Org { name: or_empty(last) });
        } else {
            out_c.push(
                Creator::Personal { first_name: or_empty(first), last_name: or_empty(last) },
            );
        }
    }
    ItemDetail { key, item_type: kind, fields: out_f, creators: out_c }
}

} // verus!
