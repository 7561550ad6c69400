//! The cached-image lookup for an annotation: the ordered candidate
//! paths beneath the profile directory, and the pick of the first one
//! the caller found on disk. Two group-scoped layouts are probed
//! because the external application changed its cache layout once;
//! the personal-library path always comes first.
use vstd::prelude::*;
use vstd::string::*;

use crate::paths::spec_first_true;
use crate::text::{i64_to_string, spec_i64_dec, str_eq};

verus! {

/// The ordered candidate cache paths for one annotation: the
/// personal-library path always; for a group-scoped annotation with a
/// known group id, also the two historical group layouts, with and
/// without the extra `library` segment, in that order.
pub open spec fn spec_image_candidates(
    dir: Seq<char>,
    key: Seq<char>,
    scope: Seq<char>,
    group_id: Option<i64>,
) -> Seq<Seq<char>> {
    let personal = dir + "/cache/library/"@ + key + ".png"@;
    match group_id {
        Some(g) => if scope == "group"@ {
            seq![
                personal,
                dir + "/cache/groups/"@ + spec_i64_dec(g as int) + "/"@ + key + ".png"@,
                dir + "/cache/groups/"@ + spec_i64_dec(g as int) + "/library/"@ + key + ".png"@,
            ]
        } else {
            seq![personal]
        },
        None => seq![personal],
    }
}

fn personal_path(dir: &str, key: &str) -> (r: String)
    ensures
        r@ == dir@ + "/cache/library/"@ + key@ + ".png"@,
{
    let mut s = String::from_str(dir);
    s.append("/cache/library/");
    s.append(key);
    s.append(".png");
    s
}

fn group_path(dir: &str, gid: &String, key: &str, with_library: bool) -> (r: String)
    ensures
        !with_library ==> r@ == dir@ + "/cache/groups/"@ + gid@ + "/"@ + key@ + ".png"@,
        with_library ==> r@ == dir@ + "/cache/groups/"@ + gid@ + "/library/"@ + key@ + ".png"@,
{
    let mut s = String::from_str(dir);
    s.append("/cache/groups/");
    s.append(gid.as_str());
    if with_library {
        s.append("/library/");
    } else {
        s.append("/");
    }
    s.append(key);
    s.append(".png");
    s
}

/// The candidate cache paths for one annotation, in probe order.
pub fn cached_image_candidates(
    profile_dir: &str,
    annotation_key: &str,
    library_type: &str,
    group_id: Option<i64>,
) -> (r: Vec<String>)
    ensures
        r@.map_values(|s: String| s@) == spec_image_candidates(
            profile_dir@,
            annotation_key@,
            library_type@,
            group_id,
        ),
{
    let mut r: Vec<String> = Vec::new();
    r.push(personal_path(profile_dir, annotation_key));
    match group_id {
        Some(g) => {
            if str_eq(library_type, "group") {
                let gid = i64_to_string(g);
                r.push(group_path(profile_dir, &gid, annotation_key, false));
                r.push(group_path(profile_dir, &gid, annotation_key, true));
            }
        },
        None => {},
    }
    assert(r@.map_values(|s: String| s@) =~= spec_image_candidates(
        profile_dir@,
        annotation_key@,
        library_type@,
        group_id,
    ));
    r
}

/// A personal-library annotation gets exactly one candidate — the
/// personal cache path — so group-scoped paths are never probed; a
/// group-scoped annotation with a known group gets the personal path
/// first and then the two group layouts, in order.
pub proof fn lemma_image_probe_order(
    dir: Seq<char>,
    key: Seq<char>,
    scope: Seq<char>,
    group_id: Option<i64>,
)
    ensures
        spec_image_candidates(dir, key, scope, group_id)[0] == dir + "/cache/library/"@ + key
            + ".png"@,
        (scope != "group"@ || group_id is None) ==> spec_image_candidates(
            dir,
            key,
            scope,
            group_id,
        ).len() == 1,
        (scope == "group"@ && group_id is Some) ==> spec_image_candidates(
            dir,
            key,
            scope,
            group_id,
        ).len() == 3,
{
}

/// Picks the position of the first candidate that exists on disk, as
/// the caller probed them.
pub fn first_existing(exists: &Vec<bool>) -> (r: Option<usize>)
    ensures
        match spec_first_true(exists@, 0) {
            Some(k) => r matches Some(u) && u == k,
            None => r is None,
        },
{
    let mut i: usize = 0;
    while i < exists.len()
        invariant
            i <= exists@.len(),
            spec_first_true(exists@, 0) == spec_first_true(exists@, i as int),
        decreases exists.len() - i,
    {
        if exists[i] {
            return Some(i);
        }
        i = i + 1;
    }
    None
}

} // verus!
