use zotero_local::errors::StoreError;
use zotero_local::paths::{
    companion_candidates, primary_candidates, resolve_companion, resolve_primary,
    resolve_zotero_profile_dir, sqlite_file_uri,
};
use zotero_local::text::extract_year;

#[test]
fn year_from_iso_date() {
    assert_eq!(extract_year("2021-05-01"), "2021");
}

#[test]
fn year_from_short_strings_is_empty() {
    assert_eq!(extract_year("ab"), "");
    assert_eq!(extract_year("v2"), "");
    assert_eq!(extract_year(""), "");
}

#[test]
fn year_absent_when_no_four_digit_run() {
    assert_eq!(extract_year("May 12, 201"), "");
    assert_eq!(extract_year("no digits at all"), "");
    assert_eq!(extract_year("1-2-3-4-5"), "");
}

#[test]
fn year_wants_ascii_digits_only() {
    assert_eq!(extract_year("平成３１年 2019"), "2019");
}

#[test]
fn year_takes_first_run() {
    assert_eq!(extract_year("circa 1999, reprinted 2004"), "1999");
    assert_eq!(extract_year("12345"), "1234");
    assert_eq!(extract_year("x20 2015"), "2015");
}

#[test]
fn uri_percent_encodes_in_order() {
    assert_eq!(
        sqlite_file_uri("/a b%c?d#e"),
        "file:/a%20b%25c%3Fd%23e?immutable=1"
    );
    assert_eq!(sqlite_file_uri("/plain/path"), "file:/plain/path?immutable=1");
}

#[test]
fn primary_candidates_order() {
    let c = primary_candidates(
        &Some("  /x/z.sqlite  ".to_string()),
        &Some("/home/u".to_string()),
    );
    assert_eq!(
        c,
        vec![
            "/x/z.sqlite".to_string(),
            "/home/u/Zotero/zotero.sqlite".to_string(),
            "/home/u/Zotero Beta/zotero.sqlite".to_string(),
        ]
    );
}

#[test]
fn companion_candidates_use_companion_file() {
    let c = companion_candidates(&None, &Some("/home/u".to_string()));
    assert_eq!(
        c,
        vec![
            "/home/u/Zotero/better-bibtex.sqlite".to_string(),
            "/home/u/Zotero Beta/better-bibtex.sqlite".to_string(),
        ]
    );
}

#[test]
fn resolve_primary_picks_first_existing() {
    let c = vec!["a".to_string(), "b".to_string(), "c".to_string()];
    let r = resolve_primary(&c, &vec![false, true, true], true).unwrap();
    assert_eq!(r, "b");
}

#[test]
fn resolve_primary_without_home_reports_home() {
    let r = resolve_primary(&vec![], &vec![], false);
    match r {
        Err(StoreError::ConfigurationMissing(m)) => {
            assert_eq!(m, "HOME environment variable is not set.");
        }
        _ => panic!("expected a configuration error"),
    }
}

#[test]
fn resolve_primary_with_home_reports_override_hint() {
    let c = vec!["a".to_string(), "b".to_string()];
    let r = resolve_primary(&c, &vec![false, false], true);
    match r {
        Err(StoreError::ConfigurationMissing(m)) => {
            assert_eq!(
                m,
                "Could not locate zotero.sqlite. Set ZOTERO_SQLITE_PATH to the database file."
            );
        }
        _ => panic!("expected a configuration error"),
    }
}

#[test]
fn resolve_companion_absent_is_none() {
    let c = vec!["a".to_string(), "b".to_string()];
    assert!(resolve_companion(&c, &vec![false, false]).is_none());
    assert_eq!(
        resolve_companion(&c, &vec![false, true]).as_deref(),
        Some("b")
    );
}

#[test]
fn profile_dir_is_parent_of_database_file() {
    assert_eq!(
        resolve_zotero_profile_dir("/home/u/Zotero/zotero.sqlite").unwrap(),
        "/home/u/Zotero"
    );
    assert_eq!(resolve_zotero_profile_dir("/zotero.sqlite").unwrap(), "/");
    assert_eq!(resolve_zotero_profile_dir("zotero.sqlite").unwrap(), "");
    assert!(resolve_zotero_profile_dir("").is_err());
}

#[test]
fn profile_dir_on_degenerate_paths_matches_std_parent() {
    // trailing separators are ignored, as std's parent ignores them
    assert_eq!(resolve_zotero_profile_dir("/a/b/").unwrap(), "/a");
    assert_eq!(resolve_zotero_profile_dir("a//b").unwrap(), "a");
    // the root has no parent
    match resolve_zotero_profile_dir("/") {
        Err(StoreError::ConfigurationMissing(m)) => {
            assert_eq!(m, "failed to resolve Zotero profile directory from /");
        }
        _ => panic!("expected a configuration error for the root"),
    }
    assert!(resolve_zotero_profile_dir("///").is_err());
}
