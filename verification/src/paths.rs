//! Path resolution for the primary and the companion database, and the
//! read-only connection URI. Probing the filesystem is the caller's
//! job: this module computes the ordered candidate list from the
//! override and home values, and picks the first candidate that the
//! caller reports as existing.
use vstd::prelude::*;
use vstd::string::*;

use crate::errors::StoreError;
use crate::text::{
    chars_slice, spec_trim, to_chars, trim_string,
};

verus! {

/// The candidate list for a database file named `file`: the trimmed
/// override first when one is given, then the two conventional
/// per-user install locations when a home directory is known.
pub open spec fn spec_db_candidates(
    ov: Option<Seq<char>>,
    home: Option<Seq<char>>,
    file: Seq<char>,
) -> Seq<Seq<char>> {
    (match ov {
        Some(o) => seq![spec_trim(o)],
        None => Seq::empty(),
    }) + (match home {
        Some(h) => seq![h + "/Zotero/"@ + file, h + "/Zotero Beta/"@ + file],
        None => Seq::empty(),
    })
}

fn join_home(home: &String, dir: &str, file: &str) -> (r: String)
    ensures
        r@ == home@ + dir@ + file@,
{
    let mut r = home.clone();
    r.append(dir);
    r.append(file);
    r
}

fn db_candidates(ov: &Option<String>, home: &Option<String>, file: &str) -> (r: Vec<String>)
    ensures
        r@.map_values(|s: String| s@) == spec_db_candidates(
            match ov {
                Some(o) => Some(o@),
                None => None,
            },
            match home {
                Some(h) => Some(h@),
                None => None,
            },
            file@,
        ),
{
    let mut r: Vec<String> = Vec::new();
    match ov {
        Some(o) => {
            r.push(trim_string(o.as_str()));
        },
        None => {},
    }
    match home {
        Some(h) => {
            r.push(join_home(h, "/Zotero/", file));
            r.push(join_home(h, "/Zotero Beta/", file));
        },
        None => {},
    }
    assert(r@.map_values(|s: String| s@) =~= spec_db_candidates(
        match ov {
            Some(o) => Some(o@),
            None => None,
        },
        match home {
            Some(h) => Some(h@),
            None => None,
        },
        file@,
    ));
    r
}

/// The ordered candidate paths for the primary database file.
pub fn primary_candidates(ov: &Option<String>, home: &Option<String>) -> (r: Vec<String>)
    ensures
        r@.map_values(|s: String| s@) == spec_db_candidates(
            match ov {
                Some(o) => Some(o@),
                None => None,
            },
            match home {
                Some(h) => Some(h@),
                None => None,
            },
            "zotero.sqlite"@,
        ),
{
    db_candidates(ov, home, "zotero.sqlite")
}

/// The ordered candidate paths for the optional companion database file.
pub fn companion_candidates(ov: &Option<String>, home: &Option<String>) -> (r: Vec<String>)
    ensures
        r@.map_values(|s: String| s@) == spec_db_candidates(
            match ov {
                Some(o) => Some(o@),
                None => None,
            },
            match home {
                Some(h) => Some(h@),
                None => None,
            },
            "better-bibtex.sqlite"@,
        ),
{
    db_candidates(ov, home, "better-bibtex.sqlite")
}

/// The position of the first `true` at or after `i`, if any.
pub open spec fn spec_first_true(s: Seq<bool>, i: int) -> Option<int>
    decreases s.len() - i,
{
    if i < 0 || i >= s.len() {
        None
    } else if s[i] {
        Some(i)
    } else {
        spec_first_true(s, i + 1)
    }
}

/// Picks the first candidate path whose file the caller found to
/// exist. When none exists the error says what is missing: the home
/// directory itself, or the database file and the override to set.
pub fn resolve_primary(candidates: &Vec<String>, exists: &Vec<bool>, home_present: bool) -> (r:
    Result<String, StoreError>)
    requires
        candidates@.len() == exists@.len(),
    ensures
        match spec_first_true(exists@, 0) {
            Some(k) => r matches Ok(p) && p@ == candidates@[k]@,
            None => r matches Err(e) && e matches StoreError::ConfigurationMissing(m) && m@ == (
            if home_present {
                "Could not locate zotero.sqlite. Set ZOTERO_SQLITE_PATH to the database file."@
            } else {
                "HOME environment variable is not set."@
            }),
        },
{
    let mut i: usize = 0;
    while i < exists.len()
        invariant
            i <= exists@.len(),
            candidates@.len() == exists@.len(),
            spec_first_true(exists@, 0) == spec_first_true(exists@, i as int),
        decreases exists.len() - i,
    {
        if exists[i] {
            return Ok(candidates[i].clone());
        }
        i = i + 1;
    }
    if home_present {
        Err(
            StoreError::ConfigurationMissing(
                String::from_str(
                    "Could not locate zotero.sqlite. Set ZOTERO_SQLITE_PATH to the database file.",
                ),
            ),
        )
    } else {
        Err(StoreError::ConfigurationMissing(String::from_str(
            "HOME environment variable is not set.")))
    }
}

/// Picks the first companion candidate the caller found to exist;
/// absence is not an error but `None`, so callers degrade gracefully.
pub fn resolve_companion(candidates: &Vec<String>, exists: &Vec<bool>) -> (r: Option<String>)
    requires
        candidates@.len() == exists@.len(),
    ensures
        match spec_first_true(exists@, 0) {
            Some(k) => r matches Some(p) && p@ == candidates@[k]@,
            None => r is None,
        },
{
    let mut i: usize = 0;
    while i < exists.len()
        invariant
            i <= exists@.len(),
            candidates@.len() == exists@.len(),
            spec_first_true(exists@, 0) == spec_first_true(exists@, i as int),
        decreases exists.len() - i,
    {
        if exists[i] {
            return Some(candidates[i].clone());
        }
        i = i + 1;
    }
    None
}

// --- parent directory of the resolved database file ---

/// The position of the last `/`, if any.
pub open spec fn spec_last_slash(s: Seq<char>) -> Option<int>
    decreases s.len(),
{
    if s.len() == 0 {
        None
    } else if s.last() == '/' {
        Some(s.len() - 1)
    } else {
        spec_last_slash(s.drop_last())
    }
}

/// The sequence with its trailing run of `/` removed.
pub open spec fn spec_strip_slashes(s: Seq<char>) -> Seq<char>
    decreases s.len(),
{
    if s.len() > 0 && s.last() == '/' {
        spec_strip_slashes(s.drop_last())
    } else {
        s
    }
}

proof fn lemma_strip_slashes_take(s: Seq<char>, b: int)
    requires
        0 <= b <= s.len(),
        forall|k: int| b <= k < s.len() ==> s[k] == '/',
        b == 0 || s[b - 1] != '/',
    ensures
        spec_strip_slashes(s) == s.take(b),
    decreases s.len(),
{
    if b == s.len() {
        assert(s.take(b) =~= s);
    } else {
        let t = s.drop_last();
        lemma_strip_slashes_take(t, b);
        assert(t.take(b) =~= s.take(b));
    }
}

/// The directory holding the named file, as the standard path type
/// derives it: trailing separators are ignored; the parent is the
/// prefix before the last separator, itself with any separator run
/// collapsed (so a child of the root has parent `/`); a bare file
/// name yields the empty relative directory; the root itself and the
/// empty path have no parent.
pub open spec fn spec_parent_dir(s: Seq<char>) -> Option<Seq<char>> {
    let t = spec_strip_slashes(s);
    if t.len() == 0 {
        None
    } else {
        match spec_last_slash(t) {
            None => Some(Seq::<char>::empty()),
            Some(j) => {
                let p = spec_strip_slashes(t.take(j));
                if p.len() == 0 {
                    Some(seq!['/'])
                } else {
                    Some(p)
                }
            },
        }
    }
}

/// The profile directory that holds the resolved primary database
/// file; the image cache lives beneath it. A path with no parent —
/// the root or the empty path — is an error naming the path.
pub fn resolve_zotero_profile_dir(sqlite_path: &str) -> (r: Result<String, StoreError>)
    ensures
        match spec_parent_dir(sqlite_path@) {
            Some(d) => r matches Ok(p) && p@ == d,
            None => r matches Err(e) && e matches StoreError::ConfigurationMissing(m) && m@
                == "failed to resolve Zotero profile directory from "@ + sqlite_path@,
        },
{
    let v = to_chars(sqlite_path);
    let mut b: usize = v.len();
    while b > 0 && v[b - 1] == '/'
        invariant
            b <= v@.len(),
            forall|k: int| b <= k < v@.len() ==> v@[k] == '/',
        decreases b,
    {
        b = b - 1;
    }
    proof {
        lemma_strip_slashes_take(v@, b as int);
    }
    if b == 0 {
        let mut m = String::from_str("failed to resolve Zotero profile directory from ");
        m.append(sqlite_path);
        return Err(StoreError::ConfigurationMissing(m));
    }
    let t = chars_slice(&v, 0, b);
    let mut k: usize = t.len();
    proof {
        assert(t@.take(t@.len() as int) =~= t@);
    }
    while k > 0
        invariant
            k <= t@.len(),
            spec_last_slash(t@) == spec_last_slash(t@.take(k as int)),
        decreases k,
    {
        if t[k - 1] == '/' {
            assert(t@.take(k as int).last() == t@[k - 1]);
            assert(spec_last_slash(t@) == Some(k - 1));
            let mut e: usize = k - 1;
            while e > 0 && t[e - 1] == '/'
                invariant
                    e <= k - 1,
                    forall|i: int| e <= i < k - 1 ==> t@[i] == '/',
                decreases e,
            {
                e = e - 1;
            }
            proof {
                lemma_strip_slashes_take(t@.take(k - 1), e as int);
                assert(t@.take(k - 1).take(e as int) =~= t@.take(e as int));
            }
            if e == 0 {
                let mut root = String::new();
                push_root_slash(&mut root);
                return Ok(root);
            }
            let d = chars_slice(&t, 0, e);
            return Ok(crate::text::from_chars(&d));
        }
        proof {
            assert(t@.take(k as int).drop_last() =~= t@.take(k - 1));
            assert(t@.take(k as int).last() == t@[k - 1]);
        }
        k = k - 1;
    }
    proof {
        assert(t@.take(0) =~= Seq::<char>::empty());
    }
    Ok(String::new())
}

fn push_root_slash(s: &mut String)
    requires
        old(s)@.len() == 0,
    ensures
        final(s)@ == seq!['/'],
{
    let mut v: Vec<char> = Vec::new();
    v.push('/');
    let r = crate::text::from_chars(&v);
    *s = r;
    assert(s@ =~= seq!['/']);
}

// --- connection URI ---

/// How one character of a filesystem path is written inside the
/// connection URI: `%`, `?`, `#` and space are percent-encoded (`%`
/// first, so nothing is encoded twice), everything else is kept.
pub open spec fn spec_uri_encode_char(c: char) -> Seq<char> {
    if c == '%' {
        seq!['%', '2', '5']
    } else if c == '?' {
        seq!['%', '3', 'F']
    } else if c == '#' {
        seq!['%', '2', '3']
    } else if c == ' ' {
        seq!['%', '2', '0']
    } else {
        seq![c]
    }
}

/// The percent-encoding of a whole path.
pub open spec fn spec_uri_encode(s: Seq<char>) -> Seq<char>
    decreases s.len(),
{
    if s.len() == 0 {
        Seq::empty()
    } else {
        spec_uri_encode_char(s[0]) + spec_uri_encode(s.drop_first())
    }
}

/// The read-only connection URI for a database path: the encoded path
/// wrapped in `file:` and the `immutable` hint, under which the engine
/// assumes the file will not change for the life of the connection.
pub open spec fn spec_sqlite_uri(path: Seq<char>) -> Seq<char> {
    "file:"@ + spec_uri_encode(path) + "?immutable=1"@
}

proof fn lemma_uri_encode_snoc(s: Seq<char>, c: char)
    ensures
        spec_uri_encode(s.push(c)) == spec_uri_encode(s) + spec_uri_encode_char(c),
    decreases s.len(),
{
    if s.len() == 0 {
        assert(s.push(c)[0] == c);
        assert(s.push(c).drop_first() =~= s);
        assert(spec_uri_encode(s) =~= Seq::<char>::empty());
        assert(spec_uri_encode_char(c) + spec_uri_encode(s) =~= spec_uri_encode(s)
            + spec_uri_encode_char(c));
    } else {
        assert(s.push(c).drop_first() =~= s.drop_first().push(c));
        lemma_uri_encode_snoc(s.drop_first(), c);
        assert(spec_uri_encode(s.push(c)) =~= spec_uri_encode(s) + spec_uri_encode_char(c));
    }
}

/// The connection URI for the given database path.
pub fn sqlite_file_uri(path: &str) -> (r: String)
    ensures
        r@ == spec_sqlite_uri(path@),
{
    let v = to_chars(path);
    let mut enc: Vec<char> = Vec::new();
    let mut i: usize = 0;
    proof {
        assert(v@.take(0) =~= Seq::<char>::empty());
    }
    while i < v.len()
        invariant
            i <= v@.len(),
            enc@ == spec_uri_encode(v@.take(i as int)),
        decreases v.len() - i,
    {
        let c = v[i];
        if c == '%' {
            enc.push('%');
            enc.push('2');
            enc.push('5');
        } else if c == '?' {
            enc.push('%');
            enc.push('3');
            enc.push('F');
        } else if c == '#' {
            enc.push('%');
            enc.push('2');
            enc.push('3');
        } else if c == ' ' {
            enc.push('%');
            enc.push('2');
            enc.push('0');
        } else {
            enc.push(c);
        }
        proof {
            lemma_uri_encode_snoc(v@.take(i as int), v@[i as int]);
            assert(v@.take(i + 1) =~= v@.take(i as int).push(v@[i as int]));
            assert(enc@ =~= spec_uri_encode(v@.take(i as int)) + spec_uri_encode_char(
                v@[i as int],
            ));
        }
        i = i + 1;
    }
    proof {
        assert(v@.take(v@.len() as int) =~= v@);
    }
    let encoded = crate::text::from_chars(&enc);
    let mut r = String::from_str("file:");
    r.append(encoded.as_str());
    r.append("?immutable=1");
    r
}

} // verus!
