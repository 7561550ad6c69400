//! Character and string primitives the query layer is built on:
//! ASCII lowercasing (matching the database engine's case folding),
//! whitespace trimming, substring search, lexicographic comparison,
//! year extraction from free-text dates, and decimal rendering.
use vstd::prelude::*;
use vstd::string::*;

verus! {

/// An ASCII decimal digit.
pub open spec fn spec_is_digit(c: char) -> bool {
    48 <= c as u32 <= 57
}

/// A whitespace character, as the Unicode `White_Space` property defines it.
pub open spec fn spec_is_space(c: char) -> bool {
    let u = c as u32;
    (9 <= u <= 13) || u == 32 || u == 0x85 || u == 0xA0 || u == 0x1680
        || (0x2000 <= u <= 0x200A) || u == 0x2028 || u == 0x2029
        || u == 0x202F || u == 0x205F || u == 0x3000
}

/// ASCII-only lowercasing of one character; anything outside `A`..`Z` is kept.
/// This matches the database engine's `LOWER`, which folds ASCII alone.
pub open spec fn spec_lower_char(c: char) -> char {
    if 65 <= c as u32 <= 90 {
        (((c as u32) + 32) as u8) as char
    } else {
        c
    }
}

/// ASCII-only lowercasing of a character sequence.
pub open spec fn spec_lower(s: Seq<char>) -> Seq<char> {
    s.map_values(|c: char| spec_lower_char(c))
}

pub fn is_digit_char(c: char) -> (r: bool)
    ensures
        r == spec_is_digit(c),
{
    let u = c as u32;
    48 <= u && u <= 57
}

pub fn is_space_char(c: char) -> (r: bool)
    ensures
        r == spec_is_space(c),
{
    let u = c as u32;
    (9 <= u && u <= 13) || u == 32 || u == 0x85 || u == 0xA0 || u == 0x1680
        || (0x2000 <= u && u <= 0x200A) || u == 0x2028 || u == 0x2029
        || u == 0x202F || u == 0x205F || u == 0x3000
}

pub fn lower_char(c: char) -> (r: char)
    ensures
        r == spec_lower_char(c),
{
    let u = c as u32;
    if 65 <= u && u <= 90 {
        ((u + 32) as u8) as char
    } else {
        c
    }
}

/// The characters of a string slice, as an indexable vector.
pub fn to_chars(s: &str) -> (r: Vec<char>)
    ensures
        r@ == s@,
{
    let n = s.unicode_len();
    let mut r: Vec<char> = Vec::new();
    let mut i: usize = 0;
    while i < n
        invariant
            i <= n,
            r@ == s@.take(i as int),
        decreases n - i,
    {
        r.push(s.get_char(i));
        i = i + 1;
        assert(s@.take(i as int) =~= s@.take(i - 1).push(s@[i - 1]));
    }
    assert(s@.take(n as int) =~= s@);
    r
}

/// Relies on `String::push`: appends exactly the given character.
#[verifier::external_body]
fn push_char(s: &mut String, c: char)
    ensures
        final(s)@ == old(s)@.push(c),
{
    s.push(c);
}

/// A freshly allocated string holding exactly the given characters.
pub fn from_chars(v: &Vec<char>) -> (r: String)
    ensures
        r@ == v@,
{
    let mut r = String::new();
    let mut i: usize = 0;
    while i < v.len()
        invariant
            i <= v.len(),
            r@ == v@.take(i as int),
        decreases v.len() - i,
    {
        push_char(&mut r, v[i]);
        i = i + 1;
        assert(v@.take(i as int) =~= v@.take(i - 1).push(v@[i - 1]));
    }
    assert(v@.take(v.len() as int) =~= v@);
    r
}

pub fn chars_eq(a: &Vec<char>, b: &Vec<char>) -> (r: bool)
    ensures
        r == (a@ == b@),
{
    if a.len() != b.len() {
        assert(a@ != b@) by {
            assert(a@.len() != b@.len());
        }
        return false;
    }
    let mut i: usize = 0;
    while i < a.len()
        invariant
            i <= a.len(),
            a@.len() == b@.len(),
            forall|j: int| 0 <= j < i ==> a@[j] == b@[j],
        decreases a.len() - i,
    {
        if a[i] != b[i] {
            assert(a@ != b@) by {
                assert(a@[i as int] != b@[i as int]);
            }
            return false;
        }
        i = i + 1;
    }
    assert(a@ =~= b@);
    true
}

/// Whether two string slices hold the same characters.
pub fn str_eq(a: &str, b: &str) -> (r: bool)
    ensures
        r == (a@ == b@),
{
    let av = to_chars(a);
    let bv = to_chars(b);
    chars_eq(&av, &bv)
}

/// What the standard library's Unicode lowercasing returns for a
/// string: a function of its characters alone. Stated fully it is
/// the Unicode case-mapping table, so only its name is given here;
/// the ASCII fold `spec_lower` is kept separately for the places that
/// mirror the database engine's `LOWER`.
pub uninterp spec fn lower_of(s: Seq<char>) -> Seq<char>;

/// Relies on `str::to_lowercase`: the Unicode lowercase equivalent of
/// the string, depending on its characters alone; an empty string
/// stays empty.
#[verifier::external_body]
pub fn unicode_lowercase(s: &str) -> (r: String)
    ensures
        r@ == lower_of(s@),
        s@.len() == 0 ==> r@.len() == 0,
{
    s.to_lowercase()
}

/// ASCII-lowercases every character.
pub fn lower_chars(v: &Vec<char>) -> (r: Vec<char>)
    ensures
        r@ == spec_lower(v@),
{
    let mut r: Vec<char> = Vec::new();
    let mut i: usize = 0;
    while i < v.len()
        invariant
            i <= v.len(),
            r@.len() == i,
            forall|j: int| 0 <= j < i ==> r@[j] == spec_lower_char(v@[j]),
        decreases v.len() - i,
    {
        r.push(lower_char(v[i]));
        i = i + 1;
    }
    assert(r@ =~= spec_lower(v@));
    r
}

/// A copy of the characters at positions `a..b`.
pub fn chars_slice(v: &Vec<char>, a: usize, b: usize) -> (r: Vec<char>)
    requires
        a <= b <= v@.len(),
    ensures
        r@ == v@.subrange(a as int, b as int),
{
    let mut r: Vec<char> = Vec::new();
    let mut i: usize = a;
    while i < b
        invariant
            a <= i <= b <= v@.len(),
            r@ == v@.subrange(a as int, i as int),
        decreases b - i,
    {
        r.push(v[i]);
        i = i + 1;
        assert(v@.subrange(a as int, i as int) =~= v@.subrange(a as int, i - 1).push(v@[i - 1]));
    }
    r
}

// --- trimming ---

/// The sequence with its leading whitespace removed.
pub open spec fn spec_trim_start(s: Seq<char>) -> Seq<char>
    decreases s.len(),
{
    if s.len() > 0 && spec_is_space(s[0]) {
        spec_trim_start(s.drop_first())
    } else {
        s
    }
}

/// The sequence with its trailing whitespace removed.
pub open spec fn spec_trim_end(s: Seq<char>) -> Seq<char>
    decreases s.len(),
{
    if s.len() > 0 && spec_is_space(s.last()) {
        spec_trim_end(s.drop_last())
    } else {
        s
    }
}

/// The sequence with leading and trailing whitespace removed.
pub open spec fn spec_trim(s: Seq<char>) -> Seq<char> {
    spec_trim_end(spec_trim_start(s))
}

proof fn lemma_trim_start_skip(s: Seq<char>, a: int)
    requires
        0 <= a <= s.len(),
        forall|j: int| 0 <= j < a ==> spec_is_space(s[j]),
        a == s.len() || !spec_is_space(s[a]),
    ensures
        spec_trim_start(s) == s.skip(a),
    decreases a,
{
    if a == 0 {
        assert(s.skip(0) =~= s);
    } else {
        assert(spec_is_space(s[0]));
        let t = s.drop_first();
        assert(forall|j: int| 0 <= j < a - 1 ==> spec_is_space(t[j]));
        lemma_trim_start_skip(t, a - 1);
        assert(t.skip(a - 1) =~= s.skip(a));
    }
}

proof fn lemma_trim_end_take(t: Seq<char>, k: int)
    requires
        0 <= k < t.len(),
        !spec_is_space(t[k]),
        forall|j: int| k < j < t.len() ==> spec_is_space(t[j]),
    ensures
        spec_trim_end(t) == t.take(k + 1),
    decreases t.len(),
{
    if k == t.len() - 1 {
        assert(t.take(k + 1) =~= t);
    } else {
        assert(spec_is_space(t.last()));
        let u = t.drop_last();
        lemma_trim_end_take(u, k);
        assert(u.take(k + 1) =~= t.take(k + 1));
    }
}

proof fn lemma_trim_all_spaces(s: Seq<char>)
    requires
        forall|j: int| 0 <= j < s.len() ==> spec_is_space(s[j]),
    ensures
        spec_trim(s) == Seq::<char>::empty(),
{
    lemma_trim_start_skip(s, s.len() as int);
    assert(s.skip(s.len() as int) =~= Seq::<char>::empty());
}

/// The characters of `v` with leading and trailing whitespace removed.
pub fn trim_chars(v: &Vec<char>) -> (r: Vec<char>)
    ensures
        r@ == spec_trim(v@),
{
    let n = v.len();
    let mut a: usize = 0;
    while a < n && is_space_char(v[a])
        invariant
            a <= n,
            forall|j: int| 0 <= j < a ==> spec_is_space(v@[j]),
        decreases n - a,
    {
        a = a + 1;
    }
    if a == n {
        proof {
            lemma_trim_all_spaces(v@);
        }
        let r: Vec<char> = Vec::new();
        return r;
    }
    // v[a] is the first non-space character; find the last one.
    let mut b: usize = n - 1;
    while b > a && is_space_char(v[b])
        invariant
            a <= b < n,
            !spec_is_space(v@[a as int]),
            forall|j: int| b < j < n ==> spec_is_space(v@[j]),
        decreases b,
    {
        b = b - 1;
    }
    proof {
        lemma_trim_start_skip(v@, a as int);
        lemma_trim_end_take(v@.skip(a as int), b - a);
        assert(v@.skip(a as int).take(b - a + 1) =~= v@.subrange(a as int, b + 1));
    }
    let mut r: Vec<char> = Vec::new();
    let mut i: usize = a;
    while i <= b
        invariant
            a <= i <= b + 1,
            b < n == v@.len(),
            r@ == v@.subrange(a as int, i as int),
        decreases b + 1 - i,
    {
        r.push(v[i]);
        i = i + 1;
        assert(v@.subrange(a as int, i as int) =~= v@.subrange(a as int, i - 1).push(v@[i - 1]));
    }
    r
}

/// A freshly allocated copy of `s` with surrounding whitespace removed.
pub fn trim_string(s: &str) -> (r: String)
    ensures
        r@ == spec_trim(s@),
{
    let v = to_chars(s);
    let t = trim_chars(&v);
    from_chars(&t)
}

// --- substring search ---

/// Whether `n` occurs contiguously anywhere in `h`.
pub open spec fn spec_contains(h: Seq<char>, n: Seq<char>) -> bool {
    exists|i: int|
        0 <= i && i + n.len() <= h.len() && #[trigger] h.subrange(i, i + n.len() as int) == n
}

fn match_at(h: &Vec<char>, n: &Vec<char>, i: usize) -> (r: bool)
    requires
        i + n@.len() <= h@.len(),
    ensures
        r == (h@.subrange(i as int, i + n@.len() as int) == n@),
{
    let mut j: usize = 0;
    let mut p: usize = i;
    while j < n.len()
        invariant
            j <= n@.len(),
            i + n@.len() <= h@.len(),
            p == i + j,
            forall|k: int| 0 <= k < j ==> h@[i + k] == n@[k],
        decreases n.len() - j,
    {
        if h[p] != n[j] {
            assert(h@.subrange(i as int, i + n@.len() as int)[j as int] == h@[i + j]);
            return false;
        }
        j = j + 1;
        assert(h@.len() <= usize::MAX) by {
            assert(h.len() == h@.len());
        }
        p = p + 1;
    }
    assert(h@.subrange(i as int, i + n@.len() as int) =~= n@);
    true
}

/// Whether the characters of `n` occur contiguously in `h`.
pub fn contains_chars(h: &Vec<char>, n: &Vec<char>) -> (r: bool)
    ensures
        r == spec_contains(h@, n@),
{
    if n.len() > h.len() {
        return false;
    }
    if n.len() == 0 {
        assert(spec_contains(h@, n@)) by {
            assert(h@.subrange(0, 0 + n@.len() as int) =~= n@);
        }
        return true;
    }
    let bound = h.len() - n.len();
    let mut i: usize = 0;
    while i <= bound
        invariant
            i <= bound + 1,
            bound == h@.len() - n@.len(),
            forall|j: int| 0 <= j < i ==> #[trigger] h@.subrange(j, j + n@.len() as int) != n@,
        decreases bound + 1 - i,
    {
        if match_at(h, n, i) {
            assert(spec_contains(h@, n@)) by {
                assert(h@.subrange(i as int, i + n@.len() as int) == n@);
            }
            return true;
        }
        i = i + 1;
    }
    false
}

// --- lexicographic order on character sequences ---

/// Lexicographic order by Unicode scalar value; a prefix sorts first.
/// This is also byte order on the UTF-8 encodings, the order the
/// database engine uses for its default text collation.
pub open spec fn spec_lex_leq(a: Seq<char>, b: Seq<char>) -> bool
    decreases a.len(),
{
    if a.len() == 0 {
        true
    } else if b.len() == 0 {
        false
    } else if (a[0] as u32) < (b[0] as u32) {
        true
    } else if (a[0] as u32) > (b[0] as u32) {
        false
    } else {
        spec_lex_leq(a.drop_first(), b.drop_first())
    }
}

/// The order is total.
pub proof fn lemma_lex_total(a: Seq<char>, b: Seq<char>)
    ensures
        spec_lex_leq(a, b) || spec_lex_leq(b, a),
    decreases a.len(),
{
    if a.len() == 0 || b.len() == 0 {
    } else if (a[0] as u32) == (b[0] as u32) {
        lemma_lex_total(a.drop_first(), b.drop_first());
    }
}

/// The order is transitive.
pub proof fn lemma_lex_trans(a: Seq<char>, b: Seq<char>, c: Seq<char>)
    requires
        spec_lex_leq(a, b),
        spec_lex_leq(b, c),
    ensures
        spec_lex_leq(a, c),
    decreases a.len(),
{
    if a.len() == 0 {
    } else {
        if (a[0] as u32) == (b[0] as u32) && (b[0] as u32) == (c[0] as u32) {
            lemma_lex_trans(a.drop_first(), b.drop_first(), c.drop_first());
        }
    }
}

/// Whether `a` sorts at or before `b` in lexicographic order.
pub fn lex_leq_chars(a: &Vec<char>, b: &Vec<char>) -> (r: bool)
    ensures
        r == spec_lex_leq(a@, b@),
{
    let mut i: usize = 0;
    proof {
        assert(a@.skip(0) =~= a@);
        assert(b@.skip(0) =~= b@);
    }
    while i < a.len() && i < b.len()
        invariant
            i <= a@.len(),
            i <= b@.len(),
            spec_lex_leq(a@, b@) == spec_lex_leq(a@.skip(i as int), b@.skip(i as int)),
        decreases a.len() - i,
    {
        let au = a[i] as u32;
        let bu = b[i] as u32;
        if au < bu {
            return true;
        }
        if au > bu {
            return false;
        }
        proof {
            assert(a@.skip(i as int).drop_first() =~= a@.skip(i + 1));
            assert(b@.skip(i as int).drop_first() =~= b@.skip(i + 1));
        }
        i = i + 1;
    }
    if i == a.len() {
        true
    } else {
        false
    }
}

// --- year extraction ---

/// Four consecutive ASCII digits beginning at position `i`.
pub open spec fn spec_year_at(s: Seq<char>, i: int) -> bool {
    spec_is_digit(s[i]) && spec_is_digit(s[i + 1]) && spec_is_digit(s[i + 2]) && spec_is_digit(
        s[i + 3],
    )
}

/// The position of the leftmost four-digit run at or after `i`, if any.
pub open spec fn spec_first_year_idx(s: Seq<char>, i: int) -> Option<int>
    decreases s.len() - i,
{
    if i + 4 > s.len() {
        None
    } else if spec_year_at(s, i) {
        Some(i)
    } else {
        spec_first_year_idx(s, i + 1)
    }
}

/// The first run of four consecutive ASCII digits, or the empty
/// sequence if the string holds none.
pub open spec fn spec_extract_year(s: Seq<char>) -> Seq<char> {
    match spec_first_year_idx(s, 0) {
        Some(k) => s.subrange(k, k + 4),
        None => Seq::empty(),
    }
}

/// A string with no four consecutive ASCII digits yields the empty year.
pub proof fn lemma_no_year_run_empty(s: Seq<char>)
    requires
        forall|i: int| 0 <= i && i + 4 <= s.len() ==> !spec_year_at(s, i),
    ensures
        spec_extract_year(s) == Seq::<char>::empty(),
{
    lemma_first_year_idx_none(s, 0);
}

proof fn lemma_first_year_idx_none(s: Seq<char>, i: int)
    requires
        0 <= i,
        forall|j: int| i <= j && j + 4 <= s.len() ==> !spec_year_at(s, j),
    ensures
        spec_first_year_idx(s, i) is None,
    decreases s.len() - i,
{
    if i + 4 > s.len() {
    } else {
        lemma_first_year_idx_none(s, i + 1);
    }
}

/// Scans the date string left to right and returns the first run of four
/// consecutive ASCII digit characters; absent such a run (in particular
/// for strings shorter than four characters) the result is empty.
pub fn extract_year(raw: &str) -> (r: String)
    ensures
        r@ == spec_extract_year(raw@),
{
    let v = to_chars(raw);
    if v.len() < 4 {
        return String::new();
    }
    let bound = v.len() - 4;
    let mut i: usize = 0;
    while i <= bound
        invariant
            i <= bound + 1,
            bound == v@.len() - 4,
            spec_first_year_idx(v@, 0) == spec_first_year_idx(v@, i as int),
        decreases bound + 1 - i,
    {
        if is_digit_char(v[i]) && is_digit_char(v[i + 1]) && is_digit_char(v[i + 2])
            && is_digit_char(v[i + 3]) {
            assert(spec_first_year_idx(v@, i as int) == Some(i as int));
            let mut out: Vec<char> = Vec::new();
            out.push(v[i]);
            out.push(v[i + 1]);
            out.push(v[i + 2]);
            out.push(v[i + 3]);
            assert(out@ =~= v@.subrange(i as int, i + 4));
            return from_chars(&out);
        }
        i = i + 1;
    }
    String::new()
}

// --- decimal rendering ---

/// The ASCII digit character for a value in 0..=9.
pub open spec fn spec_digit_char(d: int) -> char {
    ((48 + d) as u8) as char
}

/// The decimal digits of a non-negative integer, most significant first.
pub open spec fn spec_dec_rep(n: int) -> Seq<char>
    decreases n,
{
    if n < 10 {
        seq![spec_digit_char(n)]
    } else {
        spec_dec_rep(n / 10).push(spec_digit_char(n % 10))
    }
}

/// The usual decimal rendering of a signed integer.
pub open spec fn spec_i64_dec(n: int) -> Seq<char> {
    if n < 0 {
        seq!['-'] + spec_dec_rep(-n)
    } else {
        spec_dec_rep(n)
    }
}

fn dec_rep_u64(n: u64) -> (r: Vec<char>)
    ensures
        r@ == spec_dec_rep(n as int),
    decreases n,
{
    if n < 10 {
        let mut r: Vec<char> = Vec::new();
        r.push(((48 + n) as u8) as char);
        assert(r@ =~= seq![spec_digit_char(n as int)]);
        r
    } else {
        let mut r = dec_rep_u64(n / 10);
        r.push(((48 + n % 10) as u8) as char);
        r
    }
}

/// The decimal rendering of `n`, with a leading `-` when negative.
pub fn i64_to_string(n: i64) -> (r: String)
    ensures
        r@ == spec_i64_dec(n as int),
{
    if n >= 0 {
        let digits = dec_rep_u64(n as u64);
        from_chars(&digits)
    } else {
        let wide: i128 = n as i128;
        let mag: u64 = (-wide) as u64;
        let digits = dec_rep_u64(mag);
        let mut all: Vec<char> = Vec::new();
        all.push('-');
        let mut i: usize = 0;
        while i < digits.len()
            invariant
                i <= digits@.len(),
                all@ == seq!['-'] + digits@.take(i as int),
            decreases digits.len() - i,
        {
            all.push(digits[i]);
            i = i + 1;
            assert(seq!['-'] + digits@.take(i as int) =~= (seq!['-'] + digits@.take(i - 1)).push(
                digits@[i - 1],
            ));
        }
        assert(digits@.take(digits@.len() as int) =~= digits@);
        from_chars(&all)
    }
}

} // verus!
