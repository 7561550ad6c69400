//! Item search: which catalog rows are eligible, which match the
//! caller's term, the case-insensitive title order of the results, the
//! result cap, and the summary shape handed back. The raw rows come
//! from the fixed search statement; everything decided about them is
//! decided — and proved — here.
use vstd::prelude::*;
use vstd::seq_lib::group_seq_properties;

use crate::rows::{ItemRow, ItemSummary};
use crate::text::{
    contains_chars, lex_leq_chars, lower_chars, spec_contains, spec_extract_year, spec_lex_leq,
    spec_lower, spec_trim, str_eq, to_chars, trim_chars, extract_year,
};

verus! {

/// The capacity of one result page: search never returns more items.
pub const SEARCH_LIMIT: usize = 75;

/// The view of an optional column value, with `NULL` read as empty.
pub open spec fn spec_opt_or_empty(o: Option<String>) -> Seq<char> {
    match o {
        Some(s) => s@,
        None => Seq::empty(),
    }
}

/// First-class catalog entries only: not marked deleted, and not of
/// the attachment, note or annotation item types.
pub open spec fn spec_eligible(r: ItemRow) -> bool {
    &&& !r.deleted
    &&& r.kind_name@ != "attachment"@
    &&& r.kind_name@ != "note"@
    &&& r.kind_name@ != "annotation"@
}

/// Whether the lowered, trimmed term `t` matches a row: an empty term
/// matches everything, otherwise `t` must be a substring of the
/// lowered title, creators string or date string (any one suffices).
pub open spec fn spec_matches(r: ItemRow, t: Seq<char>) -> bool {
    ||| t.len() == 0
    ||| spec_contains(spec_lower(spec_opt_or_empty(r.title)), t)
    ||| spec_contains(spec_lower(spec_opt_or_empty(r.creators)), t)
    ||| spec_contains(spec_lower(spec_opt_or_empty(r.date)), t)
}

/// A row the search keeps: eligible and matching.
pub open spec fn spec_keep(r: ItemRow, t: Seq<char>) -> bool {
    spec_eligible(r) && spec_matches(r, t)
}

/// The kept rows, in their original order.
pub open spec fn spec_filter_rows(rows: Seq<ItemRow>, t: Seq<char>) -> Seq<ItemRow> {
    rows.filter(|r: ItemRow| spec_keep(r, t))
}

fn eligible_exec(r: &ItemRow) -> (b: bool)
    ensures
        b == spec_eligible(*r),
{
    !r.deleted && !str_eq(r.kind_name.as_str(), "attachment") && !str_eq(
        r.kind_name.as_str(),
        "note",
    ) && !str_eq(r.kind_name.as_str(), "annotation")
}

fn opt_chars(o: &Option<String>) -> (v: Vec<char>)
    ensures
        v@ == spec_opt_or_empty(*o),
{
    match o {
        Some(s) => to_chars(s.as_str()),
        None => Vec::new(),
    }
}

fn matches_exec(r: &ItemRow, t: &Vec<char>) -> (b: bool)
    ensures
        b == spec_matches(*r, t@),
{
    if t.len() == 0 {
        return true;
    }
    let title = lower_chars(&opt_chars(&r.title));
    if contains_chars(&title, t) {
        return true;
    }
    let creators = lower_chars(&opt_chars(&r.creators));
    if contains_chars(&creators, t) {
        return true;
    }
    let date = lower_chars(&opt_chars(&r.date));
    contains_chars(&date, t)
}

fn filter_rows_exec(rows: Vec<ItemRow>, t: &Vec<char>) -> (r: Vec<ItemRow>)
    ensures
        r@ == spec_filter_rows(rows@, t@),
{
    broadcast use group_seq_properties;

    let ghost orig = rows@;
    let mut rest = rows;
    let mut kept: Vec<ItemRow> = Vec::new();
    proof {
        reveal(Seq::filter);
        assert(orig.take(0) =~= Seq::<ItemRow>::empty());
    }
    while rest.len() > 0
        invariant
            rest@.len() <= orig.len(),
            rest@ == orig.skip(orig.len() - rest@.len()),
            kept@ == spec_filter_rows(orig.take(orig.len() - rest@.len()), t@),
        decreases rest.len(),
    {
        let ghost i = orig.len() - rest@.len();
        let x = rest.remove(0);
        proof {
            assert(x == orig[i]) by {
                assert(orig.skip(i)[0] == orig[i]);
            }
            assert(rest@ =~= orig.skip(i + 1));
        }
        let keep_it = eligible_exec(&x) && matches_exec(&x, t);
        if keep_it {
            kept.push(x);
        }
        proof {
            reveal(Seq::filter);
            assert(orig.take(i + 1).drop_last() =~= orig.take(i));
            assert(orig.take(i + 1).last() == orig[i]);
        }
    }
    proof {
        assert(orig.take(orig.len() as int) =~= orig);
    }
    kept
}

// --- ordering ---

/// The sort key of a row: the lowered title, with a missing title
/// reading as the empty string.
pub open spec fn spec_sort_key(r: ItemRow) -> Seq<char> {
    spec_lower(spec_opt_or_empty(r.title))
}

/// Case-insensitive title order.
pub open spec fn spec_row_leq(a: ItemRow, b: ItemRow) -> bool {
    spec_lex_leq(spec_sort_key(a), spec_sort_key(b))
}

/// `x` placed after every earlier row whose key is at or below its
/// own — a stable insertion.
pub open spec fn spec_insert_row(s: Seq<ItemRow>, x: ItemRow) -> Seq<ItemRow>
    decreases s.len(),
{
    if s.len() == 0 {
        seq![x]
    } else if spec_row_leq(s[0], x) {
        seq![s[0]] + spec_insert_row(s.drop_first(), x)
    } else {
        seq![x] + s
    }
}

/// Stable insertion sort by the case-insensitive title key.
pub open spec fn spec_sort_rows(s: Seq<ItemRow>) -> Seq<ItemRow>
    decreases s.len(),
{
    if s.len() == 0 {
        s
    } else {
        spec_insert_row(spec_sort_rows(s.drop_last()), s.last())
    }
}

/// Non-decreasing sort keys throughout.
pub open spec fn spec_sorted_rows(s: Seq<ItemRow>) -> bool {
    forall|i: int, j: int| 0 <= i < j < s.len() ==> #[trigger] spec_row_leq(s[i], s[j])
}

proof fn lemma_row_total(a: ItemRow, b: ItemRow)
    ensures
        spec_row_leq(a, b) || spec_row_leq(b, a),
{
    crate::text::lemma_lex_total(spec_sort_key(a), spec_sort_key(b));
}

proof fn lemma_row_trans(a: ItemRow, b: ItemRow, c: ItemRow)
    requires
        spec_row_leq(a, b),
        spec_row_leq(b, c),
    ensures
        spec_row_leq(a, c),
{
    crate::text::lemma_lex_trans(spec_sort_key(a), spec_sort_key(b), spec_sort_key(c));
}

/// Where the insertion lands: before the first row whose key exceeds
/// `x`'s, after everything at or below it.
proof fn lemma_insert_row_at(s: Seq<ItemRow>, x: ItemRow, j: int)
    requires
        0 <= j <= s.len(),
        forall|i: int| 0 <= i < j ==> spec_row_leq(#[trigger] s[i], x),
        j == s.len() || !spec_row_leq(s[j], x),
    ensures
        spec_insert_row(s, x) == s.take(j) + seq![x] + s.skip(j),
    decreases j,
{
    if j == 0 {
        assert(spec_insert_row(s, x) =~= s.take(0) + seq![x] + s.skip(0));
    } else {
        assert(spec_row_leq(s[0], x));
        let t = s.drop_first();
        assert(forall|i: int| 0 <= i < j - 1 ==> spec_row_leq(#[trigger] t[i], x)) by {
            assert(forall|i: int| 0 <= i < j - 1 ==> t[i] == s[i + 1]);
        }
        lemma_insert_row_at(t, x, j - 1);
        assert(seq![s[0]] + (t.take(j - 1) + seq![x] + t.skip(j - 1)) =~= s.take(j) + seq![x]
            + s.skip(j));
    }
}

/// Inserting into a sorted run keeps it sorted, and adds exactly `x`.
proof fn lemma_insert_row_sorted(s: Seq<ItemRow>, x: ItemRow)
    requires
        spec_sorted_rows(s),
    ensures
        spec_sorted_rows(spec_insert_row(s, x)),
        spec_insert_row(s, x).len() == s.len() + 1,
        forall|k: int|
            0 <= k < spec_insert_row(s, x).len() ==> (#[trigger] spec_insert_row(s, x)[k] == x
                || s.contains(spec_insert_row(s, x)[k])),
    decreases s.len(),
{
    if s.len() == 0 {
    } else if spec_row_leq(s[0], x) {
        let t = s.drop_first();
        assert(spec_sorted_rows(t)) by {
            assert(forall|i: int, j: int|
                0 <= i < j < t.len() ==> t[i] == s[i + 1] && t[j] == s[j + 1]);
        }
        lemma_insert_row_sorted(t, x);
        let ins = spec_insert_row(s, x);
        let tins = spec_insert_row(t, x);
        assert(ins == seq![s[0]] + tins);
        assert forall|i: int, j: int| 0 <= i < j < ins.len() implies #[trigger] spec_row_leq(
            ins[i],
            ins[j],
        ) by {
            if i == 0 {
                assert(ins[j] == tins[j - 1]);
                if tins[j - 1] == x {
                    assert(spec_row_leq(s[0], x));
                } else {
                    assert(t.contains(tins[j - 1]));
                    let w = choose|w: int| 0 <= w < t.len() && t[w] == tins[j - 1];
                    assert(s[w + 1] == t[w]);
                    assert(spec_row_leq(s[0], s[w + 1]));
                }
            } else {
                assert(ins[i] == tins[i - 1] && ins[j] == tins[j - 1]);
            }
        }
        assert forall|k: int| 0 <= k < ins.len() implies (#[trigger] ins[k] == x || s.contains(
            ins[k],
        )) by {
            if k == 0 {
                assert(s.contains(s[0])) by {
                    assert(s[0] == s[0]);
                }
            } else {
                assert(ins[k] == tins[k - 1]);
                if tins[k - 1] != x {
                    assert(t.contains(tins[k - 1]));
                    let w = choose|w: int| 0 <= w < t.len() && t[w] == tins[k - 1];
                    assert(s[w + 1] == t[w]);
                }
            }
        }
    } else {
        let ins = spec_insert_row(s, x);
        assert(ins == seq![x] + s);
        lemma_row_total(s[0], x);
        assert(spec_row_leq(x, s[0]));
        assert forall|i: int, j: int| 0 <= i < j < ins.len() implies #[trigger] spec_row_leq(
            ins[i],
            ins[j],
        ) by {
            if i == 0 {
                assert(ins[j] == s[j - 1]);
                if j - 1 == 0 {
                } else {
                    assert(spec_row_leq(s[0], s[j - 1]));
                    lemma_row_trans(x, s[0], s[j - 1]);
                }
            } else {
                assert(ins[i] == s[i - 1] && ins[j] == s[j - 1]);
            }
        }
        assert forall|k: int| 0 <= k < ins.len() implies (#[trigger] ins[k] == x || s.contains(
            ins[k],
        )) by {
            if k > 0 {
                assert(ins[k] == s[k - 1]);
            }
        }
    }
}

/// The sorted run is sorted, and holds exactly the input's rows.
pub proof fn lemma_sort_rows_sorted(s: Seq<ItemRow>)
    ensures
        spec_sorted_rows(spec_sort_rows(s)),
        spec_sort_rows(s).len() == s.len(),
        forall|k: int|
            0 <= k < spec_sort_rows(s).len() ==> s.contains(#[trigger] spec_sort_rows(s)[k]),
    decreases s.len(),
{
    if s.len() == 0 {
    } else {
        let t = s.drop_last();
        lemma_sort_rows_sorted(t);
        lemma_insert_row_sorted(spec_sort_rows(t), s.last());
        let out = spec_sort_rows(s);
        assert forall|k: int| 0 <= k < out.len() implies s.contains(#[trigger] out[k]) by {
            if out[k] == s.last() {
                assert(s[s.len() - 1] == s.last());
            } else {
                assert(spec_sort_rows(t).contains(out[k]));
                let w = choose|w: int| 0 <= w < spec_sort_rows(t).len() && spec_sort_rows(t)[w]
                    == out[k];
                assert(t.contains(spec_sort_rows(t)[w]));
                let v = choose|v: int| 0 <= v < t.len() && t[v] == out[k];
                assert(s[v] == t[v]);
            }
        }
    }
}

fn row_leq_exec(a: &ItemRow, b: &ItemRow) -> (r: bool)
    ensures
        r == spec_row_leq(*a, *b),
{
    let ka = lower_chars(&opt_chars(&a.title));
    let kb = lower_chars(&opt_chars(&b.title));
    lex_leq_chars(&ka, &kb)
}

fn insert_row_exec(v: Vec<ItemRow>, x: ItemRow) -> (r: Vec<ItemRow>)
    ensures
        r@ == spec_insert_row(v@, x),
{
    let mut v = v;
    let mut j: usize = 0;
    while j < v.len() && row_leq_exec(&v[j], &x)
        invariant
            j <= v@.len(),
            forall|i: int| 0 <= i < j ==> spec_row_leq(#[trigger] v@[i], x),
        decreases v.len() - j,
    {
        j = j + 1;
    }
    proof {
        lemma_insert_row_at(v@, x, j as int);
    }
    let ghost before = v@;
    v.insert(j, x);
    proof {
        assert(before.insert(j as int, x) =~= before.take(j as int) + seq![x] + before.skip(
            j as int,
        ));
    }
    v
}

fn sort_rows_exec(rows: Vec<ItemRow>) -> (r: Vec<ItemRow>)
    ensures
        r@ == spec_sort_rows(rows@),
{
    let ghost orig = rows@;
    let mut rest = rows;
    let mut out: Vec<ItemRow> = Vec::new();
    proof {
        assert(orig.take(0) =~= Seq::<ItemRow>::empty());
    }
    while rest.len() > 0
        invariant
            rest@.len() <= orig.len(),
            rest@ == orig.skip(orig.len() - rest@.len()),
            out@ == spec_sort_rows(orig.take(orig.len() - rest@.len())),
        decreases rest.len(),
    {
        let ghost i = orig.len() - rest@.len();
        let x = rest.remove(0);
        proof {
            assert(x == orig[i]) by {
                assert(orig.skip(i)[0] == orig[i]);
            }
            assert(rest@ =~= orig.skip(i + 1));
        }
        out = insert_row_exec(out, x);
        proof {
            assert(orig.take(i + 1).drop_last() =~= orig.take(i));
            assert(orig.take(i + 1).last() == orig[i]);
        }
    }
    proof {
        assert(orig.take(orig.len() as int) =~= orig);
    }
    out
}

// --- the result shape ---

/// How one summary is built from its source row: the key verbatim,
/// every missing string column — title, creators, date — read as the
/// empty string, never null, and the year extracted from the
/// free-text date.
pub open spec fn spec_summary_of(s: ItemSummary, r: ItemRow) -> bool {
    &&& s.key@ == r.key@
    &&& s.title@ == spec_opt_or_empty(r.title)
    &&& s.creators@ == spec_opt_or_empty(r.creators)
    &&& s.year@ == spec_extract_year(spec_opt_or_empty(r.date))
}

fn to_summary(row: ItemRow) -> (s: ItemSummary)
    ensures
        spec_summary_of(s, row),
{
    let year = match &row.date {
        Some(d) => extract_year(d.as_str()),
        None => String::new(),
    };
    let title = match row.title {
        Some(t) => t,
        None => String::new(),
    };
    let creators = match row.creators {
        Some(c) => c,
        None => String::new(),
    };
    ItemSummary { key: row.key, title, creators, year }
}

/// At most the first `SEARCH_LIMIT` entries.
pub open spec fn spec_take_limit(s: Seq<ItemRow>) -> Seq<ItemRow> {
    if s.len() <= SEARCH_LIMIT {
        s
    } else {
        s.take(SEARCH_LIMIT as int)
    }
}

/// The rows a search over `rows` with the raw query `q` answers with,
/// in order: the kept rows, sorted by case-insensitive title, capped
/// at one page.
pub open spec fn spec_search_order(rows: Seq<ItemRow>, q: Seq<char>) -> Seq<ItemRow> {
    spec_take_limit(spec_sort_rows(spec_filter_rows(rows, spec_lower(spec_trim(q)))))
}

/// The search pipeline over raw catalog rows: trims the query, keeps
/// the eligible rows the term matches, orders them by lowered title,
/// caps the page, and shapes each row into its summary.
pub fn search_summaries(rows: Vec<ItemRow>, query: &str) -> (r: Vec<ItemSummary>)
    ensures
        r@.len() == spec_search_order(rows@, query@).len(),
        forall|i: int|
            0 <= i < r@.len() ==> spec_summary_of(r@[i], spec_search_order(rows@, query@)[i]),
{
    let t = lower_chars(&trim_chars(&to_chars(query)));
    let kept = filter_rows_exec(rows, &t);
    let sorted = sort_rows_exec(kept);
    let mut limited = sorted;
    limited.truncate(SEARCH_LIMIT);
    let ghost order = spec_search_order(rows@, query@);
    proof {
        if order.len() <= SEARCH_LIMIT {
            assert(limited@ =~= order);
        } else {
            assert(limited@ =~= order);
        }
    }
    let mut rest = limited;
    let mut out: Vec<ItemSummary> = Vec::new();
    while rest.len() > 0
        invariant
            out@.len() + rest@.len() == order.len(),
            rest@ == order.skip(out@.len() as int),
            forall|i: int| 0 <= i < out@.len() ==> spec_summary_of(#[trigger] out@[i], order[i]),
        decreases rest.len(),
    {
        let ghost i = out@.len() as int;
        let x = rest.remove(0);
        proof {
            assert(x == order[i]) by {
                assert(order.skip(i)[0] == order[i]);
            }
            assert(rest@ =~= order.skip(i + 1));
        }
        out.push(to_summary(x));
    }
    proof {
        assert(rest@.len() == 0);
    }
    out
}

// --- what the pipeline guarantees, as standalone laws ---

/// A search answer never exceeds one page.
pub proof fn lemma_search_len(rows: Seq<ItemRow>, q: Seq<char>)
    ensures
        spec_search_order(rows, q).len() <= SEARCH_LIMIT,
{
}

/// Every search result's source row was kept on merit: it is an
/// eligible (in particular, not deleted) catalog row, and the trimmed,
/// lowered term matches it. In particular a deleted row never
/// surfaces, however well it would otherwise match.
pub proof fn lemma_search_results_kept(rows: Seq<ItemRow>, q: Seq<char>)
    ensures
        forall|k: int|
            0 <= k < spec_search_order(rows, q).len() ==> spec_keep(
                #[trigger] spec_search_order(rows, q)[k],
                spec_lower(spec_trim(q)),
            ),
{
    broadcast use vstd::seq_lib::group_filter_ensures;

    let t = spec_lower(spec_trim(q));
    let f = spec_filter_rows(rows, t);
    let s = spec_sort_rows(f);
    let pred = |r: ItemRow| spec_keep(r, t);
    lemma_sort_rows_sorted(f);
    assert forall|k: int| 0 <= k < spec_search_order(rows, q).len() implies spec_keep(
        #[trigger] spec_search_order(rows, q)[k],
        t,
    ) by {
        assert(spec_search_order(rows, q)[k] == s[k]);
        assert(f.contains(s[k]));
        let w = choose|w: int| 0 <= w < f.len() && f[w] == s[k];
        assert(pred(f[w]));
    }
}

/// Search ordering: of any two results, the earlier one's lowered
/// title is at or before the later one's in lexicographic order.
pub proof fn lemma_search_ordering(rows: Seq<ItemRow>, q: Seq<char>, out: Seq<ItemSummary>)
    requires
        out.len() == spec_search_order(rows, q).len(),
        forall|i: int|
            0 <= i < out.len() ==> spec_summary_of(#[trigger] out[i], spec_search_order(rows, q)[i]),
    ensures
        forall|i: int, j: int|
            0 <= i < j < out.len() ==> spec_lex_leq(
                spec_lower(#[trigger] out[i].title@),
                spec_lower(#[trigger] out[j].title@),
            ),
{
    let t = spec_lower(spec_trim(q));
    let f = spec_filter_rows(rows, t);
    let s = spec_sort_rows(f);
    let order = spec_search_order(rows, q);
    lemma_sort_rows_sorted(f);
    assert forall|i: int, j: int| 0 <= i < j < out.len() implies spec_lex_leq(
        spec_lower(#[trigger] out[i].title@),
        spec_lower(#[trigger] out[j].title@),
    ) by {
        assert(order[i] == s[i] && order[j] == s[j]);
        assert(spec_row_leq(s[i], s[j]));
        assert(spec_sort_key(order[i]) == spec_lower(out[i].title@));
        assert(spec_sort_key(order[j]) == spec_lower(out[j].title@));
    }
}

/// Search filter: an empty (or all-whitespace) query keeps exactly
/// the eligible rows — the same set the unfiltered catalog query
/// would answer with.
pub proof fn lemma_search_empty_term(rows: Seq<ItemRow>, q: Seq<char>)
    requires
        spec_trim(q).len() == 0,
    ensures
        spec_filter_rows(rows, spec_lower(spec_trim(q))) == rows.filter(
            (|r: ItemRow| spec_eligible(r)),
        ),
    decreases rows.len(),
{
    reveal(Seq::filter);
    let t = spec_lower(spec_trim(q));
    assert(t.len() == 0);
    if rows.len() > 0 {
        lemma_search_empty_term(rows.drop_last(), q);
    }
}

} // verus!
