//! Annotation retrieval: the reading order over every attachment of
//! one parent item, the zero-based position each annotation is given,
//! and the trimming and lowercasing of its display fields. The raw
//! rows come from the fixed traversal statement; their order here is
//! decided — and proved — by the three stored keys alone, so one
//! database state always yields one result.
use vstd::prelude::*;

use crate::rows::{Annotation, AnnotationRow};
use crate::text::{
    lower_of, spec_lex_leq, spec_trim, to_chars, trim_string, lex_leq_chars, unicode_lowercase,
};

verus! {

/// Annotations not marked deleted, in their original row order.
pub open spec fn spec_live_rows(rows: Seq<AnnotationRow>) -> Seq<AnnotationRow> {
    rows.filter(|r: AnnotationRow| !r.deleted)
}

/// Reading order: by owning attachment's internal id, then by the
/// stored sort key, then by the annotation's own internal id.
pub open spec fn spec_ann_leq(a: AnnotationRow, b: AnnotationRow) -> bool {
    if a.attachment_id < b.attachment_id {
        true
    } else if a.attachment_id > b.attachment_id {
        false
    } else if !spec_lex_leq(a.sort_key@, b.sort_key@) {
        false
    } else if !spec_lex_leq(b.sort_key@, a.sort_key@) {
        true
    } else {
        a.annotation_id <= b.annotation_id
    }
}

proof fn lemma_ann_total(a: AnnotationRow, b: AnnotationRow)
    ensures
        spec_ann_leq(a, b) || spec_ann_leq(b, a),
{
    crate::text::lemma_lex_total(a.sort_key@, b.sort_key@);
}

proof fn lemma_ann_trans(a: AnnotationRow, b: AnnotationRow, c: AnnotationRow)
    requires
        spec_ann_leq(a, b),
        spec_ann_leq(b, c),
    ensures
        spec_ann_leq(a, c),
{
    if a.attachment_id == b.attachment_id && b.attachment_id == c.attachment_id {
        let ak = a.sort_key@;
        let bk = b.sort_key@;
        let ck = c.sort_key@;
        crate::text::lemma_lex_trans(ak, bk, ck);
        if spec_lex_leq(ck, ak) {
            crate::text::lemma_lex_trans(ck, ak, bk);
            crate::text::lemma_lex_trans(bk, ck, ak);
        }
    }
}

/// `x` placed after every earlier row at or below it in reading
/// order — a stable insertion.
pub open spec fn spec_ann_insert(s: Seq<AnnotationRow>, x: AnnotationRow) -> Seq<AnnotationRow>
    decreases s.len(),
{
    if s.len() == 0 {
        seq![x]
    } else if spec_ann_leq(s[0], x) {
        seq![s[0]] + spec_ann_insert(s.drop_first(), x)
    } else {
        seq![x] + s
    }
}

/// Stable insertion sort into reading order.
pub open spec fn spec_ann_sort(s: Seq<AnnotationRow>) -> Seq<AnnotationRow>
    decreases s.len(),
{
    if s.len() == 0 {
        s
    } else {
        spec_ann_insert(spec_ann_sort(s.drop_last()), s.last())
    }
}

/// Non-decreasing reading order throughout.
pub open spec fn spec_ann_sorted(s: Seq<AnnotationRow>) -> bool {
    forall|i: int, j: int| 0 <= i < j < s.len() ==> #[trigger] spec_ann_leq(s[i], s[j])
}

proof fn lemma_ann_insert_at(s: Seq<AnnotationRow>, x: AnnotationRow, j: int)
    requires
        0 <= j <= s.len(),
        forall|i: int| 0 <= i < j ==> spec_ann_leq(#[trigger] s[i], x),
        j == s.len() || !spec_ann_leq(s[j], x),
    ensures
        spec_ann_insert(s, x) == s.take(j) + seq![x] + s.skip(j),
    decreases j,
{
    if j == 0 {
        assert(spec_ann_insert(s, x) =~= s.take(0) + seq![x] + s.skip(0));
    } else {
        let t = s.drop_first();
        assert(forall|i: int| 0 <= i < j - 1 ==> spec_ann_leq(#[trigger] t[i], x)) by {
            assert(forall|i: int| 0 <= i < j - 1 ==> t[i] == s[i + 1]);
        }
        lemma_ann_insert_at(t, x, j - 1);
        assert(seq![s[0]] + (t.take(j - 1) + seq![x] + t.skip(j - 1)) =~= s.take(j) + seq![x]
            + s.skip(j));
    }
}

proof fn lemma_ann_insert_sorted(s: Seq<AnnotationRow>, x: AnnotationRow)
    requires
        spec_ann_sorted(s),
    ensures
        spec_ann_sorted(spec_ann_insert(s, x)),
        spec_ann_insert(s, x).len() == s.len() + 1,
        forall|k: int|
            0 <= k < spec_ann_insert(s, x).len() ==> (#[trigger] spec_ann_insert(s, x)[k] == x
                || s.contains(spec_ann_insert(s, x)[k])),
    decreases s.len(),
{
    if s.len() == 0 {
    } else if spec_ann_leq(s[0], x) {
        let t = s.drop_first();
        assert(spec_ann_sorted(t)) by {
            assert(forall|i: int, j: int|
                0 <= i < j < t.len() ==> t[i] == s[i + 1] && t[j] == s[j + 1]);
        }
        lemma_ann_insert_sorted(t, x);
        let ins = spec_ann_insert(s, x);
        let tins = spec_ann_insert(t, x);
        assert(ins == seq![s[0]] + tins);
        assert forall|i: int, j: int| 0 <= i < j < ins.len() implies #[trigger] spec_ann_leq(
            ins[i],
            ins[j],
        ) by {
            if i == 0 {
                assert(ins[j] == tins[j - 1]);
                if tins[j - 1] == x {
                } else {
                    assert(t.contains(tins[j - 1]));
                    let w = choose|w: int| 0 <= w < t.len() && t[w] == tins[j - 1];
                    assert(s[w + 1] == t[w]);
                    assert(spec_ann_leq(s[0], s[w + 1]));
                }
            } else {
                assert(ins[i] == tins[i - 1] && ins[j] == tins[j - 1]);
            }
        }
        assert forall|k: int| 0 <= k < ins.len() implies (#[trigger] ins[k] == x || s.contains(
            ins[k],
        )) by {
            if k == 0 {
                assert(s.contains(s[0])) by {
                    assert(s[0] == s[0]);
                }
            } else {
                assert(ins[k] == tins[k - 1]);
                if tins[k - 1] != x {
                    assert(t.contains(tins[k - 1]));
                    let w = choose|w: int| 0 <= w < t.len() && t[w] == tins[k - 1];
                    assert(s[w + 1] == t[w]);
                }
            }
        }
    } else {
        let ins = spec_ann_insert(s, x);
        assert(ins == seq![x] + s);
        lemma_ann_total(s[0], x);
        assert forall|i: int, j: int| 0 <= i < j < ins.len() implies #[trigger] spec_ann_leq(
            ins[i],
            ins[j],
        ) by {
            if i == 0 {
                assert(ins[j] == s[j - 1]);
                if j - 1 == 0 {
                } else {
                    assert(spec_ann_leq(s[0], s[j - 1]));
                    lemma_ann_trans(x, s[0], s[j - 1]);
                }
            } else {
                assert(ins[i] == s[i - 1] && ins[j] == s[j - 1]);
            }
        }
        assert forall|k: int| 0 <= k < ins.len() implies (#[trigger] ins[k] == x || s.contains(
            ins[k],
        )) by {
            if k > 0 {
                assert(ins[k] == s[k - 1]);
            }
        }
    }
}

/// The sorted run is in reading order and holds exactly the input's rows.
pub proof fn lemma_ann_sort_sorted(s: Seq<AnnotationRow>)
    ensures
        spec_ann_sorted(spec_ann_sort(s)),
        spec_ann_sort(s).len() == s.len(),
        forall|k: int|
            0 <= k < spec_ann_sort(s).len() ==> s.contains(#[trigger] spec_ann_sort(s)[k]),
    decreases s.len(),
{
    if s.len() == 0 {
    } else {
        let t = s.drop_last();
        lemma_ann_sort_sorted(t);
        lemma_ann_insert_sorted(spec_ann_sort(t), s.last());
        let out = spec_ann_sort(s);
        assert forall|k: int| 0 <= k < out.len() implies s.contains(#[trigger] out[k]) by {
            if out[k] == s.last() {
                assert(s[s.len() - 1] == s.last());
            } else {
                assert(spec_ann_sort(t).contains(out[k]));
                let w = choose|w: int| 0 <= w < spec_ann_sort(t).len() && spec_ann_sort(t)[w]
                    == out[k];
                assert(t.contains(spec_ann_sort(t)[w]));
                let v = choose|v: int| 0 <= v < t.len() && t[v] == out[k];
                assert(s[v] == t[v]);
            }
        }
    }
}

fn ann_leq_exec(a: &AnnotationRow, b: &AnnotationRow) -> (r: bool)
    ensures
        r == spec_ann_leq(*a, *b),
{
    if a.attachment_id < b.attachment_id {
        return true;
    }
    if a.attachment_id > b.attachment_id {
        return false;
    }
    let ka = to_chars(a.sort_key.as_str());
    let kb = to_chars(b.sort_key.as_str());
    if !lex_leq_chars(&ka, &kb) {
        return false;
    }
    if !lex_leq_chars(&kb, &ka) {
        return true;
    }
    a.annotation_id <= b.annotation_id
}

fn ann_insert_exec(v: Vec<AnnotationRow>, x: AnnotationRow) -> (r: Vec<AnnotationRow>)
    ensures
        r@ == spec_ann_insert(v@, x),
{
    let mut v = v;
    let mut j: usize = 0;
    while j < v.len() && ann_leq_exec(&v[j], &x)
        invariant
            j <= v@.len(),
            forall|i: int| 0 <= i < j ==> spec_ann_leq(#[trigger] v@[i], x),
        decreases v.len() - j,
    {
        j = j + 1;
    }
    proof {
        lemma_ann_insert_at(v@, x, j as int);
    }
    let ghost before = v@;
    v.insert(j, x);
    proof {
        assert(before.insert(j as int, x) =~= before.take(j as int) + seq![x] + before.skip(
            j as int,
        ));
    }
    v
}

fn ann_filter_exec(rows: Vec<AnnotationRow>) -> (r: Vec<AnnotationRow>)
    ensures
        r@ == spec_live_rows(rows@),
{
    let ghost orig = rows@;
    let mut rest = rows;
    let mut kept: Vec<AnnotationRow> = Vec::new();
    proof {
        reveal(Seq::filter);
        assert(orig.take(0) =~= Seq::<AnnotationRow>::empty());
    }
    while rest.len() > 0
        invariant
            rest@.len() <= orig.len(),
            rest@ == orig.skip(orig.len() - rest@.len()),
            kept@ == spec_live_rows(orig.take(orig.len() - rest@.len())),
        decreases rest.len(),
    {
        let ghost i = orig.len() - rest@.len();
        let x = rest.remove(0);
        proof {
            assert(x == orig[i]) by {
                assert(orig.skip(i)[0] == orig[i]);
            }
            assert(rest@ =~= orig.skip(i + 1));
        }
        if !x.deleted {
            kept.push(x);
        }
        proof {
            reveal(Seq::filter);
            assert(orig.take(i + 1).drop_last() =~= orig.take(i));
            assert(orig.take(i + 1).last() == orig[i]);
        }
    }
    proof {
        assert(orig.take(orig.len() as int) =~= orig);
    }
    kept
}

fn ann_sort_exec(rows: Vec<AnnotationRow>) -> (r: Vec<AnnotationRow>)
    ensures
        r@ == spec_ann_sort(rows@),
{
    let ghost orig = rows@;
    let mut rest = rows;
    let mut out: Vec<AnnotationRow> = Vec::new();
    proof {
        assert(orig.take(0) =~= Seq::<AnnotationRow>::empty());
    }
    while rest.len() > 0
        invariant
            rest@.len() <= orig.len(),
            rest@ == orig.skip(orig.len() - rest@.len()),
            out@ == spec_ann_sort(orig.take(orig.len() - rest@.len())),
        decreases rest.len(),
    {
        let ghost i = orig.len() - rest@.len();
        let x = rest.remove(0);
        proof {
            assert(x == orig[i]) by {
                assert(orig.skip(i)[0] == orig[i]);
            }
            assert(rest@ =~= orig.skip(i + 1));
        }
        out = ann_insert_exec(out, x);
        proof {
            assert(orig.take(i + 1).drop_last() =~= orig.take(i));
            assert(orig.take(i + 1).last() == orig[i]);
        }
    }
    proof {
        assert(orig.take(orig.len() as int) =~= orig);
    }
    out
}

/// The live rows of the traversal, in reading order: the order every
/// result position is assigned from.
pub open spec fn spec_annotation_order(rows: Seq<AnnotationRow>) -> Seq<AnnotationRow> {
    spec_ann_sort(spec_live_rows(rows))
}

/// How one result is built from its source row and its zero-based
/// position: key and attachment key verbatim, color trimmed and then
/// Unicode-lowercased, text, comment and page label trimmed, the
/// position as `sort_index`, and the image mark exactly when the
/// stored type code is the image-region type, 3.
pub open spec fn spec_annotation_of(a: Annotation, r: AnnotationRow, idx: int) -> bool {
    &&& a.key@ == r.key@
    &&& a.attachment_key@ == r.attachment_key@
    &&& a.color_hex@ == lower_of(spec_trim(r.color@))
    &&& a.text@ == spec_trim(r.text@)
    &&& a.comment@ == spec_trim(r.comment@)
    &&& a.page_label@ == spec_trim(r.page_label@)
    &&& a.sort_index == idx
    &&& a.is_image_selection == (r.anno_type == 3)
}

fn to_annotation(row: AnnotationRow, idx: usize) -> (a: Annotation)
    ensures
        spec_annotation_of(a, row, idx as int),
{
    let color = unicode_lowercase(trim_string(row.color.as_str()).as_str());
    let text = trim_string(row.text.as_str());
    let comment = trim_string(row.comment.as_str());
    let page_label = trim_string(row.page_label.as_str());
    Annotation {
        key: row.key,
        attachment_key: row.attachment_key,
        color_hex: color,
        text,
        comment,
        page_label,
        sort_index: idx,
        is_image_selection: row.anno_type == 3,
    }
}

/// The annotation pipeline over raw traversal rows: drops deleted
/// annotations, sorts the rest into reading order, and shapes each
/// row into its result, numbering positions from zero.
pub fn annotations_from_rows(rows: Vec<AnnotationRow>) -> (r: Vec<Annotation>)
    ensures
        r@.len() == spec_annotation_order(rows@).len(),
        forall|i: int|
            0 <= i < r@.len() ==> spec_annotation_of(
                #[trigger] r@[i],
                spec_annotation_order(rows@)[i],
                i,
            ),
{
    let kept = ann_filter_exec(rows);
    let sorted = ann_sort_exec(kept);
    let ghost order = spec_annotation_order(rows@);
    let mut rest = sorted;
    let mut out: Vec<Annotation> = Vec::new();
    while rest.len() > 0
        invariant
            out@.len() + rest@.len() == order.len(),
            rest@ == order.skip(out@.len() as int),
            forall|i: int|
                0 <= i < out@.len() ==> spec_annotation_of(#[trigger] out@[i], order[i], i),
        decreases rest.len(),
    {
        let ghost i = out@.len() as int;
        let x = rest.remove(0);
        proof {
            assert(x == order[i]) by {
                assert(order.skip(i)[0] == order[i]);
            }
            assert(rest@ =~= order.skip(i + 1));
        }
        let idx = out.len();
        out.push(to_annotation(x, idx));
    }
    out
}

/// Annotation ordering is deterministic: two results built over the
/// same raw rows agree everywhere, position by position — re-running
/// the retrieval on an unchanged database reassigns identical
/// `sort_index` values.
pub proof fn lemma_annotation_order_deterministic(
    rows: Seq<AnnotationRow>,
    r1: Seq<Annotation>,
    r2: Seq<Annotation>,
)
    requires
        r1.len() == spec_annotation_order(rows).len(),
        forall|i: int|
            0 <= i < r1.len() ==> spec_annotation_of(#[trigger] r1[i], spec_annotation_order(rows)[i], i),
        r2.len() == spec_annotation_order(rows).len(),
        forall|i: int|
            0 <= i < r2.len() ==> spec_annotation_of(#[trigger] r2[i], spec_annotation_order(rows)[i], i),
    ensures
        r1.len() == r2.len(),
        forall|i: int|
            0 <= i < r1.len() ==> {
                &&& #[trigger] r1[i].key@ == r2[i].key@
                &&& r1[i].attachment_key@ == r2[i].attachment_key@
                &&& r1[i].color_hex@ == r2[i].color_hex@
                &&& r1[i].text@ == r2[i].text@
                &&& r1[i].comment@ == r2[i].comment@
                &&& r1[i].page_label@ == r2[i].page_label@
                &&& r1[i].sort_index == r2[i].sort_index
                &&& r1[i].is_image_selection == r2[i].is_image_selection
            },
{
}

/// A deleted annotation never appears: every result position comes
/// from a live row.
pub proof fn lemma_annotations_exclude_deleted(rows: Seq<AnnotationRow>)
    ensures
        forall|k: int|
            0 <= k < spec_annotation_order(rows).len() ==> !(
            #[trigger] spec_annotation_order(rows)[k]).deleted,
{
    broadcast use vstd::seq_lib::group_filter_ensures;

    let f = spec_live_rows(rows);
    let s = spec_ann_sort(f);
    let pred = |r: AnnotationRow| !r.deleted;
    lemma_ann_sort_sorted(f);
    assert forall|k: int| 0 <= k < spec_annotation_order(rows).len() implies !(
    #[trigger] spec_annotation_order(rows)[k]).deleted by {
        assert(spec_annotation_order(rows)[k] == s[k]);
        assert(f.contains(s[k]));
        let w = choose|w: int| 0 <= w < f.len() && f[w] == s[k];
        assert(pred(f[w]));
    }
}

} // verus!
