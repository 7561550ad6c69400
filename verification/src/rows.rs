//! The shapes this layer works with: raw rows as the database hands
//! them back, and the denormalized results callers receive. Raw rows
//! carry plain values only; every query's real work — filtering,
//! ordering, defaulting, formatting — happens in verified code over
//! these types.
use vstd::prelude::*;

verus! {

/// One candidate catalog row from the search statement: the item key,
/// the optional title, aggregated creators and date field values, the
/// item type's name, and whether the item is marked deleted.
pub struct ItemRow {
    pub key: String,
    pub title: Option<String>,
    pub creators: Option<String>,
    pub date: Option<String>,
    pub kind_name: String,
    pub deleted: bool,
}

/// Builds an `ItemRow` from the columns the search statement selects,
/// with the deleted marker still in its stored integer form.
pub fn item_row(
    key: String,
    title: Option<String>,
    creators: Option<String>,
    date: Option<String>,
    kind_name: String,
    deleted: i64,
) -> (r: ItemRow)
    ensures
        r.key == key,
        r.title == title,
        r.creators == creators,
        r.date == date,
        r.kind_name == kind_name,
        r.deleted == (deleted != 0),
{
    ItemRow { key, title, creators, date, kind_name, deleted: deleted != 0 }
}

/// One search result: creators joined into a single display string,
/// the year extracted from the free-text date field.
pub struct ItemSummary {
    pub key: String,
    pub title: String,
    pub creators: String,
    pub year: String,
}

/// One creator of an item: a single-name organizational creator, or a
/// personal creator with given and family name.
pub enum Creator {
    Org { name: String },
    Personal { first_name: String, last_name: String },
}

/// The full detail of one item: its type name, every stored field
/// name/value pair verbatim, and its creators in stored order. The
/// wire shape's always-empty `meta` object carries no data and is
/// added at serialization.
pub struct ItemDetail {
    pub key: String,
    pub item_type: String,
    pub fields: Vec<(String, String)>,
    pub creators: Vec<Creator>,
}

/// One raw annotation row: the owning attachment's internal id, the
/// stored sort key, the annotation's internal id — the three keys the
/// reading order is built from — then the display columns, the stored
/// annotation-type code, and the deleted marker.
pub struct AnnotationRow {
    pub attachment_id: i64,
    pub sort_key: String,
    pub annotation_id: i64,
    pub key: String,
    pub attachment_key: String,
    pub color: String,
    pub text: String,
    pub comment: String,
    pub page_label: String,
    pub anno_type: i64,
    pub deleted: bool,
}

/// Builds an `AnnotationRow` from the columns the annotation statement
/// selects, with the deleted marker still in its stored integer form.
pub fn annotation_row(
    attachment_id: i64,
    sort_key: String,
    annotation_id: i64,
    key: String,
    attachment_key: String,
    color: String,
    text: String,
    comment: String,
    page_label: String,
    anno_type: i64,
    deleted: i64,
) -> (r: AnnotationRow)
    ensures
        r.attachment_id == attachment_id,
        r.sort_key == sort_key,
        r.annotation_id == annotation_id,
        r.key == key,
        r.attachment_key == attachment_key,
        r.color == color,
        r.text == text,
        r.comment == comment,
        r.page_label == page_label,
        r.anno_type == anno_type,
        r.deleted == (deleted != 0),
{
    AnnotationRow {
        attachment_id,
        sort_key,
        annotation_id,
        key,
        attachment_key,
        color,
        text,
        comment,
        page_label,
        anno_type,
        deleted: deleted != 0,
    }
}

/// One annotation in reading order: trimmed display fields, the color
/// lowercased, the zero-based position in the traversal, and whether
/// the annotation marks an image region.
pub struct Annotation {
    pub key: String,
    pub attachment_key: String,
    pub color_hex: String,
    pub text: String,
    pub comment: String,
    pub page_label: String,
    pub sort_index: usize,
    pub is_image_selection: bool,
}

} // verus!
