use zotero_local::images::{cached_image_candidates, first_existing};

#[test]
fn personal_scope_probes_only_the_personal_path() {
    let c = cached_image_candidates("/prof", "ANN1", "user", None);
    assert_eq!(c, vec!["/prof/cache/library/ANN1.png".to_string()]);
    let with_group_row = cached_image_candidates("/prof", "ANN1", "user", Some(42));
    assert_eq!(with_group_row, vec!["/prof/cache/library/ANN1.png".to_string()]);
}

#[test]
fn group_scope_probes_personal_then_both_group_layouts() {
    let c = cached_image_candidates("/prof", "ANN1", "group", Some(42));
    assert_eq!(
        c,
        vec![
            "/prof/cache/library/ANN1.png".to_string(),
            "/prof/cache/groups/42/ANN1.png".to_string(),
            "/prof/cache/groups/42/library/ANN1.png".to_string(),
        ]
    );
}

#[test]
fn group_scope_without_group_id_stays_personal() {
    let c = cached_image_candidates("/prof", "ANN1", "group", None);
    assert_eq!(c.len(), 1);
}

#[test]
fn group_id_renders_as_plain_decimal() {
    let c = cached_image_candidates("/p", "A", "group", Some(907));
    assert_eq!(c[1], "/p/cache/groups/907/A.png");
    let negative = cached_image_candidates("/p", "A", "group", Some(-5));
    assert_eq!(negative[1], "/p/cache/groups/-5/A.png");
}

#[test]
fn first_existing_picks_the_earliest_hit() {
    assert_eq!(first_existing(&vec![false, true, true]), Some(1));
    assert_eq!(first_existing(&vec![true, false]), Some(0));
    assert_eq!(first_existing(&vec![false, false]), None);
    assert_eq!(first_existing(&vec![]), None);
}
