use fedmod::community_tag::{
    reconcile_diff, CommunityTag, CommunityTagInsertForm, CommunityTagUpdateForm, PostCommunityTag,
};

fn remote(ap_id: &str, name: &str) -> CommunityTagInsertForm {
    CommunityTagInsertForm {
        ap_id: ap_id.to_string(),
        name: name.to_string(),
        display_name: Some(format!("{} display", name)),
        summary: None,
        community_id: 1,
        deleted: Some(false),
        color: None,
    }
}

fn local(id: u64, ap_id: &str, name: &str, deleted: bool) -> CommunityTag {
    CommunityTag {
        id,
        ap_id: ap_id.to_string(),
        name: name.to_string(),
        display_name: None,
        summary: None,
        community_id: 1,
        published_at: 10,
        updated_at: None,
        deleted,
        color: "red".to_string(),
    }
}

#[test]
fn reconcile_updates_inserts_and_tombstones() {
    // Remote set [A, B] against local [A live, C live]: A updated,
    // B inserted, C tombstoned.
    let mut tags = vec![local(1, "A", "x", false), local(2, "C", "z", false)];
    let forms = vec![remote("A", "x"), remote("B", "y")];
    let diff = CommunityTag::update_many(&mut tags, forms, 100, 50);

    // The diff: the two upserts, then one tombstone for C.
    assert_eq!(diff.len(), 3);
    assert_eq!(diff[0].ap_id, "A");
    assert_eq!(diff[1].ap_id, "B");
    assert_eq!(diff[2].ap_id, "C");
    assert_eq!(diff[2].deleted, Some(true));
    assert!(diff[2].display_name.is_none());
    assert!(diff[2].summary.is_none());

    assert_eq!(tags.len(), 3);
    // A: merged in place, identity untouched.
    assert_eq!(tags[0].id, 1);
    assert_eq!(tags[0].ap_id, "A");
    assert_eq!(tags[0].display_name.as_deref(), Some("x display"));
    assert!(!tags[0].deleted);
    // C: tombstoned, never removed, content cleared.
    assert_eq!(tags[1].id, 2);
    assert_eq!(tags[1].ap_id, "C");
    assert!(tags[1].deleted);
    assert!(tags[1].display_name.is_none());
    // B: inserted under the fresh id.
    assert_eq!(tags[2].id, 100);
    assert_eq!(tags[2].ap_id, "B");
    assert_eq!(tags[2].published_at, 50);
    assert!(!tags[2].deleted);
}

#[test]
fn reconcile_twice_is_a_no_op() {
    let mut tags = vec![local(1, "A", "x", false), local(2, "C", "z", false)];
    let forms = vec![remote("A", "x"), remote("B", "y")];
    CommunityTag::update_many(&mut tags, forms, 100, 50);
    let after_first = tags.clone();

    let forms_again = vec![remote("A", "x"), remote("B", "y")];
    let diff2 = CommunityTag::update_many(&mut tags, forms_again, 200, 60);
    // No tombstones the second time, and no further mutation.
    assert_eq!(diff2.len(), 2);
    assert_eq!(tags, after_first);
}

#[test]
fn withdrawn_tag_stays_a_tombstone() {
    // C was withdrawn and tombstoned earlier; reconciling again
    // without it keeps the row, still deleted, untouched.
    let mut tags = vec![local(2, "C", "z", true)];
    let forms = vec![remote("A", "x")];
    let diff = CommunityTag::update_many(&mut tags, forms, 100, 50);
    assert_eq!(diff.len(), 1);
    assert_eq!(tags.len(), 2);
    assert_eq!(tags[0].ap_id, "C");
    assert!(tags[0].deleted);
    assert_eq!(tags[0], local(2, "C", "z", true));
}

#[test]
fn reconcile_diff_is_pure() {
    let tags = vec![local(1, "A", "x", false), local(2, "C", "z", false)];
    let forms = vec![remote("A", "x")];
    let diff = reconcile_diff(&forms, &tags);
    assert_eq!(diff.len(), 2);
    assert_eq!(diff[1].ap_id, "C");
    // Nothing moved or changed in the inputs.
    assert_eq!(tags.len(), 2);
    assert!(!tags[1].deleted);
}

#[test]
fn create_rejects_duplicate_federation_id() {
    let mut tags = vec![local(1, "A", "x", false)];
    let dup = remote("A", "x");
    let r = CommunityTag::create(&mut tags, &dup, 9, 99);
    assert_eq!(r, Err(fedmod::error::CoreError::CouldntCreate));
    assert_eq!(tags.len(), 1);

    let fresh = remote("B", "y");
    let r2 = CommunityTag::create(&mut tags, &fresh, 9, 99).unwrap();
    assert_eq!(r2.id, 9);
    assert_eq!(r2.ap_id, "B");
    assert_eq!(tags.len(), 2);
}

#[test]
fn update_applies_only_given_fields() {
    let mut tags = vec![local(1, "A", "x", false)];
    let form = CommunityTagUpdateForm {
        display_name: Some(Some("Shiny".to_string())),
        summary: None,
        community_id: None,
        published_at: None,
        updated_at: Some(Some(77)),
        deleted: None,
        color: None,
    };
    let row = CommunityTag::update(&mut tags, 1, &form).unwrap();
    assert_eq!(row.display_name.as_deref(), Some("Shiny"));
    assert_eq!(row.updated_at, Some(77));
    assert_eq!(row.name, "x");
    assert_eq!(row.color, "red");
    assert!(!row.deleted);

    let missing = CommunityTag::update(&mut tags, 42, &CommunityTagUpdateForm::default());
    assert_eq!(missing, Err(fedmod::error::CoreError::CouldntUpdate));
}

#[test]
fn reads_filter_tombstones() {
    let tags = vec![local(1, "A", "x", false), local(2, "C", "z", true)];
    let live = CommunityTag::read_for_community(&tags, 1);
    assert_eq!(live.len(), 1);
    assert_eq!(live[0].ap_id, "A");

    assert!(CommunityTag::read_apub(&tags, &"A".to_string()).is_ok());
    assert_eq!(
        CommunityTag::read_apub(&tags, &"C".to_string()),
        Err(fedmod::error::CoreError::NotFound)
    );
    assert_eq!(CommunityTag::read(&tags, 2).unwrap().ap_id, "C");
}

#[test]
fn post_tag_assignment_is_replaced_wholesale() {
    let mut assocs = vec![
        PostCommunityTag { post_id: 1, community_tag_id: 10, published_at: 5 },
        PostCommunityTag { post_id: 2, community_tag_id: 11, published_at: 5 },
        PostCommunityTag { post_id: 1, community_tag_id: 12, published_at: 5 },
    ];
    let new = PostCommunityTag::update(&mut assocs, 1, &vec![13, 10], 9);
    assert_eq!(new.len(), 2);
    assert_eq!(new[0], PostCommunityTag { post_id: 1, community_tag_id: 13, published_at: 9 });
    assert_eq!(new[1], PostCommunityTag { post_id: 1, community_tag_id: 10, published_at: 9 });
    // Another post's association is untouched; post 1 has exactly the new set.
    assert_eq!(assocs.len(), 3);
    assert_eq!(assocs[0], PostCommunityTag { post_id: 2, community_tag_id: 11, published_at: 5 });
    assert_eq!(assocs[1], new[0]);
    assert_eq!(assocs[2], new[1]);
}

#[test]
fn read_for_post_joins_live_tags_in_assignment_order() {
    let tags = vec![local(10, "A", "x", false), local(11, "C", "z", true), local(12, "B", "y", false)];
    let assocs = vec![
        PostCommunityTag { post_id: 1, community_tag_id: 12, published_at: 5 },
        PostCommunityTag { post_id: 1, community_tag_id: 11, published_at: 5 },
        PostCommunityTag { post_id: 2, community_tag_id: 10, published_at: 5 },
        PostCommunityTag { post_id: 1, community_tag_id: 10, published_at: 5 },
    ];
    let rows = CommunityTag::read_for_post(&assocs, &tags, 1);
    // The tombstoned tag and the other post's row are filtered out.
    assert_eq!(rows.len(), 2);
    assert_eq!(rows[0].ap_id, "B");
    assert_eq!(rows[1].ap_id, "A");
}
