use fedmod::cascade::{
    create_comment_warning, create_post_warning, remove_comment, remove_post, ModlogEntry,
    RemoveComment, RemovePost,
};
use fedmod::comment::Comment;
use fedmod::error::CoreError;
use fedmod::post::Post;
use fedmod::report::{CommentReport, PostReport};

fn comment(id: u64, post_id: u64, path: &[u64], removed: bool, deleted: bool) -> Comment {
    Comment {
        id,
        creator_id: 100 + id,
        post_id,
        path: path.to_vec(),
        content: format!("comment {}", id),
        removed,
        deleted,
    }
}

fn report(id: u64, comment_id: u64) -> CommentReport {
    CommentReport {
        id,
        creator_id: 500 + id,
        comment_id,
        resolved: false,
        resolver_id: None,
        updated_at: None,
    }
}

fn post(id: u64, removed: bool, deleted: bool) -> Post {
    Post {
        id,
        creator_id: 200 + id,
        community_id: 1,
        name: format!("post {}", id),
        removed,
        deleted,
    }
}

#[test]
fn cascade_covers_exactly_the_subtree() {
    // root(path=0001) with children 0001.0001 and 0001.0002; the
    // sibling tree under 0002 stays untouched.
    let mut comments = vec![
        comment(1, 1, &[1], false, false),
        comment(2, 1, &[1, 1], false, false),
        comment(3, 1, &[1, 2], false, false),
        comment(4, 1, &[2], false, false),
    ];
    let mut reports = vec![report(10, 1), report(11, 2), report(12, 3), report(13, 4)];
    let data = RemoveComment {
        comment_id: 1,
        removed: false,
        remove_children: Some(true),
        reason: Some("spam".to_string()),
    };
    let out = remove_comment(&mut comments, &mut reports, &data, 77, 1000).unwrap();

    assert!(comments[0].removed && comments[1].removed && comments[2].removed);
    assert!(!comments[3].removed);
    assert!(out.comment.removed);
    assert_eq!(out.comment.id, 1);

    // Every pending report in the subtree is resolved; the sibling's
    // report stays pending.
    for r in &reports[0..3] {
        assert!(r.resolved);
        assert_eq!(r.resolver_id, Some(77));
        assert_eq!(r.updated_at, Some(1000));
    }
    assert!(!reports[3].resolved);
    assert!(reports[3].resolver_id.is_none());

    // One log entry per transitioned comment.
    assert_eq!(out.modlog.len(), 3);
    match &out.modlog[0] {
        ModlogEntry::RemoveComment { mod_person_id, comment_id, removed, reason, .. } => {
            assert_eq!(*mod_person_id, 77);
            assert_eq!(*comment_id, 1);
            assert!(*removed);
            assert_eq!(reason.as_deref(), Some("spam"));
        }
        other => panic!("expected a comment-removal entry, got {:?}", other),
    }
}

#[test]
fn cascade_restores_too() {
    let mut comments = vec![comment(1, 1, &[1], true, false), comment(2, 1, &[1, 1], true, false)];
    let mut reports = vec![];
    let data =
        RemoveComment { comment_id: 1, removed: true, remove_children: Some(false), reason: None };
    let out = remove_comment(&mut comments, &mut reports, &data, 7, 1).unwrap();
    assert!(!comments[0].removed && !comments[1].removed);
    assert!(!out.comment.removed);
}

#[test]
fn deleted_comment_guard_rejects_with_no_mutation() {
    // Removal of an author-deleted comment fails in all cases,
    // single or cascade, with nothing mutated.
    let orig_comments = vec![comment(1, 1, &[1], false, true), comment(2, 1, &[1, 1], false, false)];
    let orig_reports = vec![report(10, 1), report(11, 2)];

    for remove_children in [None, Some(true), Some(false)] {
        let mut comments = orig_comments.clone();
        let mut reports = orig_reports.clone();
        let data = RemoveComment {
            comment_id: 1,
            removed: true,
            remove_children,
            reason: None,
        };
        let r = remove_comment(&mut comments, &mut reports, &data, 7, 1);
        assert_eq!(r.unwrap_err(), CoreError::CouldntUpdate);
        assert_eq!(comments, orig_comments);
        assert_eq!(reports, orig_reports);
    }
}

#[test]
fn unknown_comment_is_not_found() {
    let mut comments = vec![comment(1, 1, &[1], false, false)];
    let mut reports = vec![report(10, 1)];
    let data = RemoveComment { comment_id: 9, removed: true, remove_children: None, reason: None };
    let r = remove_comment(&mut comments, &mut reports, &data, 7, 1);
    assert_eq!(r.unwrap_err(), CoreError::NotFound);
    assert!(!comments[0].removed);
    assert!(!reports[0].resolved);
}

#[test]
fn single_removal_touches_one_comment_and_its_reports() {
    let mut comments = vec![comment(1, 1, &[1], false, false), comment(2, 1, &[1, 1], false, false)];
    let mut reports = vec![report(10, 1), report(11, 2)];
    let data = RemoveComment { comment_id: 1, removed: true, remove_children: None, reason: None };
    let out = remove_comment(&mut comments, &mut reports, &data, 7, 42).unwrap();
    assert!(comments[0].removed);
    assert!(!comments[1].removed);
    assert!(reports[0].resolved);
    assert!(!reports[1].resolved);
    assert_eq!(out.modlog.len(), 1);
}

#[test]
fn deleted_children_are_kept_out_of_the_audit_log() {
    // The deleted child's flag still transitions in the bulk update,
    // but no log entry records its content.
    let mut comments = vec![comment(1, 1, &[1], false, false), comment(2, 1, &[1, 1], false, true)];
    let mut reports = vec![];
    let data =
        RemoveComment { comment_id: 1, removed: false, remove_children: Some(true), reason: None };
    let out = remove_comment(&mut comments, &mut reports, &data, 7, 1).unwrap();
    assert!(comments[1].removed);
    assert_eq!(out.modlog.len(), 1);
    match &out.modlog[0] {
        ModlogEntry::RemoveComment { comment_id, .. } => assert_eq!(*comment_id, 1),
        other => panic!("expected a comment-removal entry, got {:?}", other),
    }
}

#[test]
fn remove_post_cascades_over_its_comments() {
    let mut posts = vec![post(1, false, false), post(2, false, false)];
    let mut comments = vec![
        comment(1, 1, &[1], false, false),
        comment(2, 1, &[1, 1], false, false),
        comment(3, 2, &[1], false, false),
    ];
    let mut post_reports = vec![PostReport {
        id: 20,
        creator_id: 9,
        post_id: 1,
        resolved: false,
        resolver_id: None,
        updated_at: None,
    }];
    let mut comment_reports = vec![report(10, 1), report(11, 3)];
    let data = RemovePost {
        post_id: 1,
        removed: false,
        remove_children: Some(true),
        reason: Some("off-topic".to_string()),
    };
    let out = remove_post(
        &mut posts,
        &mut comments,
        &mut post_reports,
        &mut comment_reports,
        &data,
        77,
        1000,
    )
    .unwrap();

    assert!(posts[0].removed);
    assert!(!posts[1].removed);
    assert!(out.post.removed);
    assert!(comments[0].removed && comments[1].removed);
    assert!(!comments[2].removed);
    assert!(post_reports[0].resolved);
    assert!(comment_reports[0].resolved);
    assert!(!comment_reports[1].resolved);
    // The post's own entry first, then one per transitioned comment.
    assert_eq!(out.modlog.len(), 3);
    assert!(matches!(out.modlog[0], ModlogEntry::RemovePost { .. }));
    assert!(matches!(out.modlog[1], ModlogEntry::RemoveComment { .. }));
}

#[test]
fn remove_post_without_children_leaves_comments_alone() {
    let mut posts = vec![post(1, false, false)];
    let mut comments = vec![comment(1, 1, &[1], false, false)];
    let mut post_reports = vec![];
    let mut comment_reports = vec![report(10, 1)];
    let data = RemovePost { post_id: 1, removed: true, remove_children: None, reason: None };
    let out = remove_post(
        &mut posts,
        &mut comments,
        &mut post_reports,
        &mut comment_reports,
        &data,
        7,
        1,
    )
    .unwrap();
    assert!(posts[0].removed);
    assert!(!comments[0].removed);
    assert!(!comment_reports[0].resolved);
    assert_eq!(out.modlog.len(), 1);
}

#[test]
fn deleted_post_guard_rejects_with_no_mutation() {
    // Removal or restoration of an author-deleted post fails, with
    // or without a cascade, and nothing is mutated: the moderation
    // log must not record what the author retracted.
    let orig_posts = vec![post(1, false, true)];
    let orig_comments = vec![comment(1, 1, &[1], false, false)];
    let orig_post_reports = vec![PostReport {
        id: 20,
        creator_id: 9,
        post_id: 1,
        resolved: false,
        resolver_id: None,
        updated_at: None,
    }];
    let orig_comment_reports = vec![report(10, 1)];

    for remove_children in [None, Some(true), Some(false)] {
        let mut posts = orig_posts.clone();
        let mut comments = orig_comments.clone();
        let mut post_reports = orig_post_reports.clone();
        let mut comment_reports = orig_comment_reports.clone();
        let data = RemovePost { post_id: 1, removed: true, remove_children, reason: None };
        let r = remove_post(
            &mut posts,
            &mut comments,
            &mut post_reports,
            &mut comment_reports,
            &data,
            7,
            1,
        );
        assert_eq!(r.unwrap_err(), CoreError::CouldntUpdate);
        assert_eq!(posts, orig_posts);
        assert_eq!(comments, orig_comments);
        assert_eq!(post_reports, orig_post_reports);
        assert_eq!(comment_reports, orig_comment_reports);
    }
}

#[test]
fn unknown_post_is_not_found() {
    let mut posts = vec![post(1, false, false)];
    let mut comments = vec![];
    let mut post_reports = vec![];
    let mut comment_reports = vec![];
    let data = RemovePost { post_id: 9, removed: true, remove_children: None, reason: None };
    let r = remove_post(
        &mut posts,
        &mut comments,
        &mut post_reports,
        &mut comment_reports,
        &data,
        7,
        1,
    );
    assert_eq!(r.unwrap_err(), CoreError::NotFound);
    assert!(!posts[0].removed);
}

#[test]
fn warnings_reject_hidden_comments() {
    let c = comment(1, 1, &[1], false, true);
    let r = create_comment_warning(&c, 7, &"be nice".to_string());
    assert_eq!(r.unwrap_err(), CoreError::Deleted);

    let c2 = comment(2, 1, &[2], true, false);
    let r2 = create_comment_warning(&c2, 7, &"be nice".to_string());
    assert_eq!(r2.unwrap_err(), CoreError::Deleted);

    let c3 = comment(3, 1, &[3], false, false);
    match create_comment_warning(&c3, 7, &"be nice".to_string()).unwrap() {
        ModlogEntry::CommentWarning { mod_person_id, other_person_id, comment_id, reason } => {
            assert_eq!(mod_person_id, 7);
            assert_eq!(other_person_id, 103);
            assert_eq!(comment_id, 3);
            assert_eq!(reason, "be nice");
        }
        other => panic!("expected a comment warning, got {:?}", other),
    }
}

#[test]
fn post_warning_records_actor_target_and_reason() {
    let p = post(4, false, false);
    match create_post_warning(&p, 7, &"tone it down".to_string()) {
        ModlogEntry::PostWarning { mod_person_id, other_person_id, post_id, reason } => {
            assert_eq!(mod_person_id, 7);
            assert_eq!(other_person_id, 204);
            assert_eq!(post_id, 4);
            assert_eq!(reason, "tone it down");
        }
        other => panic!("expected a post warning, got {:?}", other),
    }
}
