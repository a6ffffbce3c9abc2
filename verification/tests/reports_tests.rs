use fedmod::comment::Comment;
use fedmod::report::{CommentReport, CommentReportForm, PostReport};

fn report(id: u64, creator_id: u64, comment_id: u64) -> CommentReport {
    CommentReport { id, creator_id, comment_id, resolved: false, resolver_id: None, updated_at: None }
}

fn comment(id: u64, post_id: u64, path: &[u64]) -> Comment {
    Comment {
        id,
        creator_id: 100 + id,
        post_id,
        path: path.to_vec(),
        content: String::new(),
        removed: false,
        deleted: false,
    }
}

#[test]
fn filing_a_report_appends_a_pending_row() {
    let mut reports = vec![];
    let form = CommentReportForm { creator_id: 5, comment_id: 3 };
    let row = CommentReport::report(&mut reports, &form, 1);
    assert_eq!(reports.len(), 1);
    assert_eq!(row, reports[0]);
    assert!(!row.resolved);
    assert!(row.resolver_id.is_none());
    // Any number of reports per object is allowed.
    CommentReport::report(&mut reports, &form, 2);
    assert_eq!(reports.len(), 2);
}

#[test]
fn update_resolved_touches_exactly_one_report() {
    let mut reports = vec![report(1, 5, 3), report(2, 6, 3)];
    let n = CommentReport::update_resolved(&mut reports, 1, 77, true, 1000);
    assert_eq!(n, 1);
    assert!(reports[0].resolved);
    assert_eq!(reports[0].resolver_id, Some(77));
    assert_eq!(reports[0].updated_at, Some(1000));
    assert!(!reports[1].resolved);

    // A missing id is not an error: the count is zero.
    let n2 = CommentReport::update_resolved(&mut reports, 9, 77, true, 1000);
    assert_eq!(n2, 0);

    // The explicit reopen transition goes through the same stamp.
    let n3 = CommentReport::update_resolved(&mut reports, 1, 78, false, 1001);
    assert_eq!(n3, 1);
    assert!(!reports[0].resolved);
    assert_eq!(reports[0].resolver_id, Some(78));
    assert_eq!(reports[0].updated_at, Some(1001));
}

#[test]
fn resolving_an_already_resolved_report_is_a_no_op() {
    // Monotonic resolution: re-running re-stamps the same values and
    // never clears the resolver.
    let mut reports = vec![report(1, 5, 3)];
    CommentReport::resolve_all_for_object(&mut reports, 3, 77, 1000);
    let once = reports.clone();
    assert!(once[0].resolved);
    assert_eq!(once[0].resolver_id, Some(77));

    let n = CommentReport::resolve_all_for_object(&mut reports, 3, 77, 1000);
    assert_eq!(n, 1);
    assert_eq!(reports, once);
    assert_eq!(reports[0].resolver_id, Some(77));
}

#[test]
fn resolve_apub_touches_one_reporter_only() {
    let mut reports = vec![report(1, 5, 3), report(2, 6, 3), report(3, 5, 4)];
    let n = CommentReport::resolve_apub(&mut reports, 3, 5, 77, 1000);
    assert_eq!(n, 1);
    assert!(reports[0].resolved);
    assert!(!reports[1].resolved);
    assert!(!reports[2].resolved);
}

#[test]
fn resolve_all_for_object_touches_every_report_of_it() {
    let mut reports = vec![report(1, 5, 3), report(2, 6, 3), report(3, 5, 4)];
    let n = CommentReport::resolve_all_for_object(&mut reports, 3, 77, 1000);
    assert_eq!(n, 2);
    assert!(reports[0].resolved && reports[1].resolved);
    assert!(!reports[2].resolved);
}

#[test]
fn resolve_all_for_thread_joins_on_path_containment() {
    let comments = vec![comment(1, 1, &[1]), comment(2, 1, &[1, 1]), comment(3, 1, &[2])];
    let mut reports = vec![report(10, 5, 1), report(11, 6, 2), report(12, 7, 3), report(13, 8, 9)];
    let n = CommentReport::resolve_all_for_thread(&mut reports, &comments, &vec![1], 77, 1000);
    // Reports on the subtree's comments; the sibling's and the
    // dangling report stay pending.
    assert_eq!(n, 2);
    assert!(reports[0].resolved && reports[1].resolved);
    assert!(!reports[2].resolved && !reports[3].resolved);
}

#[test]
fn resolve_all_for_post_joins_on_the_post() {
    let comments = vec![comment(1, 1, &[1]), comment(2, 2, &[1])];
    let mut reports = vec![report(10, 5, 1), report(11, 6, 2)];
    let n = CommentReport::resolve_all_for_post(&mut reports, &comments, 1, 77, 1000);
    assert_eq!(n, 1);
    assert!(reports[0].resolved);
    assert!(!reports[1].resolved);
}

#[test]
fn post_reports_resolve_for_their_object() {
    let mut reports = vec![
        PostReport { id: 1, creator_id: 5, post_id: 3, resolved: false, resolver_id: None, updated_at: None },
        PostReport { id: 2, creator_id: 5, post_id: 4, resolved: true, resolver_id: Some(9), updated_at: Some(1) },
    ];
    let n = PostReport::resolve_all_for_object(&mut reports, 3, 77, 1000);
    assert_eq!(n, 1);
    assert!(reports[0].resolved);
    assert_eq!(reports[0].resolver_id, Some(77));
    // The other post's resolved report keeps its stamp.
    assert_eq!(reports[1].resolver_id, Some(9));
}
