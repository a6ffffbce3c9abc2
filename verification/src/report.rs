//! The report-resolution engine.
//!
//! Every report moves one way, from pending to resolved, under this
//! engine: resolution operations are monotonic set-updates, safe to
//! re-run, and an already-resolved report is simply re-stamped rather
//! than treated as an error. Reopening a report is a distinct,
//! externally triggered transition that this engine never performs.

use vstd::prelude::*;

use crate::comment::{Comment, SpecComment, is_path_prefix, path_is_prefix};

verus! {

/// A report against a comment, as the engine reads it.
#[derive(Clone, Copy, Debug, PartialEq, Eq)]
pub struct CommentReport {
    pub id: u64,
    pub creator_id: u64,
    pub comment_id: u64,
    pub resolved: bool,
    pub resolver_id: Option<u64>,
    pub updated_at: Option<i64>,
}

/// What a reporter submits when flagging a comment.
#[derive(Clone, Copy, Debug, PartialEq, Eq)]
pub struct CommentReportForm {
    pub creator_id: u64,
    pub comment_id: u64,
}

/// A report against a post, as the engine reads it.
#[derive(Clone, Copy, Debug, PartialEq, Eq)]
pub struct PostReport {
    pub id: u64,
    pub creator_id: u64,
    pub post_id: u64,
    pub resolved: bool,
    pub resolver_id: Option<u64>,
    pub updated_at: Option<i64>,
}

/// One report re-stamped by a resolver: the lifecycle flag takes the
/// given state and the resolver and time are recorded; nothing else
/// changes.
pub open spec fn spec_stamp_report(
    r: CommentReport,
    is_resolved: bool,
    resolver_id: u64,
    now: i64,
) -> CommentReport {
    CommentReport {
        resolved: is_resolved,
        resolver_id: Some(resolver_id),
        updated_at: Some(now),
        ..r
    }
}

/// The report set after a bulk resolution: every report satisfying
/// `pred` is re-stamped, every other report is untouched, and no row
/// moves or disappears.
pub open spec fn spec_stamp_where(
    s: Seq<CommentReport>,
    pred: spec_fn(CommentReport) -> bool,
    is_resolved: bool,
    resolver_id: u64,
    now: i64,
) -> Seq<CommentReport> {
    Seq::new(
        s.len(),
        |i: int|
            if pred(s[i]) {
                spec_stamp_report(s[i], is_resolved, resolver_id, now)
            } else {
                s[i]
            },
    )
}

/// How many reports satisfy `pred`: the row count that a bulk
/// resolution reports back.
pub open spec fn spec_count_where(s: Seq<CommentReport>, pred: spec_fn(CommentReport) -> bool) -> nat
    decreases s.len(),
{
    if s.len() == 0 {
        0
    } else {
        (if pred(s[0]) {
            1nat
        } else {
            0nat
        }) + spec_count_where(s.skip(1), pred)
    }
}

/// The same re-stamp for post reports.
pub open spec fn spec_stamp_post_report(
    r: PostReport,
    is_resolved: bool,
    resolver_id: u64,
    now: i64,
) -> PostReport {
    PostReport { resolved: is_resolved, resolver_id: Some(resolver_id), updated_at: Some(now), ..r }
}

/// The post-report set after a bulk resolution.
pub open spec fn spec_stamp_post_where(
    s: Seq<PostReport>,
    pred: spec_fn(PostReport) -> bool,
    is_resolved: bool,
    resolver_id: u64,
    now: i64,
) -> Seq<PostReport> {
    Seq::new(
        s.len(),
        |i: int|
            if pred(s[i]) {
                spec_stamp_post_report(s[i], is_resolved, resolver_id, now)
            } else {
                s[i]
            },
    )
}

/// How many post reports satisfy `pred`.
pub open spec fn spec_count_post_where(s: Seq<PostReport>, pred: spec_fn(PostReport) -> bool) -> nat
    decreases s.len(),
{
    if s.len() == 0 {
        0
    } else {
        (if pred(s[0]) {
            1nat
        } else {
            0nat
        }) + spec_count_post_where(s.skip(1), pred)
    }
}

/// A report lies in the subtree rooted at `path` when the comment it
/// references is stored there and its own path is prefixed by `path`.
pub open spec fn spec_report_in_subtree(
    r: CommentReport,
    comments: Seq<SpecComment>,
    path: Seq<u64>,
) -> bool {
    exists|j: int|
        0 <= j < comments.len() && comments[j].id == r.comment_id && is_path_prefix(
            path,
            comments[j].path,
        )
}

/// A report references a comment that belongs to the given post.
pub open spec fn spec_report_in_post(r: CommentReport, comments: Seq<SpecComment>, post_id: u64) -> bool {
    exists|j: int|
        0 <= j < comments.len() && comments[j].id == r.comment_id && comments[j].post_id == post_id
}

/// Reports with one id: the filter of a single-report resolution.
pub open spec fn report_id_pred(report_id: u64) -> spec_fn(CommentReport) -> bool {
    |r: CommentReport| r.id == report_id
}

/// Reports against one comment: the filter of an object-level
/// resolution.
pub open spec fn report_of_comment_pred(comment_id: u64) -> spec_fn(CommentReport) -> bool {
    |r: CommentReport| r.comment_id == comment_id
}

/// Reports one reporter filed against one comment: the filter of a
/// federation-facing resolution.
pub open spec fn report_of_reporter_pred(comment_id: u64, report_creator_id: u64) -> spec_fn(
    CommentReport,
) -> bool {
    |r: CommentReport| r.comment_id == comment_id && r.creator_id == report_creator_id
}

/// Reports whose comment lies in one subtree: the filter of a
/// thread-level resolution.
pub open spec fn report_in_subtree_pred(comments: Seq<SpecComment>, path: Seq<u64>) -> spec_fn(
    CommentReport,
) -> bool {
    |r: CommentReport| spec_report_in_subtree(r, comments, path)
}

/// Reports whose comment belongs to one post: the filter of a
/// post-level resolution over comments.
pub open spec fn report_in_post_pred(comments: Seq<SpecComment>, post_id: u64) -> spec_fn(
    CommentReport,
) -> bool {
    |r: CommentReport| spec_report_in_post(r, comments, post_id)
}

/// Reports against one post: the filter of a post-level resolution.
pub open spec fn post_report_pred(post_id: u64) -> spec_fn(PostReport) -> bool {
    |r: PostReport| r.post_id == post_id
}

/// Resolution never un-resolves: a report that is already resolved
/// stays resolved under any bulk resolution, and its resolver stamp
/// is never cleared, only rewritten.
pub proof fn lemma_resolution_monotonic(
    s: Seq<CommentReport>,
    pred: spec_fn(CommentReport) -> bool,
    resolver_id: u64,
    now: i64,
)
    ensures
        forall|i: int|
            0 <= i < s.len() && s[i].resolved ==> #[trigger] spec_stamp_where(
                s,
                pred,
                true,
                resolver_id,
                now,
            )[i].resolved,
        forall|i: int|
            0 <= i < s.len() && s[i].resolver_id is Some ==> spec_stamp_where(
                s,
                pred,
                true,
                resolver_id,
                now,
            )[i].resolver_id is Some,
{
}

/// Re-running a bulk resolution with the same resolver and time is a
/// no-op: the second pass re-stamps every matched report with the
/// values it already carries. The filter must not distinguish a
/// report from its re-stamped self, which holds for every filter this
/// engine uses (they read only the report's identity and references).
pub proof fn lemma_resolve_idempotent(
    s: Seq<CommentReport>,
    pred: spec_fn(CommentReport) -> bool,
    resolver_id: u64,
    now: i64,
)
    requires
        forall|r: CommentReport| #[trigger] pred(spec_stamp_report(r, true, resolver_id, now))
            == pred(r),
    ensures
        spec_stamp_where(
            spec_stamp_where(s, pred, true, resolver_id, now),
            pred,
            true,
            resolver_id,
            now,
        ) == spec_stamp_where(s, pred, true, resolver_id, now),
{
    let once = spec_stamp_where(s, pred, true, resolver_id, now);
    assert(spec_stamp_where(once, pred, true, resolver_id, now) =~= once);
}

/// No element satisfies the filter: the count is zero.
proof fn lemma_count_none(s: Seq<CommentReport>, pred: spec_fn(CommentReport) -> bool)
    requires
        forall|k: int| 0 <= k < s.len() ==> !pred(#[trigger] s[k]),
    ensures
        spec_count_where(s, pred) == 0,
    decreases s.len(),
{
    if s.len() > 0 {
        assert forall|k: int| 0 <= k < s.skip(1).len() implies !pred(#[trigger] s.skip(1)[k]) by {
            assert(s.skip(1)[k] == s[k + 1]);
        }
        lemma_count_none(s.skip(1), pred);
    }
}

/// Exactly one element satisfies the filter: the count is one.
proof fn lemma_count_single(s: Seq<CommentReport>, pred: spec_fn(CommentReport) -> bool, i: int)
    requires
        0 <= i < s.len(),
        pred(s[i]),
        forall|k: int| 0 <= k < s.len() && k != i ==> !pred(#[trigger] s[k]),
    ensures
        spec_count_where(s, pred) == 1,
    decreases s.len(),
{
    if i == 0 {
        assert forall|k: int| 0 <= k < s.skip(1).len() implies !pred(#[trigger] s.skip(1)[k]) by {
            assert(s.skip(1)[k] == s[k + 1]);
        }
        lemma_count_none(s.skip(1), pred);
    } else {
        assert(s.skip(1)[i - 1] == s[i]);
        assert forall|k: int|
            0 <= k < s.skip(1).len() && k != i - 1 implies !pred(#[trigger] s.skip(1)[k]) by {
            assert(s.skip(1)[k] == s[k + 1]);
        }
        lemma_count_single(s.skip(1), pred, i - 1);
    }
}

/// With report ids pairwise distinct — the store's primary-key fact
/// — resolving one report by id is exactly the one-report
/// transition: the row count is one, that report alone is
/// re-stamped, and every other report is untouched. Re-running with
/// the same resolver and time re-stamps the same values, so an
/// already-resolved report comes through as a successful no-op with
/// its resolver never cleared.
pub proof fn lemma_update_resolved_single(
    s: Seq<CommentReport>,
    report_id: u64,
    is_resolved: bool,
    resolver_id: u64,
    now: i64,
    i: int,
)
    requires
        0 <= i < s.len(),
        s[i].id == report_id,
        forall|k: int| 0 <= k < s.len() && k != i ==> s[k].id != report_id,
    ensures
        spec_count_where(s, report_id_pred(report_id)) == 1,
        spec_stamp_where(s, report_id_pred(report_id), is_resolved, resolver_id, now) == s.update(
            i,
            spec_stamp_report(s[i], is_resolved, resolver_id, now),
        ),
{
    let pred = report_id_pred(report_id);
    assert forall|k: int| 0 <= k < s.len() && k != i implies !pred(#[trigger] s[k]) by {}
    lemma_count_single(s, pred, i);
    assert(spec_stamp_where(s, pred, is_resolved, resolver_id, now) =~= s.update(
        i,
        spec_stamp_report(s[i], is_resolved, resolver_id, now),
    ));
}

/// The concrete instance of `lemma_resolve_idempotent` for the
/// object-level filter: resolving every report of one comment twice,
/// with the same resolver and time, leaves the report set exactly as
/// one pass left it — and in particular never clears a resolver
/// stamp.
pub proof fn lemma_resolve_object_idempotent(
    s: Seq<CommentReport>,
    comment_id: u64,
    resolver_id: u64,
    now: i64,
)
    ensures
        spec_stamp_where(
            spec_stamp_where(s, report_of_comment_pred(comment_id), true, resolver_id, now),
            report_of_comment_pred(comment_id),
            true,
            resolver_id,
            now,
        ) == spec_stamp_where(s, report_of_comment_pred(comment_id), true, resolver_id, now),
{
    let pred = report_of_comment_pred(comment_id);
    assert forall|r: CommentReport| #[trigger] pred(spec_stamp_report(r, true, resolver_id, now))
        == pred(r) by {}
    lemma_resolve_idempotent(s, pred, resolver_id, now);
}

impl CommentReport {
    /// Files a new report: a pending row referencing the flagged
    /// comment is appended under the given fresh id and returned.
    /// Any number of reports may exist per comment.
    pub fn report(
        reports: &mut Vec<CommentReport>,
        form: &CommentReportForm,
        report_id: u64,
    ) -> (r: CommentReport)
        ensures
            r == (CommentReport {
                id: report_id,
                creator_id: form.creator_id,
                comment_id: form.comment_id,
                resolved: false,
                resolver_id: None,
                updated_at: None,
            }),
            final(reports)@ == old(reports)@.push(r),
    {
        let row = CommentReport {
            id: report_id,
            creator_id: form.creator_id,
            comment_id: form.comment_id,
            resolved: false,
            resolver_id: None,
            updated_at: None,
        };
        reports.push(row);
        row
    }

    /// Re-stamps exactly the reports with the given id (at most one,
    /// when ids are unique) to the given lifecycle state, recording
    /// the resolver and time; returns how many rows that was. A
    /// missing id is not an error: the count is zero.
    pub fn update_resolved(
        reports: &mut Vec<CommentReport>,
        report_id: u64,
        by_resolver_id: u64,
        is_resolved: bool,
        now: i64,
    ) -> (n: usize)
        ensures
            final(reports)@ == spec_stamp_where(
                old(reports)@,
                report_id_pred(report_id),
                is_resolved,
                by_resolver_id,
                now,
            ),
            n == spec_count_where(old(reports)@, report_id_pred(report_id)),
    {
        let ghost pred = report_id_pred(report_id);
        let mut n: usize = 0;
        let mut i: usize = 0;
        proof {
            assert(old(reports)@.skip(0) =~= old(reports)@);
        }
        while i < reports.len()
            invariant
                i <= reports@.len(),
                reports@.len() == old(reports)@.len(),
                n <= i,
                forall|k: int| i <= k < reports@.len() ==> reports@[k] == old(reports)@[k],
                forall|k: int|
                    0 <= k < i ==> reports@[k] == (if pred(old(reports)@[k]) {
                        spec_stamp_report(old(reports)@[k], is_resolved, by_resolver_id, now)
                    } else {
                        old(reports)@[k]
                    }),
                spec_count_where(old(reports)@, pred) == n + spec_count_where(
                    old(reports)@.skip(i as int),
                    pred,
                ),
            decreases reports@.len() - i,
        {
            proof {
                assert(old(reports)@.skip(i as int)[0] == old(reports)@[i as int]);
                assert(old(reports)@.skip(i as int).skip(1) =~= old(reports)@.skip((i + 1) as int));
            }
            if reports[i].id == report_id {
                let row = CommentReport {
                    resolved: is_resolved,
                    resolver_id: Some(by_resolver_id),
                    updated_at: Some(now),
                    ..reports[i]
                };
                reports.set(i, row);
                n = n + 1;
            }
            i = i + 1;
        }
        proof {
            assert(old(reports)@.skip(old(reports)@.len() as int) =~= Seq::<
                CommentReport,
            >::empty());
            assert(reports@ =~= spec_stamp_where(
                old(reports)@,
                pred,
                is_resolved,
                by_resolver_id,
                now,
            ));
        }
        n
    }

    /// Resolves every report that one reporter filed against one
    /// comment: the federation-facing resolution, where the remote
    /// moderator speaks for reports of one creator only.
    pub fn resolve_apub(
        reports: &mut Vec<CommentReport>,
        comment_id: u64,
        report_creator_id: u64,
        resolver_id: u64,
        now: i64,
    ) -> (n: usize)
        ensures
            final(reports)@ == spec_stamp_where(
                old(reports)@,
                report_of_reporter_pred(comment_id, report_creator_id),
                true,
                resolver_id,
                now,
            ),
            n == spec_count_where(
                old(reports)@,
                report_of_reporter_pred(comment_id, report_creator_id),
            ),
    {
        let ghost pred = report_of_reporter_pred(comment_id, report_creator_id);
        let mut n: usize = 0;
        let mut i: usize = 0;
        proof {
            assert(old(reports)@.skip(0) =~= old(reports)@);
        }
        while i < reports.len()
            invariant
                i <= reports@.len(),
                reports@.len() == old(reports)@.len(),
                n <= i,
                forall|k: int| i <= k < reports@.len() ==> reports@[k] == old(reports)@[k],
                forall|k: int|
                    0 <= k < i ==> reports@[k] == (if pred(old(reports)@[k]) {
                        spec_stamp_report(old(reports)@[k], true, resolver_id, now)
                    } else {
                        old(reports)@[k]
                    }),
                spec_count_where(old(reports)@, pred) == n + spec_count_where(
                    old(reports)@.skip(i as int),
                    pred,
                ),
            decreases reports@.len() - i,
        {
            proof {
                assert(old(reports)@.skip(i as int)[0] == old(reports)@[i as int]);
                assert(old(reports)@.skip(i as int).skip(1) =~= old(reports)@.skip((i + 1) as int));
            }
            if reports[i].comment_id == comment_id && reports[i].creator_id == report_creator_id {
                let row = CommentReport {
                    resolved: true,
                    resolver_id: Some(resolver_id),
                    updated_at: Some(now),
                    ..reports[i]
                };
                reports.set(i, row);
                n = n + 1;
            }
            i = i + 1;
        }
        proof {
            assert(old(reports)@.skip(old(reports)@.len() as int) =~= Seq::<
                CommentReport,
            >::empty());
            assert(reports@ =~= spec_stamp_where(
                old(reports)@,
                pred,
                true,
                resolver_id,
                now,
            ));
        }
        n
    }

    /// Resolves every report that references one comment, whoever
    /// filed it; returns how many rows that was.
    pub fn resolve_all_for_object(
        reports: &mut Vec<CommentReport>,
        comment_id: u64,
        by_resolver_id: u64,
        now: i64,
    ) -> (n: usize)
        ensures
            final(reports)@ == spec_stamp_where(
                old(reports)@,
                report_of_comment_pred(comment_id),
                true,
                by_resolver_id,
                now,
            ),
            n == spec_count_where(old(reports)@, report_of_comment_pred(comment_id)),
    {
        let ghost pred = report_of_comment_pred(comment_id);
        let mut n: usize = 0;
        let mut i: usize = 0;
        proof {
            assert(old(reports)@.skip(0) =~= old(reports)@);
        }
        while i < reports.len()
            invariant
                i <= reports@.len(),
                reports@.len() == old(reports)@.len(),
                n <= i,
                forall|k: int| i <= k < reports@.len() ==> reports@[k] == old(reports)@[k],
                forall|k: int|
                    0 <= k < i ==> reports@[k] == (if pred(old(reports)@[k]) {
                        spec_stamp_report(old(reports)@[k], true, by_resolver_id, now)
                    } else {
                        old(reports)@[k]
                    }),
                spec_count_where(old(reports)@, pred) == n + spec_count_where(
                    old(reports)@.skip(i as int),
                    pred,
                ),
            decreases reports@.len() - i,
        {
            proof {
                assert(old(reports)@.skip(i as int)[0] == old(reports)@[i as int]);
                assert(old(reports)@.skip(i as int).skip(1) =~= old(reports)@.skip((i + 1) as int));
            }
            if reports[i].comment_id == comment_id {
                let row = CommentReport {
                    resolved: true,
                    resolver_id: Some(by_resolver_id),
                    updated_at: Some(now),
                    ..reports[i]
                };
                reports.set(i, row);
                n = n + 1;
            }
            i = i + 1;
        }
        proof {
            assert(old(reports)@.skip(old(reports)@.len() as int) =~= Seq::<
                CommentReport,
            >::empty());
            assert(reports@ =~= spec_stamp_where(
                old(reports)@,
                pred,
                true,
                by_resolver_id,
                now,
            ));
        }
        n
    }

    /// Resolves every report whose referenced comment lies in the
    /// subtree rooted at `comment_path`: the join between reports and
    /// the comment table filtered by path containment, not a walk of
    /// the reports one at a time.
    pub fn resolve_all_for_thread(
        reports: &mut Vec<CommentReport>,
        comments: &Vec<Comment>,
        comment_path: &Vec<u64>,
        by_resolver_id: u64,
        now: i64,
    ) -> (n: usize)
        ensures
            final(reports)@ == spec_stamp_where(
                old(reports)@,
                report_in_subtree_pred(comments.deep_view(), comment_path@),
                true,
                by_resolver_id,
                now,
            ),
            n == spec_count_where(
                old(reports)@,
                report_in_subtree_pred(comments.deep_view(), comment_path@),
            ),
    {
        let ghost pred = report_in_subtree_pred(comments.deep_view(), comment_path@);
        let mut n: usize = 0;
        let mut i: usize = 0;
        proof {
            assert(old(reports)@.skip(0) =~= old(reports)@);
        }
        while i < reports.len()
            invariant
                i <= reports@.len(),
                reports@.len() == old(reports)@.len(),
                n <= i,
                forall|k: int| i <= k < reports@.len() ==> reports@[k] == old(reports)@[k],
                forall|k: int|
                    0 <= k < i ==> reports@[k] == (if pred(old(reports)@[k]) {
                        spec_stamp_report(old(reports)@[k], true, by_resolver_id, now)
                    } else {
                        old(reports)@[k]
                    }),
                spec_count_where(old(reports)@, pred) == n + spec_count_where(
                    old(reports)@.skip(i as int),
                    pred,
                ),
            decreases reports@.len() - i,
        {
            proof {
                assert(old(reports)@.skip(i as int)[0] == old(reports)@[i as int]);
                assert(old(reports)@.skip(i as int).skip(1) =~= old(reports)@.skip((i + 1) as int));
            }
            let hit = comment_in_subtree(comments, reports[i].comment_id, comment_path);
            if hit {
                let row = CommentReport {
                    resolved: true,
                    resolver_id: Some(by_resolver_id),
                    updated_at: Some(now),
                    ..reports[i]
                };
                reports.set(i, row);
                n = n + 1;
            }
            i = i + 1;
        }
        proof {
            assert(old(reports)@.skip(old(reports)@.len() as int) =~= Seq::<
                CommentReport,
            >::empty());
            assert(reports@ =~= spec_stamp_where(
                old(reports)@,
                pred,
                true,
                by_resolver_id,
                now,
            ));
        }
        n
    }

    /// Resolves every report whose referenced comment belongs to the
    /// given post: the join between reports and the comment table
    /// filtered by the post.
    pub fn resolve_all_for_post(
        reports: &mut Vec<CommentReport>,
        comments: &Vec<Comment>,
        post_id: u64,
        by_resolver_id: u64,
        now: i64,
    ) -> (n: usize)
        ensures
            final(reports)@ == spec_stamp_where(
                old(reports)@,
                report_in_post_pred(comments.deep_view(), post_id),
                true,
                by_resolver_id,
                now,
            ),
            n == spec_count_where(
                old(reports)@,
                report_in_post_pred(comments.deep_view(), post_id),
            ),
    {
        let ghost pred = report_in_post_pred(comments.deep_view(), post_id);
        let mut n: usize = 0;
        let mut i: usize = 0;
        proof {
            assert(old(reports)@.skip(0) =~= old(reports)@);
        }
        while i < reports.len()
            invariant
                i <= reports@.len(),
                reports@.len() == old(reports)@.len(),
                n <= i,
                forall|k: int| i <= k < reports@.len() ==> reports@[k] == old(reports)@[k],
                forall|k: int|
                    0 <= k < i ==> reports@[k] == (if pred(old(reports)@[k]) {
                        spec_stamp_report(old(reports)@[k], true, by_resolver_id, now)
                    } else {
                        old(reports)@[k]
                    }),
                spec_count_where(old(reports)@, pred) == n + spec_count_where(
                    old(reports)@.skip(i as int),
                    pred,
                ),
            decreases reports@.len() - i,
        {
            proof {
                assert(old(reports)@.skip(i as int)[0] == old(reports)@[i as int]);
                assert(old(reports)@.skip(i as int).skip(1) =~= old(reports)@.skip((i + 1) as int));
            }
            let hit = comment_in_post(comments, reports[i].comment_id, post_id);
            if hit {
                let row = CommentReport {
                    resolved: true,
                    resolver_id: Some(by_resolver_id),
                    updated_at: Some(now),
                    ..reports[i]
                };
                reports.set(i, row);
                n = n + 1;
            }
            i = i + 1;
        }
        proof {
            assert(old(reports)@.skip(old(reports)@.len() as int) =~= Seq::<
                CommentReport,
            >::empty());
            assert(reports@ =~= spec_stamp_where(
                old(reports)@,
                pred,
                true,
                by_resolver_id,
                now,
            ));
        }
        n
    }
}

impl PostReport {
    /// Resolves every report that references one post; returns how
    /// many rows that was.
    pub fn resolve_all_for_object(
        reports: &mut Vec<PostReport>,
        post_id: u64,
        by_resolver_id: u64,
        now: i64,
    ) -> (n: usize)
        ensures
            final(reports)@ == spec_stamp_post_where(
                old(reports)@,
                post_report_pred(post_id),
                true,
                by_resolver_id,
                now,
            ),
            n == spec_count_post_where(old(reports)@, post_report_pred(post_id)),
    {
        let ghost pred = post_report_pred(post_id);
        let mut n: usize = 0;
        let mut i: usize = 0;
        proof {
            assert(old(reports)@.skip(0) =~= old(reports)@);
        }
        while i < reports.len()
            invariant
                i <= reports@.len(),
                reports@.len() == old(reports)@.len(),
                n <= i,
                forall|k: int| i <= k < reports@.len() ==> reports@[k] == old(reports)@[k],
                forall|k: int|
                    0 <= k < i ==> reports@[k] == (if pred(old(reports)@[k]) {
                        spec_stamp_post_report(old(reports)@[k], true, by_resolver_id, now)
                    } else {
                        old(reports)@[k]
                    }),
                spec_count_post_where(old(reports)@, pred) == n + spec_count_post_where(
                    old(reports)@.skip(i as int),
                    pred,
                ),
            decreases reports@.len() - i,
        {
            proof {
                assert(old(reports)@.skip(i as int)[0] == old(reports)@[i as int]);
                assert(old(reports)@.skip(i as int).skip(1) =~= old(reports)@.skip((i + 1) as int));
            }
            if reports[i].post_id == post_id {
                let row = PostReport {
                    resolved: true,
                    resolver_id: Some(by_resolver_id),
                    updated_at: Some(now),
                    ..reports[i]
                };
                reports.set(i, row);
                n = n + 1;
            }
            i = i + 1;
        }
        proof {
            assert(old(reports)@.skip(old(reports)@.len() as int) =~= Seq::<PostReport>::empty());
            assert(reports@ =~= spec_stamp_post_where(
                old(reports)@,
                pred,
                true,
                by_resolver_id,
                now,
            ));
        }
        n
    }
}

/// Whether the store holds a comment with the given id whose path is
/// prefixed by `path`.
fn comment_in_subtree(comments: &Vec<Comment>, comment_id: u64, path: &Vec<u64>) -> (r: bool)
    ensures
        r == exists|j: int|
            0 <= j < comments.deep_view().len() && comments.deep_view()[j].id == comment_id
                && is_path_prefix(path@, comments.deep_view()[j].path),
{
    let ghost cs = comments.deep_view();
    let mut j: usize = 0;
    while j < comments.len()
        invariant
            j <= cs.len(),
            forall|k: int|
                0 <= k < j ==> !(cs[k].id == comment_id && is_path_prefix(path@, cs[k].path)),
        decreases cs.len() - j,
    {
        if comments[j].id == comment_id && path_is_prefix(path, &comments[j].path) {
            assert(cs[j as int].id == comment_id && is_path_prefix(path@, cs[j as int].path));
            return true;
        }
        j = j + 1;
    }
    false
}

/// Whether the store holds a comment with the given id that belongs
/// to the given post.
fn comment_in_post(comments: &Vec<Comment>, comment_id: u64, post_id: u64) -> (r: bool)
    ensures
        r == exists|j: int|
            0 <= j < comments.deep_view().len() && comments.deep_view()[j].id == comment_id
                && comments.deep_view()[j].post_id == post_id,
{
    let ghost cs = comments.deep_view();
    let mut j: usize = 0;
    while j < comments.len()
        invariant
            j <= cs.len(),
            forall|k: int| 0 <= k < j ==> !(cs[k].id == comment_id && cs[k].post_id == post_id),
        decreases cs.len() - j,
    {
        if comments[j].id == comment_id && comments[j].post_id == post_id {
            assert(cs[j as int].id == comment_id && cs[j as int].post_id == post_id);
            return true;
        }
        j = j + 1;
    }
    false
}

} // verus!
