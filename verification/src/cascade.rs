//! The subtree cascade engine.
//!
//! A moderation action on one comment or post can cascade over the
//! whole subtree under it: the `removed` flag of every descendant
//! transitions in one bulk update, every report attached to anything
//! in the subtree is resolved in the same unit of work, and one
//! immutable moderation-log entry is produced per transitioned
//! comment — except for author-deleted comments, which are filtered
//! out of the log so that retracted content never reaches the audit
//! trail.

use vstd::prelude::*;

use crate::comment::{
    Comment, SpecComment, comment_snapshot, comment_with_removed, clone_path, find_comment_index,
    lemma_path_prefix_self, post_comments_pred, spec_bulk_set_removed, spec_comment_index,
    spec_set_removed, spec_updated_rows, subtree_pred,
};
use crate::community_tag::clone_opt_string;
use crate::error::CoreError;
use crate::post::{
    Post, SpecPost, find_post_index, post_snapshot, post_with_removed, spec_post_index,
    spec_set_post_removed,
};
use crate::report::{
    CommentReport, PostReport, post_report_pred, report_in_post_pred, report_in_subtree_pred,
    report_of_comment_pred, spec_stamp_post_where, spec_stamp_where,
};

verus! {

/// A request to remove or restore one comment, optionally cascading
/// over its descendants. With `remove_children` set, its value is
/// the new `removed` state for the whole subtree; without it,
/// `removed` is the new state of the one comment.
#[derive(Clone, Debug, PartialEq)]
pub struct RemoveComment {
    pub comment_id: u64,
    pub removed: bool,
    pub remove_children: Option<bool>,
    pub reason: Option<String>,
}

/// A request to remove or restore one post, optionally cascading
/// over every comment under it.
#[derive(Clone, Debug, PartialEq)]
pub struct RemovePost {
    pub post_id: u64,
    pub removed: bool,
    pub remove_children: Option<bool>,
    pub reason: Option<String>,
}

/// One immutable moderation-log entry: who acted, on what, the new
/// state, and why. Entries are append-only and handed to the audit
/// sink after the data mutation commits.
#[derive(Clone, Debug, PartialEq)]
pub enum ModlogEntry {
    /// A comment was removed or restored by a moderator.
    RemoveComment {
        mod_person_id: u64,
        other_person_id: u64,
        comment_id: u64,
        content: String,
        removed: bool,
        reason: Option<String>,
    },
    /// A post was removed or restored by a moderator.
    RemovePost {
        mod_person_id: u64,
        other_person_id: u64,
        post_id: u64,
        name: String,
        removed: bool,
        reason: Option<String>,
    },
    /// A warning was issued against a comment.
    CommentWarning { mod_person_id: u64, other_person_id: u64, comment_id: u64, reason: String },
    /// A warning was issued against a post.
    PostWarning { mod_person_id: u64, other_person_id: u64, post_id: u64, reason: String },
}

/// The mathematical model of a moderation-log entry.
#[verifier::ext_equal]
pub enum SpecModlogEntry {
    RemoveComment {
        mod_person_id: u64,
        other_person_id: u64,
        comment_id: u64,
        content: Seq<char>,
        removed: bool,
        reason: Option<Seq<char>>,
    },
    RemovePost {
        mod_person_id: u64,
        other_person_id: u64,
        post_id: u64,
        name: Seq<char>,
        removed: bool,
        reason: Option<Seq<char>>,
    },
    CommentWarning {
        mod_person_id: u64,
        other_person_id: u64,
        comment_id: u64,
        reason: Seq<char>,
    },
    PostWarning { mod_person_id: u64, other_person_id: u64, post_id: u64, reason: Seq<char> },
}

impl View for ModlogEntry {
    type V = SpecModlogEntry;

    open spec fn view(&self) -> SpecModlogEntry {
        match self {
            ModlogEntry::RemoveComment {
                mod_person_id,
                other_person_id,
                comment_id,
                content,
                removed,
                reason,
            } => SpecModlogEntry::RemoveComment {
                mod_person_id: *mod_person_id,
                other_person_id: *other_person_id,
                comment_id: *comment_id,
                content: content@,
                removed: *removed,
                reason: reason.deep_view(),
            },
            ModlogEntry::RemovePost {
                mod_person_id,
                other_person_id,
                post_id,
                name,
                removed,
                reason,
            } => SpecModlogEntry::RemovePost {
                mod_person_id: *mod_person_id,
                other_person_id: *other_person_id,
                post_id: *post_id,
                name: name@,
                removed: *removed,
                reason: reason.deep_view(),
            },
            ModlogEntry::CommentWarning { mod_person_id, other_person_id, comment_id, reason } => {
                SpecModlogEntry::CommentWarning {
                    mod_person_id: *mod_person_id,
                    other_person_id: *other_person_id,
                    comment_id: *comment_id,
                    reason: reason@,
                }
            },
            ModlogEntry::PostWarning { mod_person_id, other_person_id, post_id, reason } => {
                SpecModlogEntry::PostWarning {
                    mod_person_id: *mod_person_id,
                    other_person_id: *other_person_id,
                    post_id: *post_id,
                    reason: reason@,
                }
            },
        }
    }
}

impl DeepView for ModlogEntry {
    type V = SpecModlogEntry;

    open spec fn deep_view(&self) -> SpecModlogEntry {
        self.view()
    }
}

/// The log entry recording one comment removal or restoration.
pub open spec fn spec_remove_comment_entry(
    c: SpecComment,
    mod_person_id: u64,
    removed: bool,
    reason: Option<Seq<char>>,
) -> SpecModlogEntry {
    SpecModlogEntry::RemoveComment {
        mod_person_id,
        other_person_id: c.creator_id,
        comment_id: c.id,
        content: c.content,
        removed,
        reason,
    }
}

/// The log entry recording one post removal or restoration.
pub open spec fn spec_remove_post_entry(
    p: SpecPost,
    mod_person_id: u64,
    removed: bool,
    reason: Option<Seq<char>>,
) -> SpecModlogEntry {
    SpecModlogEntry::RemovePost {
        mod_person_id,
        other_person_id: p.creator_id,
        post_id: p.id,
        name: p.name,
        removed,
        reason,
    }
}

/// The log entries a comment cascade appends: one per transitioned
/// comment, in store order — author-deleted comments filtered out,
/// so that content an author chose to retract never reaches the
/// audit trail even though their `removed` flag transitioned in the
/// bulk update.
pub open spec fn spec_comment_modlog(
    rows: Seq<SpecComment>,
    mod_person_id: u64,
    removed: bool,
    reason: Option<Seq<char>>,
) -> Seq<SpecModlogEntry>
    decreases rows.len(),
{
    if rows.len() == 0 {
        Seq::empty()
    } else {
        let rest = spec_comment_modlog(rows.skip(1), mod_person_id, removed, reason);
        if rows[0].deleted {
            rest
        } else {
            seq![spec_remove_comment_entry(rows[0], mod_person_id, removed, reason)] + rest
        }
    }
}

/// Content-leak prevention: no entry of a cascade's audit log ever
/// records an author-deleted comment — every entry descends from a
/// row whose author had not retracted it.
pub proof fn lemma_modlog_never_exposes_deleted(
    rows: Seq<SpecComment>,
    mod_person_id: u64,
    removed: bool,
    reason: Option<Seq<char>>,
)
    ensures
        forall|k: int|
            0 <= k < spec_comment_modlog(rows, mod_person_id, removed, reason).len() ==> exists|
                j: int,
            |
                0 <= j < rows.len() && !rows[j].deleted && #[trigger] spec_comment_modlog(
                    rows,
                    mod_person_id,
                    removed,
                    reason,
                )[k] == spec_remove_comment_entry(rows[j], mod_person_id, removed, reason),
    decreases rows.len(),
{
    if rows.len() > 0 {
        let log = spec_comment_modlog(rows, mod_person_id, removed, reason);
        let rest = spec_comment_modlog(rows.skip(1), mod_person_id, removed, reason);
        lemma_modlog_never_exposes_deleted(rows.skip(1), mod_person_id, removed, reason);
        assert forall|k: int| 0 <= k < log.len() implies exists|j: int|
            0 <= j < rows.len() && !rows[j].deleted && #[trigger] log[k]
                == spec_remove_comment_entry(rows[j], mod_person_id, removed, reason) by {
            let head = if rows[0].deleted {
                0int
            } else {
                1int
            };
            if k < head {
                assert(!rows[0].deleted && log[k] == spec_remove_comment_entry(
                    rows[0],
                    mod_person_id,
                    removed,
                    reason,
                ));
            } else {
                let j2 = choose|j2: int|
                    0 <= j2 < rows.skip(1).len() && !rows.skip(1)[j2].deleted && #[trigger] rest[k
                        - head] == spec_remove_comment_entry(
                        rows.skip(1)[j2],
                        mod_person_id,
                        removed,
                        reason,
                    );
                assert(rows.skip(1)[j2] == rows[j2 + 1]);
                assert(log[k] == rest[k - head]);
            }
        }
    }
}

/// Copies an optional reason.
fn clone_reason(reason: &Option<String>) -> (r: Option<String>)
    ensures
        r == *reason,
{
    clone_opt_string(reason)
}

/// Builds the log entry for one removed or restored comment.
fn remove_comment_entry(
    c: &Comment,
    mod_person_id: u64,
    removed: bool,
    reason: &Option<String>,
) -> (r: ModlogEntry)
    ensures
        r@ == spec_remove_comment_entry(c@, mod_person_id, removed, reason.deep_view()),
{
    ModlogEntry::RemoveComment {
        mod_person_id,
        other_person_id: c.creator_id,
        comment_id: c.id,
        content: c.content.clone(),
        removed,
        reason: clone_reason(reason),
    }
}

/// Builds the log entry for one removed or restored post.
fn remove_post_entry(p: &Post, mod_person_id: u64, removed: bool, reason: &Option<String>) -> (r:
    ModlogEntry)
    ensures
        r@ == spec_remove_post_entry(p@, mod_person_id, removed, reason.deep_view()),
{
    ModlogEntry::RemovePost {
        mod_person_id,
        other_person_id: p.creator_id,
        post_id: p.id,
        name: p.name.clone(),
        removed,
        reason: clone_reason(reason),
    }
}

/// Builds the log entries for a list of transitioned comments,
/// filtering out author-deleted ones.
fn comment_modlog_entries(
    rows: &Vec<Comment>,
    mod_person_id: u64,
    removed: bool,
    reason: &Option<String>,
) -> (entries: Vec<ModlogEntry>)
    ensures
        entries.deep_view() == spec_comment_modlog(
            rows.deep_view(),
            mod_person_id,
            removed,
            reason.deep_view(),
        ),
{
    let ghost rs = rows.deep_view();
    let ghost rsn = reason.deep_view();
    let mut entries: Vec<ModlogEntry> = Vec::new();
    let mut i: usize = 0;
    proof {
        assert(rs.skip(0) =~= rs);
        assert(entries.deep_view() + spec_comment_modlog(rs, mod_person_id, removed, rsn)
            =~= spec_comment_modlog(rs, mod_person_id, removed, rsn));
    }
    while i < rows.len()
        invariant
            i <= rs.len(),
            spec_comment_modlog(rs, mod_person_id, removed, rsn) == entries.deep_view()
                + spec_comment_modlog(rs.skip(i as int), mod_person_id, removed, rsn),
        decreases rs.len() - i,
    {
        let ghost dv_pre = entries.deep_view();
        proof {
            assert(rs.skip(i as int)[0] == rs[i as int]);
            assert(rs.skip(i as int).skip(1) =~= rs.skip((i + 1) as int));
        }
        if !rows[i].deleted {
            let entry = remove_comment_entry(&rows[i], mod_person_id, removed, reason);
            entries.push(entry);
            proof {
                assert(entries.deep_view() =~= dv_pre.push(
                    spec_remove_comment_entry(rs[i as int], mod_person_id, removed, rsn),
                ));
                assert(dv_pre.push(
                    spec_remove_comment_entry(rs[i as int], mod_person_id, removed, rsn),
                ) + spec_comment_modlog(rs.skip((i + 1) as int), mod_person_id, removed, rsn)
                    =~= dv_pre + (seq![
                    spec_remove_comment_entry(rs[i as int], mod_person_id, removed, rsn),
                ] + spec_comment_modlog(rs.skip((i + 1) as int), mod_person_id, removed, rsn)));
            }
        }
        i = i + 1;
    }
    proof {
        assert(rs.skip(rs.len() as int) =~= Seq::<SpecComment>::empty());
        assert(entries.deep_view() + Seq::<SpecModlogEntry>::empty() =~= entries.deep_view());
    }
    entries
}

/// What a comment removal hands back: the updated root comment and
/// the moderation-log entries to append.
#[derive(Clone, Debug, PartialEq)]
pub struct RemoveCommentOutcome {
    pub comment: Comment,
    pub modlog: Vec<ModlogEntry>,
}

/// What a post removal hands back: the updated post and the
/// moderation-log entries to append.
#[derive(Clone, Debug, PartialEq)]
pub struct RemovePostOutcome {
    pub post: Post,
    pub modlog: Vec<ModlogEntry>,
}

/// Removes or restores one comment, optionally cascading over its
/// whole subtree, and resolves the attached reports in the same unit
/// of work.
///
/// An unknown comment is `NotFound`; an author-deleted comment is
/// rejected with `CouldntUpdate`, since removing or restoring it
/// would force the moderation log to reveal content the author chose
/// to retract. In both cases nothing is mutated.
///
/// With `remove_children` set to a new state, exactly the comments
/// whose path is prefixed by the root's path — the root included —
/// transition to that state, and every report on any comment of that
/// subtree is resolved; nothing outside the subtree changes. Without
/// it, only the root transitions to `data.removed` and only its own
/// reports are resolved. One log entry is produced per transitioned,
/// non-deleted comment. The updated root is returned.
pub fn remove_comment(
    comments: &mut Vec<Comment>,
    reports: &mut Vec<CommentReport>,
    data: &RemoveComment,
    mod_person_id: u64,
    now: i64,
) -> (r: Result<RemoveCommentOutcome, CoreError>)
    ensures
        ({
            let cs = old(comments).deep_view();
            let rs = old(reports)@;
            let i = spec_comment_index(cs, data.comment_id);
            &&& i < 0 ==> r == Err::<RemoveCommentOutcome, CoreError>(CoreError::NotFound)
                && final(comments)@ == old(comments)@ && final(reports)@ == rs
            &&& i >= 0 && cs[i].deleted ==> r == Err::<RemoveCommentOutcome, CoreError>(
                CoreError::CouldntUpdate,
            ) && final(comments)@ == old(comments)@ && final(reports)@ == rs
            &&& i >= 0 && !cs[i].deleted && data.remove_children is Some ==> {
                let rc = data.remove_children->0;
                &&& final(comments).deep_view() == spec_bulk_set_removed(
                    cs,
                    subtree_pred(cs[i].path),
                    rc,
                )
                &&& final(reports)@ == spec_stamp_where(
                    rs,
                    report_in_subtree_pred(cs, cs[i].path),
                    true,
                    mod_person_id,
                    now,
                )
                &&& (r matches Ok(out) && out.comment@ == spec_set_removed(cs[i], rc)
                    && out.modlog.deep_view() == spec_comment_modlog(
                    spec_updated_rows(cs, subtree_pred(cs[i].path), rc),
                    mod_person_id,
                    rc,
                    data.reason.deep_view(),
                ))
            }
            &&& i >= 0 && !cs[i].deleted && data.remove_children is None ==> {
                &&& final(comments).deep_view() == cs.update(
                    i,
                    spec_set_removed(cs[i], data.removed),
                )
                &&& final(reports)@ == spec_stamp_where(
                    rs,
                    report_of_comment_pred(data.comment_id),
                    true,
                    mod_person_id,
                    now,
                )
                &&& (r matches Ok(out) && out.comment@ == spec_set_removed(cs[i], data.removed)
                    && out.modlog.deep_view() == seq![
                    spec_remove_comment_entry(
                        cs[i],
                        mod_person_id,
                        data.removed,
                        data.reason.deep_view(),
                    ),
                ])
            }
        }),
{
    let ghost cs = old(comments).deep_view();
    let found = find_comment_index(comments, data.comment_id);
    let i = match found {
        Some(i) => i,
        None => {
            return Err(CoreError::NotFound);
        },
    };
    // A comment deleted by its author must not be removed or
    // restored: the moderation log would reveal the retracted text.
    if comments[i].deleted {
        return Err(CoreError::CouldntUpdate);
    }
    match data.remove_children {
        Some(rc) => {
            let path = clone_path(&comments[i].path);
            CommentReport::resolve_all_for_thread(reports, comments, &path, mod_person_id, now);
            let updated = Comment::update_removed_for_comment_and_children(comments, &path, rc);
            let modlog = comment_modlog_entries(&updated, mod_person_id, rc, &data.reason);
            proof {
                lemma_path_prefix_self(cs[i as int].path);
                assert(comments.deep_view().len() == cs.len());
                assert(comments@.len() == cs.len());
            }
            assert(comments.deep_view()[i as int] == spec_set_removed(cs[i as int], rc));
            let root = comment_snapshot(&comments[i]);
            Ok(RemoveCommentOutcome { comment: root, modlog })
        },
        None => {
            CommentReport::resolve_all_for_object(reports, data.comment_id, mod_person_id, now);
            let entry = remove_comment_entry(&comments[i], mod_person_id, data.removed, &data.reason);
            let row = comment_with_removed(&comments[i], data.removed);
            let root = comment_snapshot(&row);
            comments.set(i, row);
            let mut modlog: Vec<ModlogEntry> = Vec::new();
            modlog.push(entry);
            proof {
                assert(comments.deep_view() =~= cs.update(
                    i as int,
                    spec_set_removed(cs[i as int], data.removed),
                ));
                assert(modlog.deep_view() =~= seq![
                    spec_remove_comment_entry(
                        cs[i as int],
                        mod_person_id,
                        data.removed,
                        data.reason.deep_view(),
                    ),
                ]);
            }
            Ok(RemoveCommentOutcome { comment: root, modlog })
        },
    }
}

/// Removes or restores one post and resolves its reports; with
/// `remove_children` set, every comment under the post transitions
/// to that state in the same unit of work, every comment-level
/// report of the post is resolved, and one log entry is produced per
/// transitioned, non-deleted comment.
///
/// An unknown post is `NotFound`; an author-deleted post is
/// rejected with `CouldntUpdate`, for the same reason as an
/// author-deleted comment: acting on it would put content the
/// author chose to retract into the moderation log. In both cases
/// nothing is mutated. The new `removed` state of the post itself
/// is `remove_children` where given, else `data.removed`. The
/// updated post is returned together with the log entries, the
/// post's own entry first.
pub fn remove_post(
    posts: &mut Vec<Post>,
    comments: &mut Vec<Comment>,
    post_reports: &mut Vec<PostReport>,
    comment_reports: &mut Vec<CommentReport>,
    data: &RemovePost,
    mod_person_id: u64,
    now: i64,
) -> (r: Result<RemovePostOutcome, CoreError>)
    ensures
        ({
            let ps = old(posts).deep_view();
            let cs = old(comments).deep_view();
            let prs = old(post_reports)@;
            let crs = old(comment_reports)@;
            let i = spec_post_index(ps, data.post_id);
            let rstate = match data.remove_children {
                Some(rc) => rc,
                None => data.removed,
            };
            &&& i < 0 ==> r == Err::<RemovePostOutcome, CoreError>(CoreError::NotFound)
                && final(posts)@ == old(posts)@ && final(comments)@ == old(comments)@
                && final(post_reports)@ == prs && final(comment_reports)@ == crs
            &&& i >= 0 && ps[i].deleted ==> r == Err::<RemovePostOutcome, CoreError>(
                CoreError::CouldntUpdate,
            ) && final(posts)@ == old(posts)@ && final(comments)@ == old(comments)@
                && final(post_reports)@ == prs && final(comment_reports)@ == crs
            &&& i >= 0 && !ps[i].deleted ==> {
                &&& final(posts).deep_view() == ps.update(i, spec_set_post_removed(ps[i], rstate))
                &&& final(post_reports)@ == spec_stamp_post_where(
                    prs,
                    post_report_pred(data.post_id),
                    true,
                    mod_person_id,
                    now,
                )
                &&& (r matches Ok(out) && out.post@ == spec_set_post_removed(ps[i], rstate))
            }
            &&& i >= 0 && !ps[i].deleted && data.remove_children is Some ==> {
                let rc = data.remove_children->0;
                &&& final(comments).deep_view() == spec_bulk_set_removed(
                    cs,
                    post_comments_pred(data.post_id),
                    rc,
                )
                &&& final(comment_reports)@ == spec_stamp_where(
                    crs,
                    report_in_post_pred(cs, data.post_id),
                    true,
                    mod_person_id,
                    now,
                )
                &&& (r matches Ok(out) && out.modlog.deep_view() == seq![
                    spec_remove_post_entry(ps[i], mod_person_id, rstate, data.reason.deep_view()),
                ] + spec_comment_modlog(
                    spec_updated_rows(cs, post_comments_pred(data.post_id), rc),
                    mod_person_id,
                    rc,
                    data.reason.deep_view(),
                ))
            }
            &&& i >= 0 && !ps[i].deleted && data.remove_children is None ==> {
                &&& final(comments)@ == old(comments)@
                &&& final(comment_reports)@ == crs
                &&& (r matches Ok(out) && out.modlog.deep_view() == seq![
                    spec_remove_post_entry(ps[i], mod_person_id, rstate, data.reason.deep_view()),
                ])
            }
        }),
{
    let ghost ps = old(posts).deep_view();
    let ghost cs = old(comments).deep_view();
    let found = find_post_index(posts, data.post_id);
    let i = match found {
        Some(i) => i,
        None => {
            return Err(CoreError::NotFound);
        },
    };
    // A post deleted by its author must not be removed or restored:
    // the moderation log would record its retracted name.
    if posts[i].deleted {
        return Err(CoreError::CouldntUpdate);
    }
    let rstate = match data.remove_children {
        Some(rc) => rc,
        None => data.removed,
    };
    let entry = remove_post_entry(&posts[i], mod_person_id, rstate, &data.reason);
    let row = post_with_removed(&posts[i], rstate);
    let post_out = post_snapshot(&row);
    posts.set(i, row);
    proof {
        assert(posts.deep_view() =~= ps.update(
            i as int,
            spec_set_post_removed(ps[i as int], rstate),
        ));
    }
    PostReport::resolve_all_for_object(post_reports, data.post_id, mod_person_id, now);
    let mut modlog: Vec<ModlogEntry> = Vec::new();
    let ghost entry0 = spec_remove_post_entry(
        ps[i as int],
        mod_person_id,
        rstate,
        data.reason.deep_view(),
    );
    modlog.push(entry);
    proof {
        assert(modlog.deep_view() =~= seq![entry0]);
    }
    if let Some(rc) = data.remove_children {
        CommentReport::resolve_all_for_post(
            comment_reports,
            comments,
            data.post_id,
            mod_person_id,
            now,
        );
        let updated = Comment::update_removed_for_post(comments, data.post_id, rc);
        let entries = comment_modlog_entries(&updated, mod_person_id, rc, &data.reason);
        let ghost tail = entries.deep_view();
        let mut k: usize = 0;
        proof {
            assert(modlog.deep_view() =~= seq![entry0] + tail.take(0));
        }
        while k < entries.len()
            invariant
                k <= tail.len(),
                entries.deep_view() == tail,
                modlog.deep_view() == seq![entry0] + tail.take(k as int),
            decreases tail.len() - k,
        {
            let ghost dv_pre = modlog.deep_view();
            let e = modlog_entry_snapshot(&entries, k);
            modlog.push(e);
            proof {
                assert(modlog.deep_view() =~= dv_pre.push(tail[k as int]));
                assert(dv_pre.push(tail[k as int]) =~= seq![entry0] + tail.take((k + 1) as int));
            }
            k = k + 1;
        }
        proof {
            assert(tail.take(tail.len() as int) =~= tail);
        }
    }
    Ok(RemovePostOutcome { post: post_out, modlog })
}

/// Copies one log entry out of a list.
fn modlog_entry_snapshot(entries: &Vec<ModlogEntry>, k: usize) -> (r: ModlogEntry)
    requires
        k < entries@.len(),
    ensures
        r@ == entries.deep_view()[k as int],
{
    match &entries[k] {
        ModlogEntry::RemoveComment {
            mod_person_id,
            other_person_id,
            comment_id,
            content,
            removed,
            reason,
        } => ModlogEntry::RemoveComment {
            mod_person_id: *mod_person_id,
            other_person_id: *other_person_id,
            comment_id: *comment_id,
            content: content.clone(),
            removed: *removed,
            reason: clone_reason(reason),
        },
        ModlogEntry::RemovePost {
            mod_person_id,
            other_person_id,
            post_id,
            name,
            removed,
            reason,
        } => ModlogEntry::RemovePost {
            mod_person_id: *mod_person_id,
            other_person_id: *other_person_id,
            post_id: *post_id,
            name: name.clone(),
            removed: *removed,
            reason: clone_reason(reason),
        },
        ModlogEntry::CommentWarning { mod_person_id, other_person_id, comment_id, reason } => {
            ModlogEntry::CommentWarning {
                mod_person_id: *mod_person_id,
                other_person_id: *other_person_id,
                comment_id: *comment_id,
                reason: reason.clone(),
            }
        },
        ModlogEntry::PostWarning { mod_person_id, other_person_id, post_id, reason } => {
            ModlogEntry::PostWarning {
                mod_person_id: *mod_person_id,
                other_person_id: *other_person_id,
                post_id: *post_id,
                reason: reason.clone(),
            }
        },
    }
}

/// Issues a warning against a comment: one log entry recording
/// actor, target and reason, with no state transition. A deleted or
/// already-removed comment is rejected with `Deleted`, so no warning
/// can surface content that is hidden.
pub fn create_comment_warning(c: &Comment, mod_person_id: u64, reason: &String) -> (r: Result<
    ModlogEntry,
    CoreError,
>)
    ensures
        c@.deleted || c@.removed ==> r == Err::<ModlogEntry, CoreError>(CoreError::Deleted),
        !c@.deleted && !c@.removed ==> (r matches Ok(e) && e@
            == SpecModlogEntry::CommentWarning {
            mod_person_id,
            other_person_id: c@.creator_id,
            comment_id: c@.id,
            reason: reason@,
        }),
{
    if c.deleted || c.removed {
        return Err(CoreError::Deleted);
    }
    Ok(
        ModlogEntry::CommentWarning {
            mod_person_id,
            other_person_id: c.creator_id,
            comment_id: c.id,
            reason: reason.clone(),
        },
    )
}

/// Issues a warning against a post: one log entry recording actor,
/// target and reason, with no state transition.
pub fn create_post_warning(p: &Post, mod_person_id: u64, reason: &String) -> (r: ModlogEntry)
    ensures
        r@ == (SpecModlogEntry::PostWarning {
            mod_person_id,
            other_person_id: p@.creator_id,
            post_id: p@.id,
            reason: reason@,
        }),
{
    ModlogEntry::PostWarning {
        mod_person_id,
        other_person_id: p.creator_id,
        post_id: p.id,
        reason: reason.clone(),
    }
}

} // verus!
