//! Comments and the hierarchical path that places each one in its
//! thread.
//!
//! A comment's position is a materialized path: an ordered sequence
//! of labels from the thread root down to the comment itself. A is an
//! ancestor of (or equal to) B exactly when A's path is a prefix of
//! B's path, so a whole subtree can be addressed without walking the
//! tree. The path is assigned once at creation and never mutated;
//! moderation touches only the `removed` flag.

use vstd::prelude::*;

verus! {

/// A comment row, as the engine reads it.
///
/// `removed` is the moderator action, `deleted` the author action;
/// the two flags are independent.
#[derive(Clone, Debug, PartialEq)]
pub struct Comment {
    pub id: u64,
    pub creator_id: u64,
    pub post_id: u64,
    pub path: Vec<u64>,
    pub content: String,
    pub removed: bool,
    pub deleted: bool,
}

/// The mathematical model of a comment row.
#[verifier::ext_equal]
pub struct SpecComment {
    pub id: u64,
    pub creator_id: u64,
    pub post_id: u64,
    pub path: Seq<u64>,
    pub content: Seq<char>,
    pub removed: bool,
    pub deleted: bool,
}

impl View for Comment {
    type V = SpecComment;

    open spec fn view(&self) -> SpecComment {
        SpecComment {
            id: self.id,
            creator_id: self.creator_id,
            post_id: self.post_id,
            path: self.path@,
            content: self.content@,
            removed: self.removed,
            deleted: self.deleted,
        }
    }
}

impl DeepView for Comment {
    type V = SpecComment;

    open spec fn deep_view(&self) -> SpecComment {
        self.view()
    }
}

/// Ancestor-or-equal over materialized paths: `p` leads to the root
/// of a subtree and `q` lies inside it exactly when `p` is a prefix
/// of `q`.
pub open spec fn is_path_prefix(p: Seq<u64>, q: Seq<u64>) -> bool {
    p.len() <= q.len() && q.subrange(0, p.len() as int) == p
}

/// Decides prefix containment of one path in another.
pub fn path_is_prefix(p: &Vec<u64>, q: &Vec<u64>) -> (r: bool)
    ensures
        r == is_path_prefix(p@, q@),
{
    if p.len() > q.len() {
        return false;
    }
    let mut i: usize = 0;
    while i < p.len()
        invariant
            i <= p@.len() <= q@.len(),
            forall|k: int| 0 <= k < i ==> p@[k] == q@[k],
        decreases p@.len() - i,
    {
        if p[i] != q[i] {
            assert(!is_path_prefix(p@, q@)) by {
                assert(q@.subrange(0, p@.len() as int)[i as int] == q@[i as int]);
            }
            return false;
        }
        i = i + 1;
    }
    assert(q@.subrange(0, p@.len() as int) =~= p@);
    true
}

/// A comment with its `removed` flag set to the given state; nothing
/// else changes.
pub open spec fn spec_set_removed(c: SpecComment, removed: bool) -> SpecComment {
    SpecComment { removed, ..c }
}

/// The comments of the subtree rooted at `path`: the row filter of
/// a comment cascade.
pub open spec fn subtree_pred(path: Seq<u64>) -> spec_fn(SpecComment) -> bool {
    |c: SpecComment| is_path_prefix(path, c.path)
}

/// The comments of one post: the row filter of a post cascade.
pub open spec fn post_comments_pred(post_id: u64) -> spec_fn(SpecComment) -> bool {
    |c: SpecComment| c.post_id == post_id
}

/// The store after a bulk moderation update: every comment satisfying
/// `pred` has its `removed` flag set to the given state, every other
/// comment is untouched, and no row moves or disappears.
pub open spec fn spec_bulk_set_removed(
    s: Seq<SpecComment>,
    pred: spec_fn(SpecComment) -> bool,
    removed: bool,
) -> Seq<SpecComment> {
    Seq::new(
        s.len(),
        |i: int|
            if pred(s[i]) {
                spec_set_removed(s[i], removed)
            } else {
                s[i]
            },
    )
}

/// The updated rows that a bulk moderation update reports back, in
/// store order: the new state of every comment satisfying `pred`.
pub open spec fn spec_updated_rows(
    s: Seq<SpecComment>,
    pred: spec_fn(SpecComment) -> bool,
    removed: bool,
) -> Seq<SpecComment>
    decreases s.len(),
{
    if s.len() == 0 {
        Seq::empty()
    } else {
        let rest = spec_updated_rows(s.skip(1), pred, removed);
        if pred(s[0]) {
            seq![spec_set_removed(s[0], removed)] + rest
        } else {
            rest
        }
    }
}

/// Prefixes of one sequence are comparable: of two subtree roots
/// that both contain a comment, one contains the other.
pub proof fn lemma_prefixes_comparable(p1: Seq<u64>, p2: Seq<u64>, q: Seq<u64>)
    requires
        is_path_prefix(p1, q),
        is_path_prefix(p2, q),
        p1.len() <= p2.len(),
    ensures
        is_path_prefix(p1, p2),
{
    assert(p2.subrange(0, p1.len() as int) =~= q.subrange(0, p1.len() as int));
}

/// Two bulk moderation updates whose filters never pick the same
/// comment are independent: they commute. The filters must not read
/// the `removed` flag they write, which holds of every filter a
/// cascade uses (they read the path or the post alone).
pub proof fn lemma_disjoint_bulk_updates_commute(
    s: Seq<SpecComment>,
    p1: spec_fn(SpecComment) -> bool,
    p2: spec_fn(SpecComment) -> bool,
    b1: bool,
    b2: bool,
)
    requires
        forall|c: SpecComment| !(#[trigger] p1(c) && p2(c)),
        forall|c: SpecComment, b: bool| #[trigger] p1(spec_set_removed(c, b)) == p1(c),
        forall|c: SpecComment, b: bool| #[trigger] p2(spec_set_removed(c, b)) == p2(c),
    ensures
        spec_bulk_set_removed(spec_bulk_set_removed(s, p1, b1), p2, b2) == spec_bulk_set_removed(
            spec_bulk_set_removed(s, p2, b2),
            p1,
            b1,
        ),
{
    assert(spec_bulk_set_removed(spec_bulk_set_removed(s, p1, b1), p2, b2)
        =~= spec_bulk_set_removed(spec_bulk_set_removed(s, p2, b2), p1, b1));
}

/// The ordering guarantee for concurrent moderation: two cascades on
/// disjoint subtrees — neither root inside the other's subtree —
/// land in the same state in either order.
pub proof fn lemma_disjoint_subtree_cascades_commute(
    s: Seq<SpecComment>,
    path1: Seq<u64>,
    path2: Seq<u64>,
    b1: bool,
    b2: bool,
)
    requires
        !is_path_prefix(path1, path2),
        !is_path_prefix(path2, path1),
    ensures
        spec_bulk_set_removed(
            spec_bulk_set_removed(s, subtree_pred(path1), b1),
            subtree_pred(path2),
            b2,
        ) == spec_bulk_set_removed(
            spec_bulk_set_removed(s, subtree_pred(path2), b2),
            subtree_pred(path1),
            b1,
        ),
{
    assert forall|c: SpecComment| !(#[trigger] subtree_pred(path1)(c) && subtree_pred(path2)(
        c,
    )) by {
        if is_path_prefix(path1, c.path) && is_path_prefix(path2, c.path) {
            if path1.len() <= path2.len() {
                lemma_prefixes_comparable(path1, path2, c.path);
            } else {
                lemma_prefixes_comparable(path2, path1, c.path);
            }
        }
    }
    lemma_disjoint_bulk_updates_commute(s, subtree_pred(path1), subtree_pred(path2), b1, b2);
}

/// Index of the first comment with the given id, or `-1` when absent.
pub open spec fn spec_comment_index(s: Seq<SpecComment>, id: u64) -> int
    decreases s.len(),
{
    if s.len() == 0 {
        -1
    } else if s[0].id == id {
        0
    } else {
        let rest = spec_comment_index(s.skip(1), id);
        if rest < 0 {
            -1
        } else {
            rest + 1
        }
    }
}

/// `spec_comment_index` points at the first matching row.
pub proof fn lemma_comment_index_first_match(s: Seq<SpecComment>, id: u64)
    ensures
        spec_comment_index(s, id) < 0 ==> forall|k: int| 0 <= k < s.len() ==> s[k].id != id,
        spec_comment_index(s, id) >= 0 ==> {
            let i = spec_comment_index(s, id);
            &&& i < s.len()
            &&& s[i].id == id
            &&& forall|k: int| 0 <= k < i ==> s[k].id != id
        },
    decreases s.len(),
{
    if s.len() > 0 && s[0].id != id {
        lemma_comment_index_first_match(s.skip(1), id);
        assert forall|k: int| 1 <= k < s.len() implies s[k] == s.skip(1)[k - 1] by {}
    }
}

/// Subtree containment is reflexive: a root lies in its own
/// subtree.
pub proof fn lemma_path_prefix_self(p: Seq<u64>)
    ensures
        is_path_prefix(p, p),
{
    assert(p.subrange(0, p.len() as int) =~= p);
}

/// Index of the first comment with the given id in the store.
pub fn find_comment_index(comments: &Vec<Comment>, comment_id: u64) -> (r: Option<usize>)
    ensures
        ({
            let i = spec_comment_index(comments.deep_view(), comment_id);
            match r {
                Some(j) => i == j && j < comments@.len(),
                None => i < 0,
            }
        }),
{
    let ghost cs = comments.deep_view();
    proof {
        lemma_comment_index_first_match(cs, comment_id);
    }
    let mut j: usize = 0;
    while j < comments.len()
        invariant
            j <= cs.len(),
            forall|k: int| 0 <= k < j ==> cs[k].id != comment_id,
        decreases cs.len() - j,
    {
        if comments[j].id == comment_id {
            assert(cs[j as int].id == comment_id);
            return Some(j);
        }
        j = j + 1;
    }
    assert(spec_comment_index(cs, comment_id) < 0) by {
        if spec_comment_index(cs, comment_id) >= 0 {
            assert(cs[spec_comment_index(cs, comment_id)].id == comment_id);
        }
    }
    None
}

/// Copies a path label sequence.
pub fn clone_path(v: &Vec<u64>) -> (r: Vec<u64>)
    ensures
        r@ == v@,
{
    let mut r: Vec<u64> = Vec::new();
    let mut i: usize = 0;
    while i < v.len()
        invariant
            i <= v@.len(),
            r@ == v@.subrange(0, i as int),
        decreases v@.len() - i,
    {
        r.push(v[i]);
        assert(r@ =~= v@.subrange(0, (i + 1) as int));
        i = i + 1;
    }
    assert(r@ =~= v@);
    r
}

/// A fresh comment row equal to `c` up to the `removed` flag, which
/// is set to the given state.
pub fn comment_with_removed(c: &Comment, removed: bool) -> (r: Comment)
    ensures
        r@ == spec_set_removed(c@, removed),
{
    Comment {
        id: c.id,
        creator_id: c.creator_id,
        post_id: c.post_id,
        path: clone_path(&c.path),
        content: c.content.clone(),
        removed,
        deleted: c.deleted,
    }
}

/// A fresh comment row equal to `c`.
pub fn comment_snapshot(c: &Comment) -> (r: Comment)
    ensures
        r@ == c@,
{
    Comment {
        id: c.id,
        creator_id: c.creator_id,
        post_id: c.post_id,
        path: clone_path(&c.path),
        content: c.content.clone(),
        removed: c.removed,
        deleted: c.deleted,
    }
}

impl Comment {
    /// Bulk moderation update over a comment subtree: every comment
    /// whose path is prefixed by `path` — the root of the subtree
    /// included — transitions its `removed` flag to the given state
    /// in one pass, and the new state of exactly those rows is
    /// returned in store order. No other row changes.
    pub fn update_removed_for_comment_and_children(
        comments: &mut Vec<Comment>,
        path: &Vec<u64>,
        removed: bool,
    ) -> (updated: Vec<Comment>)
        ensures
            final(comments).deep_view() == spec_bulk_set_removed(
                old(comments).deep_view(),
                subtree_pred(path@),
                removed,
            ),
            updated.deep_view() == spec_updated_rows(
                old(comments).deep_view(),
                subtree_pred(path@),
                removed,
            ),
    {
        bulk_set_removed_where(comments, path, None, removed)
    }

    /// Bulk moderation update over the whole comment set of one post:
    /// every comment of that post transitions its `removed` flag to
    /// the given state, and the new state of exactly those rows is
    /// returned in store order. No other row changes.
    pub fn update_removed_for_post(
        comments: &mut Vec<Comment>,
        post_id: u64,
        removed: bool,
    ) -> (updated: Vec<Comment>)
        ensures
            final(comments).deep_view() == spec_bulk_set_removed(
                old(comments).deep_view(),
                post_comments_pred(post_id),
                removed,
            ),
            updated.deep_view() == spec_updated_rows(
                old(comments).deep_view(),
                post_comments_pred(post_id),
                removed,
            ),
    {
        bulk_set_removed_where(comments, &Vec::new(), Some(post_id), removed)
    }
}

/// The row filter that the two bulk updates share: subtree
/// containment under a path, or membership in one post's comment set.
spec fn bulk_pred(path: Seq<u64>, post_id: Option<u64>) -> spec_fn(SpecComment) -> bool {
    match post_id {
        Some(pid) => post_comments_pred(pid),
        None => subtree_pred(path),
    }
}

/// One shared implementation of the two bulk updates.
fn bulk_set_removed_where(
    comments: &mut Vec<Comment>,
    path: &Vec<u64>,
    post_id: Option<u64>,
    removed: bool,
) -> (updated: Vec<Comment>)
    ensures
        final(comments).deep_view() == spec_bulk_set_removed(
            old(comments).deep_view(),
            bulk_pred(path@, post_id),
            removed,
        ),
        updated.deep_view() == spec_updated_rows(
            old(comments).deep_view(),
            bulk_pred(path@, post_id),
            removed,
        ),
{
    let ghost s0 = old(comments).deep_view();
    let ghost pred = bulk_pred(path@, post_id);
    let mut updated: Vec<Comment> = Vec::new();
    let mut i: usize = 0;
    proof {
        assert(s0.skip(0) =~= s0);
        assert(updated.deep_view() + spec_updated_rows(s0, pred, removed) =~= spec_updated_rows(
            s0,
            pred,
            removed,
        ));
    }
    while i < comments.len()
        invariant
            i <= comments@.len(),
            comments@.len() == s0.len(),
            forall|k: int| i <= k < s0.len() ==> comments@[k].deep_view() == s0[k],
            forall|k: int|
                0 <= k < i ==> comments@[k].deep_view() == (if pred(s0[k]) {
                    spec_set_removed(s0[k], removed)
                } else {
                    s0[k]
                }),
            spec_updated_rows(s0, pred, removed) == updated.deep_view() + spec_updated_rows(
                s0.skip(i as int),
                pred,
                removed,
            ),
        decreases comments@.len() - i,
    {
        let ghost dv_pre = updated.deep_view();
        let hit = match post_id {
            Some(pid) => comments[i].post_id == pid,
            None => path_is_prefix(path, &comments[i].path),
        };
        assert(hit == pred(s0[i as int]));
        assert(s0.skip(i as int)[0] == s0[i as int]);
        assert(s0.skip(i as int).skip(1) =~= s0.skip((i + 1) as int));
        if hit {
            let row = comment_with_removed(&comments[i], removed);
            let row_copy = comment_snapshot(&row);
            comments.set(i, row);
            updated.push(row_copy);
            assert(updated.deep_view() =~= dv_pre.push(spec_set_removed(s0[i as int], removed)));
            assert(spec_updated_rows(s0.skip(i as int), pred, removed) == seq![
                spec_set_removed(s0[i as int], removed),
            ] + spec_updated_rows(s0.skip((i + 1) as int), pred, removed));
            assert(dv_pre.push(spec_set_removed(s0[i as int], removed)) + spec_updated_rows(
                s0.skip((i + 1) as int),
                pred,
                removed,
            ) =~= dv_pre + (seq![spec_set_removed(s0[i as int], removed)] + spec_updated_rows(
                s0.skip((i + 1) as int),
                pred,
                removed,
            )));
        } else {
            assert(spec_updated_rows(s0.skip(i as int), pred, removed) == spec_updated_rows(
                s0.skip((i + 1) as int),
                pred,
                removed,
            ));
        }
        i = i + 1;
    }
    assert(s0.skip(s0.len() as int) =~= Seq::<SpecComment>::empty());
    assert(spec_updated_rows(Seq::<SpecComment>::empty(), pred, removed) == Seq::<
        SpecComment,
    >::empty());
    assert(updated.deep_view() + Seq::<SpecComment>::empty() =~= updated.deep_view());
    assert(comments.deep_view() =~= spec_bulk_set_removed(s0, pred, removed));
    updated
}

} // verus!
