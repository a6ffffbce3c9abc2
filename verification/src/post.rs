//! Posts, as the moderation engine reads them.

use vstd::prelude::*;

verus! {

/// A post row, as the engine reads it.
///
/// As with comments, `removed` is the moderator action and `deleted`
/// the author action.
#[derive(Clone, Debug, PartialEq)]
pub struct Post {
    pub id: u64,
    pub creator_id: u64,
    pub community_id: u64,
    pub name: String,
    pub removed: bool,
    pub deleted: bool,
}

/// The mathematical model of a post row.
#[verifier::ext_equal]
pub struct SpecPost {
    pub id: u64,
    pub creator_id: u64,
    pub community_id: u64,
    pub name: Seq<char>,
    pub removed: bool,
    pub deleted: bool,
}

impl View for Post {
    type V = SpecPost;

    open spec fn view(&self) -> SpecPost {
        SpecPost {
            id: self.id,
            creator_id: self.creator_id,
            community_id: self.community_id,
            name: self.name@,
            removed: self.removed,
            deleted: self.deleted,
        }
    }
}

impl DeepView for Post {
    type V = SpecPost;

    open spec fn deep_view(&self) -> SpecPost {
        self.view()
    }
}

/// A post with its `removed` flag set to the given state; nothing
/// else changes.
pub open spec fn spec_set_post_removed(p: SpecPost, removed: bool) -> SpecPost {
    SpecPost { removed, ..p }
}

/// Index of the first post with the given id, or `-1` when absent.
pub open spec fn spec_post_index(s: Seq<SpecPost>, id: u64) -> int
    decreases s.len(),
{
    if s.len() == 0 {
        -1
    } else if s[0].id == id {
        0
    } else {
        let rest = spec_post_index(s.skip(1), id);
        if rest < 0 {
            -1
        } else {
            rest + 1
        }
    }
}

/// `spec_post_index` points at the first matching row.
pub proof fn lemma_post_index_first_match(s: Seq<SpecPost>, id: u64)
    ensures
        spec_post_index(s, id) < 0 ==> forall|k: int| 0 <= k < s.len() ==> s[k].id != id,
        spec_post_index(s, id) >= 0 ==> {
            let i = spec_post_index(s, id);
            &&& i < s.len()
            &&& s[i].id == id
            &&& forall|k: int| 0 <= k < i ==> s[k].id != id
        },
    decreases s.len(),
{
    if s.len() > 0 && s[0].id != id {
        lemma_post_index_first_match(s.skip(1), id);
        assert forall|k: int| 1 <= k < s.len() implies s[k] == s.skip(1)[k - 1] by {}
    }
}

/// Index of the first post with the given id in the store.
pub fn find_post_index(posts: &Vec<Post>, post_id: u64) -> (r: Option<usize>)
    ensures
        ({
            let i = spec_post_index(posts.deep_view(), post_id);
            match r {
                Some(j) => i == j && j < posts@.len(),
                None => i < 0,
            }
        }),
{
    let ghost ps = posts.deep_view();
    proof {
        lemma_post_index_first_match(ps, post_id);
    }
    let mut j: usize = 0;
    while j < posts.len()
        invariant
            j <= ps.len(),
            forall|k: int| 0 <= k < j ==> ps[k].id != post_id,
        decreases ps.len() - j,
    {
        if posts[j].id == post_id {
            assert(ps[j as int].id == post_id);
            return Some(j);
        }
        j = j + 1;
    }
    assert(spec_post_index(ps, post_id) < 0) by {
        if spec_post_index(ps, post_id) >= 0 {
            assert(ps[spec_post_index(ps, post_id)].id == post_id);
        }
    }
    None
}

/// A fresh post row equal to `p`.
pub fn post_snapshot(p: &Post) -> (r: Post)
    ensures
        r@ == p@,
{
    Post {
        id: p.id,
        creator_id: p.creator_id,
        community_id: p.community_id,
        name: p.name.clone(),
        removed: p.removed,
        deleted: p.deleted,
    }
}

/// A fresh post row equal to `p` up to the `removed` flag, which is
/// set to the given state.
pub fn post_with_removed(p: &Post, removed: bool) -> (r: Post)
    ensures
        r@ == spec_set_post_removed(p@, removed),
{
    Post {
        id: p.id,
        creator_id: p.creator_id,
        community_id: p.community_id,
        name: p.name.clone(),
        removed,
        deleted: p.deleted,
    }
}

} // verus!
