//! Community-owned tags and their federated reconciliation.
//!
//! A tag's `ap_id` is the globally unique, federation-stable
//! identifier assigned by the owning community; it is the only
//! identity that matters for reconciliation, while the numeric id is
//! node-local. A withdrawn tag is never physically removed: it is
//! tombstoned (`deleted` set, content fields cleared) so that its
//! absence can itself be federated and converged on by peers.

use vstd::prelude::*;

use crate::error::CoreError;

verus! {

/// A community tag row, as the engine reads it.
#[derive(Clone, Debug, PartialEq)]
pub struct CommunityTag {
    pub id: u64,
    pub ap_id: String,
    pub name: String,
    pub display_name: Option<String>,
    pub summary: Option<String>,
    pub community_id: u64,
    pub published_at: i64,
    pub updated_at: Option<i64>,
    pub deleted: bool,
    pub color: String,
}

/// The mathematical model of a community tag row.
#[verifier::ext_equal]
pub struct SpecCommunityTag {
    pub id: u64,
    pub ap_id: Seq<char>,
    pub name: Seq<char>,
    pub display_name: Option<Seq<char>>,
    pub summary: Option<Seq<char>>,
    pub community_id: u64,
    pub published_at: i64,
    pub updated_at: Option<i64>,
    pub deleted: bool,
    pub color: Seq<char>,
}

impl View for CommunityTag {
    type V = SpecCommunityTag;

    open spec fn view(&self) -> SpecCommunityTag {
        SpecCommunityTag {
            id: self.id,
            ap_id: self.ap_id@,
            name: self.name@,
            display_name: self.display_name.deep_view(),
            summary: self.summary.deep_view(),
            community_id: self.community_id,
            published_at: self.published_at,
            updated_at: self.updated_at,
            deleted: self.deleted,
            color: self.color@,
        }
    }
}

impl DeepView for CommunityTag {
    type V = SpecCommunityTag;

    open spec fn deep_view(&self) -> SpecCommunityTag {
        self.view()
    }
}

/// What an upsert into the tag store carries: one remote tag as the
/// decoder produced it, or a tombstone synthesized by the reconciler.
#[derive(Clone, Debug, PartialEq)]
pub struct CommunityTagInsertForm {
    pub ap_id: String,
    pub name: String,
    pub display_name: Option<String>,
    pub summary: Option<String>,
    pub community_id: u64,
    pub deleted: Option<bool>,
    pub color: Option<String>,
}

/// The mathematical model of an upsert form.
#[verifier::ext_equal]
pub struct SpecTagInsertForm {
    pub ap_id: Seq<char>,
    pub name: Seq<char>,
    pub display_name: Option<Seq<char>>,
    pub summary: Option<Seq<char>>,
    pub community_id: u64,
    pub deleted: Option<bool>,
    pub color: Option<Seq<char>>,
}

impl View for CommunityTagInsertForm {
    type V = SpecTagInsertForm;

    open spec fn view(&self) -> SpecTagInsertForm {
        SpecTagInsertForm {
            ap_id: self.ap_id@,
            name: self.name@,
            display_name: self.display_name.deep_view(),
            summary: self.summary.deep_view(),
            community_id: self.community_id,
            deleted: self.deleted,
            color: self.color.deep_view(),
        }
    }
}

impl DeepView for CommunityTagInsertForm {
    type V = SpecTagInsertForm;

    open spec fn deep_view(&self) -> SpecTagInsertForm {
        self.view()
    }
}

/// A partial update of one tag row: a field is written only where
/// the form holds a value for it.
#[derive(Clone, Debug, PartialEq, Default)]
pub struct CommunityTagUpdateForm {
    pub display_name: Option<Option<String>>,
    pub summary: Option<Option<String>>,
    pub community_id: Option<u64>,
    pub published_at: Option<i64>,
    pub updated_at: Option<Option<i64>>,
    pub deleted: Option<bool>,
    pub color: Option<String>,
}

/// The mathematical model of a partial update.
#[verifier::ext_equal]
pub struct SpecTagUpdateForm {
    pub display_name: Option<Option<Seq<char>>>,
    pub summary: Option<Option<Seq<char>>>,
    pub community_id: Option<u64>,
    pub published_at: Option<i64>,
    pub updated_at: Option<Option<i64>>,
    pub deleted: Option<bool>,
    pub color: Option<Seq<char>>,
}

impl View for CommunityTagUpdateForm {
    type V = SpecTagUpdateForm;

    open spec fn view(&self) -> SpecTagUpdateForm {
        SpecTagUpdateForm {
            display_name: self.display_name.deep_view(),
            summary: self.summary.deep_view(),
            community_id: self.community_id,
            published_at: self.published_at,
            updated_at: self.updated_at,
            deleted: self.deleted,
            color: self.color.deep_view(),
        }
    }
}

impl DeepView for CommunityTagUpdateForm {
    type V = SpecTagUpdateForm;

    open spec fn deep_view(&self) -> SpecTagUpdateForm {
        self.view()
    }
}

/// The tag rows of one community, bundled as a single value.
#[derive(Clone, Debug, PartialEq, Default)]
pub struct CommunityTagsView(pub Vec<CommunityTag>);

impl View for CommunityTagsView {
    type V = Seq<SpecCommunityTag>;

    open spec fn view(&self) -> Seq<SpecCommunityTag> {
        self.0.deep_view()
    }
}

/// An association between a post and a community tag.
#[derive(Clone, Copy, Debug, PartialEq, Eq, Structural)]
pub struct PostCommunityTag {
    pub post_id: u64,
    pub community_tag_id: u64,
    pub published_at: i64,
}

/// What a full replacement of a post's tag assignment carries.
#[derive(Clone, Copy, Debug, PartialEq, Eq, Structural)]
pub struct PostCommunityTagForm {
    pub post_id: u64,
    pub community_tag_id: u64,
}

/// Index of the first tag row satisfying `pred`, or `-1` when none
/// does.
pub open spec fn spec_tag_index_where(
    s: Seq<SpecCommunityTag>,
    pred: spec_fn(SpecCommunityTag) -> bool,
) -> int
    decreases s.len(),
{
    if s.len() == 0 {
        -1
    } else if pred(s[0]) {
        0
    } else {
        let rest = spec_tag_index_where(s.skip(1), pred);
        if rest < 0 {
            -1
        } else {
            rest + 1
        }
    }
}

/// `spec_tag_index_where` points at the first matching row.
pub proof fn lemma_tag_index_where_first_match(
    s: Seq<SpecCommunityTag>,
    pred: spec_fn(SpecCommunityTag) -> bool,
)
    ensures
        spec_tag_index_where(s, pred) < 0 ==> forall|k: int| 0 <= k < s.len() ==> !pred(s[k]),
        spec_tag_index_where(s, pred) >= 0 ==> {
            let i = spec_tag_index_where(s, pred);
            &&& i < s.len()
            &&& pred(s[i])
            &&& forall|k: int| 0 <= k < i ==> !pred(s[k])
        },
    decreases s.len(),
{
    if s.len() > 0 && !pred(s[0]) {
        lemma_tag_index_where_first_match(s.skip(1), pred);
        assert forall|k: int| 1 <= k < s.len() implies s[k] == s.skip(1)[k - 1] by {}
    }
}

/// The tag rows satisfying `pred`, in store order.
pub open spec fn spec_tags_where(
    s: Seq<SpecCommunityTag>,
    pred: spec_fn(SpecCommunityTag) -> bool,
) -> Seq<SpecCommunityTag>
    decreases s.len(),
{
    if s.len() == 0 {
        Seq::empty()
    } else {
        let rest = spec_tags_where(s.skip(1), pred);
        if pred(s[0]) {
            seq![s[0]] + rest
        } else {
            rest
        }
    }
}

/// Tag rows with one node-local id.
pub open spec fn tag_id_pred(tag_id: u64) -> spec_fn(SpecCommunityTag) -> bool {
    |t: SpecCommunityTag| t.id == tag_id
}

/// Live tag rows with one node-local id.
pub open spec fn live_tag_id_pred(tag_id: u64) -> spec_fn(SpecCommunityTag) -> bool {
    |t: SpecCommunityTag| t.id == tag_id && !t.deleted
}

/// Live tag rows carrying one federation identifier.
pub open spec fn live_ap_pred(ap_id: Seq<char>) -> spec_fn(SpecCommunityTag) -> bool {
    |t: SpecCommunityTag| t.ap_id == ap_id && !t.deleted
}

/// The live tag rows of one community.
pub open spec fn community_live_pred(community_id: u64) -> spec_fn(SpecCommunityTag) -> bool {
    |t: SpecCommunityTag| t.community_id == community_id && !t.deleted
}

/// Compares two strings by their characters.
pub fn string_eq(a: &String, b: &String) -> (r: bool)
    ensures
        r == (a@ == b@),
{
    a.eq(b)
}

/// Copies an optional string.
pub(crate) fn clone_opt_string(o: &Option<String>) -> (r: Option<String>)
    ensures
        r == *o,
{
    match o {
        Some(s) => Some(s.clone()),
        None => None,
    }
}

/// A fresh tag row equal to `t`.
pub fn tag_snapshot(t: &CommunityTag) -> (r: CommunityTag)
    ensures
        r == *t,
{
    CommunityTag {
        id: t.id,
        ap_id: t.ap_id.clone(),
        name: t.name.clone(),
        display_name: clone_opt_string(&t.display_name),
        summary: clone_opt_string(&t.summary),
        community_id: t.community_id,
        published_at: t.published_at,
        updated_at: t.updated_at,
        deleted: t.deleted,
        color: t.color.clone(),
    }
}

/// A fresh upsert form equal to `f`.
pub fn tag_form_snapshot(f: &CommunityTagInsertForm) -> (r: CommunityTagInsertForm)
    ensures
        r == *f,
{
    CommunityTagInsertForm {
        ap_id: f.ap_id.clone(),
        name: f.name.clone(),
        display_name: clone_opt_string(&f.display_name),
        summary: clone_opt_string(&f.summary),
        community_id: f.community_id,
        deleted: f.deleted,
        color: clone_opt_string(&f.color),
    }
}

/// A fresh row inserted from an upsert form: the form's fields, the
/// node-local id the store assigned, and the insertion time. An
/// absent `deleted` means a live row; an absent colour means the
/// store's plain default.
pub open spec fn spec_new_tag(f: SpecTagInsertForm, id: u64, now: i64) -> SpecCommunityTag {
    SpecCommunityTag {
        id,
        ap_id: f.ap_id,
        name: f.name,
        display_name: f.display_name,
        summary: f.summary,
        community_id: f.community_id,
        published_at: now,
        updated_at: None,
        deleted: spec_form_deleted(f),
        color: match f.color {
            Some(c) => c,
            None => Seq::empty(),
        },
    }
}

/// The lifecycle state an upsert form asks for; an absent value
/// means live.
pub open spec fn spec_form_deleted(f: SpecTagInsertForm) -> bool {
    match f.deleted {
        Some(b) => b,
        None => false,
    }
}

/// Builds the inserted row for a form.
fn new_tag_from_form(f: &CommunityTagInsertForm, id: u64, now: i64) -> (r: CommunityTag)
    ensures
        r@ == spec_new_tag(f@, id, now),
{
    CommunityTag {
        id,
        ap_id: f.ap_id.clone(),
        name: f.name.clone(),
        display_name: clone_opt_string(&f.display_name),
        summary: clone_opt_string(&f.summary),
        community_id: f.community_id,
        published_at: now,
        updated_at: None,
        deleted: match f.deleted {
            Some(b) => b,
            None => false,
        },
        color: match &f.color {
            Some(c) => c.clone(),
            None => String::new(),
        },
    }
}

/// One tag row after a partial update: a field takes the form's
/// value where the form holds one and keeps its own otherwise.
pub open spec fn spec_apply_update(t: SpecCommunityTag, f: SpecTagUpdateForm) -> SpecCommunityTag {
    SpecCommunityTag {
        display_name: match f.display_name {
            Some(v) => v,
            None => t.display_name,
        },
        summary: match f.summary {
            Some(v) => v,
            None => t.summary,
        },
        community_id: match f.community_id {
            Some(v) => v,
            None => t.community_id,
        },
        published_at: match f.published_at {
            Some(v) => v,
            None => t.published_at,
        },
        updated_at: match f.updated_at {
            Some(v) => v,
            None => t.updated_at,
        },
        deleted: match f.deleted {
            Some(v) => v,
            None => t.deleted,
        },
        color: match f.color {
            Some(v) => v,
            None => t.color,
        },
        ..t
    }
}

/// Builds the updated row for a partial update.
fn tag_with_update(t: &CommunityTag, f: &CommunityTagUpdateForm) -> (r: CommunityTag)
    ensures
        r@ == spec_apply_update(t@, f@),
{
    CommunityTag {
        id: t.id,
        ap_id: t.ap_id.clone(),
        name: t.name.clone(),
        display_name: match &f.display_name {
            Some(v) => clone_opt_string(v),
            None => clone_opt_string(&t.display_name),
        },
        summary: match &f.summary {
            Some(v) => clone_opt_string(v),
            None => clone_opt_string(&t.summary),
        },
        community_id: match f.community_id {
            Some(v) => v,
            None => t.community_id,
        },
        published_at: match f.published_at {
            Some(v) => v,
            None => t.published_at,
        },
        updated_at: match f.updated_at {
            Some(v) => v,
            None => t.updated_at,
        },
        deleted: match f.deleted {
            Some(v) => v,
            None => t.deleted,
        },
        color: match &f.color {
            Some(v) => v.clone(),
            None => t.color.clone(),
        },
    }
}

impl CommunityTag {
    /// Inserts a new tag row under a fresh node-local id. The
    /// `ap_id` must stay unique across the store, so an existing row
    /// with the same `ap_id` rejects the insert with `CouldntCreate`
    /// and nothing changes; otherwise the new row is appended and
    /// returned.
    pub fn create(
        tags: &mut Vec<CommunityTag>,
        form: &CommunityTagInsertForm,
        tag_id: u64,
        now: i64,
    ) -> (r: Result<CommunityTag, CoreError>)
        ensures
            ({
                let s = old(tags).deep_view();
                let i = spec_tag_index_where(s, ap_pred(form.ap_id@));
                &&& i >= 0 ==> r == Err::<CommunityTag, CoreError>(CoreError::CouldntCreate)
                    && final(tags)@ == old(tags)@
                &&& i < 0 ==> {
                    &&& final(tags).deep_view() == s.push(spec_new_tag(form@, tag_id, now))
                    &&& (r matches Ok(row) && row@ == spec_new_tag(form@, tag_id, now))
                }
            }),
    {
        let ghost s = old(tags).deep_view();
        let ghost pred = ap_pred(form.ap_id@);
        proof {
            lemma_tag_index_where_first_match(s, pred);
        }
        let mut i: usize = 0;
        while i < tags.len()
            invariant
                i <= s.len(),
                tags@ == old(tags)@,
                forall|k: int| 0 <= k < i ==> !pred(s[k]),
            decreases s.len() - i,
        {
            if string_eq(&tags[i].ap_id, &form.ap_id) {
                assert(pred(s[i as int]));
                return Err(CoreError::CouldntCreate);
            }
            i = i + 1;
        }
        assert(spec_tag_index_where(s, pred) < 0) by {
            if spec_tag_index_where(s, pred) >= 0 {
                assert(pred(s[spec_tag_index_where(s, pred)]));
            }
        }
        let row = new_tag_from_form(form, tag_id, now);
        let out = tag_snapshot(&row);
        tags.push(row);
        proof {
            assert(tags.deep_view() =~= s.push(spec_new_tag(form@, tag_id, now)));
        }
        Ok(out)
    }

    /// Reads one tag row by its node-local id; `NotFound` when no
    /// such row exists.
    pub fn read(tags: &Vec<CommunityTag>, tag_id: u64) -> (r: Result<CommunityTag, CoreError>)
        ensures
            ({
                let s = tags.deep_view();
                let i = spec_tag_index_where(s, tag_id_pred(tag_id));
                &&& i < 0 ==> r == Err::<CommunityTag, CoreError>(CoreError::NotFound)
                &&& i >= 0 ==> (r matches Ok(row) && row@ == s[i])
            }),
    {
        let ghost s = tags.deep_view();
        let ghost pred = tag_id_pred(tag_id);
        proof {
            lemma_tag_index_where_first_match(s, pred);
        }
        let mut i: usize = 0;
        while i < tags.len()
            invariant
                i <= s.len(),
                forall|k: int| 0 <= k < i ==> !pred(s[k]),
            decreases s.len() - i,
        {
            if tags[i].id == tag_id {
                assert(pred(s[i as int]));
                return Ok(tag_snapshot(&tags[i]));
            }
            i = i + 1;
        }
        assert(spec_tag_index_where(s, pred) < 0) by {
            if spec_tag_index_where(s, pred) >= 0 {
                assert(pred(s[spec_tag_index_where(s, pred)]));
            }
        }
        Err(CoreError::NotFound)
    }

    /// Applies a partial update to the tag row with the given id and
    /// returns the updated row; `CouldntUpdate` when no such row
    /// exists, and then nothing changes.
    pub fn update(
        tags: &mut Vec<CommunityTag>,
        tag_id: u64,
        form: &CommunityTagUpdateForm,
    ) -> (r: Result<CommunityTag, CoreError>)
        ensures
            ({
                let s = old(tags).deep_view();
                let i = spec_tag_index_where(s, tag_id_pred(tag_id));
                &&& i < 0 ==> r == Err::<CommunityTag, CoreError>(CoreError::CouldntUpdate)
                    && final(tags)@ == old(tags)@
                &&& i >= 0 ==> {
                    &&& final(tags).deep_view() == s.update(i, spec_apply_update(s[i], form@))
                    &&& (r matches Ok(row) && row@ == spec_apply_update(s[i], form@))
                }
            }),
    {
        let ghost s = old(tags).deep_view();
        let ghost pred = tag_id_pred(tag_id);
        proof {
            lemma_tag_index_where_first_match(s, pred);
        }
        let mut i: usize = 0;
        while i < tags.len()
            invariant
                i <= s.len(),
                tags@ == old(tags)@,
                forall|k: int| 0 <= k < i ==> !pred(s[k]),
            decreases s.len() - i,
        {
            if tags[i].id == tag_id {
                assert(pred(s[i as int]));
                let row = tag_with_update(&tags[i], form);
                let out = tag_snapshot(&row);
                tags.set(i, row);
                proof {
                    assert(tags.deep_view() =~= s.update(
                        i as int,
                        spec_apply_update(s[i as int], form@),
                    ));
                }
                return Ok(out);
            }
            i = i + 1;
        }
        assert(spec_tag_index_where(s, pred) < 0) by {
            if spec_tag_index_where(s, pred) >= 0 {
                assert(pred(s[spec_tag_index_where(s, pred)]));
            }
        }
        Err(CoreError::CouldntUpdate)
    }

    /// The live (non-tombstoned) tags of one community, in store
    /// order.
    pub fn read_for_community(tags: &Vec<CommunityTag>, community_id: u64) -> (r: Vec<
        CommunityTag,
    >)
        ensures
            r.deep_view() == spec_tags_where(tags.deep_view(), community_live_pred(community_id)),
    {
        let ghost s = tags.deep_view();
        let ghost pred = community_live_pred(community_id);
        let mut r: Vec<CommunityTag> = Vec::new();
        let mut i: usize = 0;
        proof {
            assert(s.skip(0) =~= s);
            assert(r.deep_view() + spec_tags_where(s, pred) =~= spec_tags_where(s, pred));
        }
        while i < tags.len()
            invariant
                i <= s.len(),
                spec_tags_where(s, pred) == r.deep_view() + spec_tags_where(
                    s.skip(i as int),
                    pred,
                ),
            decreases s.len() - i,
        {
            let ghost dv_pre = r.deep_view();
            proof {
                assert(s.skip(i as int)[0] == s[i as int]);
                assert(s.skip(i as int).skip(1) =~= s.skip((i + 1) as int));
            }
            if tags[i].community_id == community_id && !tags[i].deleted {
                let row = tag_snapshot(&tags[i]);
                r.push(row);
                proof {
                    assert(r.deep_view() =~= dv_pre.push(s[i as int]));
                    assert(dv_pre.push(s[i as int]) + spec_tags_where(s.skip((i + 1) as int), pred)
                        =~= dv_pre + (seq![s[i as int]] + spec_tags_where(
                        s.skip((i + 1) as int),
                        pred,
                    )));
                }
            }
            i = i + 1;
        }
        proof {
            assert(s.skip(s.len() as int) =~= Seq::<SpecCommunityTag>::empty());
            assert(r.deep_view() + Seq::<SpecCommunityTag>::empty() =~= r.deep_view());
        }
        r
    }

    /// Reads the live tag row carrying the given federation
    /// identifier; `NotFound` when no live row carries it.
    pub fn read_apub(tags: &Vec<CommunityTag>, ap_id: &String) -> (r: Result<
        CommunityTag,
        CoreError,
    >)
        ensures
            ({
                let s = tags.deep_view();
                let i = spec_tag_index_where(s, live_ap_pred(ap_id@));
                &&& i < 0 ==> r == Err::<CommunityTag, CoreError>(CoreError::NotFound)
                &&& i >= 0 ==> (r matches Ok(row) && row@ == s[i])
            }),
    {
        let ghost s = tags.deep_view();
        let ghost pred = live_ap_pred(ap_id@);
        proof {
            lemma_tag_index_where_first_match(s, pred);
        }
        let mut i: usize = 0;
        while i < tags.len()
            invariant
                i <= s.len(),
                forall|k: int| 0 <= k < i ==> !pred(s[k]),
            decreases s.len() - i,
        {
            if !tags[i].deleted && string_eq(&tags[i].ap_id, ap_id) {
                assert(pred(s[i as int]));
                return Ok(tag_snapshot(&tags[i]));
            }
            i = i + 1;
        }
        assert(spec_tag_index_where(s, pred) < 0) by {
            if spec_tag_index_where(s, pred) >= 0 {
                assert(pred(s[spec_tag_index_where(s, pred)]));
            }
        }
        Err(CoreError::NotFound)
    }
}

/// The live tag rows assigned to one post, in assignment order: the
/// join of the association table with the tag store.
pub open spec fn spec_post_tag_rows(
    assocs: Seq<PostCommunityTag>,
    tags: Seq<SpecCommunityTag>,
    post_id: u64,
) -> Seq<SpecCommunityTag>
    decreases assocs.len(),
{
    if assocs.len() == 0 {
        Seq::empty()
    } else {
        let rest = spec_post_tag_rows(assocs.skip(1), tags, post_id);
        let i = spec_tag_index_where(tags, live_tag_id_pred(assocs[0].community_tag_id));
        if assocs[0].post_id == post_id && i >= 0 {
            seq![tags[i]] + rest
        } else {
            rest
        }
    }
}

/// Index of the first live tag row with the given node-local id.
fn find_live_tag_index(tags: &Vec<CommunityTag>, tag_id: u64) -> (r: Option<usize>)
    ensures
        ({
            let i = spec_tag_index_where(tags.deep_view(), live_tag_id_pred(tag_id));
            match r {
                Some(j) => i == j && j < tags@.len(),
                None => i < 0,
            }
        }),
{
    let ghost ts = tags.deep_view();
    let ghost pred = live_tag_id_pred(tag_id);
    proof {
        lemma_tag_index_where_first_match(ts, pred);
    }
    let mut j: usize = 0;
    while j < tags.len()
        invariant
            j <= ts.len(),
            forall|k: int| 0 <= k < j ==> !pred(ts[k]),
        decreases ts.len() - j,
    {
        if tags[j].id == tag_id && !tags[j].deleted {
            assert(pred(ts[j as int]));
            return Some(j);
        }
        j = j + 1;
    }
    assert(spec_tag_index_where(ts, pred) < 0) by {
        if spec_tag_index_where(ts, pred) >= 0 {
            assert(pred(ts[spec_tag_index_where(ts, pred)]));
        }
    }
    None
}

impl CommunityTag {
    /// The live tags assigned to one post, in assignment order.
    pub fn read_for_post(
        assocs: &Vec<PostCommunityTag>,
        tags: &Vec<CommunityTag>,
        post_id: u64,
    ) -> (r: Vec<CommunityTag>)
        ensures
            r.deep_view() == spec_post_tag_rows(assocs@, tags.deep_view(), post_id),
    {
        let ghost ts = tags.deep_view();
        let mut r: Vec<CommunityTag> = Vec::new();
        let mut i: usize = 0;
        proof {
            assert(assocs@.skip(0) =~= assocs@);
            assert(r.deep_view() + spec_post_tag_rows(assocs@, ts, post_id) =~= spec_post_tag_rows(
                assocs@,
                ts,
                post_id,
            ));
        }
        while i < assocs.len()
            invariant
                i <= assocs@.len(),
                spec_post_tag_rows(assocs@, ts, post_id) == r.deep_view() + spec_post_tag_rows(
                    assocs@.skip(i as int),
                    ts,
                    post_id,
                ),
            decreases assocs@.len() - i,
        {
            let ghost dv_pre = r.deep_view();
            proof {
                assert(assocs@.skip(i as int)[0] == assocs@[i as int]);
                assert(assocs@.skip(i as int).skip(1) =~= assocs@.skip((i + 1) as int));
            }
            if assocs[i].post_id == post_id {
                let found = find_live_tag_index(tags, assocs[i].community_tag_id);
                if let Some(j) = found {
                    let row = tag_snapshot(&tags[j]);
                    r.push(row);
                    proof {
                        assert(r.deep_view() =~= dv_pre.push(ts[j as int]));
                        assert(dv_pre.push(ts[j as int]) + spec_post_tag_rows(
                            assocs@.skip((i + 1) as int),
                            ts,
                            post_id,
                        ) =~= dv_pre + (seq![ts[j as int]] + spec_post_tag_rows(
                            assocs@.skip((i + 1) as int),
                            ts,
                            post_id,
                        )));
                    }
                }
            }
            i = i + 1;
        }
        proof {
            assert(assocs@.skip(assocs@.len() as int) =~= Seq::<PostCommunityTag>::empty());
            assert(r.deep_view() + Seq::<SpecCommunityTag>::empty() =~= r.deep_view());
        }
        r
    }
}

/// The association rows that a full replacement keeps: everything
/// belonging to other posts, in store order.
pub open spec fn spec_assocs_without_post(s: Seq<PostCommunityTag>, post_id: u64) -> Seq<
    PostCommunityTag,
>
    decreases s.len(),
{
    if s.len() == 0 {
        Seq::empty()
    } else {
        let rest = spec_assocs_without_post(s.skip(1), post_id);
        if s[0].post_id == post_id {
            rest
        } else {
            seq![s[0]] + rest
        }
    }
}

/// The association rows that a full replacement writes for one post.
pub open spec fn spec_new_assocs(ids: Seq<u64>, post_id: u64, now: i64) -> Seq<PostCommunityTag> {
    Seq::new(
        ids.len(),
        |i: int| PostCommunityTag { post_id, community_tag_id: ids[i], published_at: now },
    )
}

impl PostCommunityTag {
    /// Replaces a post's tag assignment wholesale: every existing
    /// association of that post goes, one association per given tag
    /// id comes, and the new associations are returned. Associations
    /// of other posts keep their store order and values.
    pub fn update(
        assocs: &mut Vec<PostCommunityTag>,
        post_id: u64,
        community_tag_ids: &Vec<u64>,
        now: i64,
    ) -> (r: Vec<PostCommunityTag>)
        ensures
            final(assocs)@ == spec_assocs_without_post(old(assocs)@, post_id) + spec_new_assocs(
                community_tag_ids@,
                post_id,
                now,
            ),
            r@ == spec_new_assocs(community_tag_ids@, post_id, now),
    {
        let ghost s0 = old(assocs)@;
        let mut kept: Vec<PostCommunityTag> = Vec::new();
        let mut i: usize = 0;
        proof {
            assert(s0.skip(0) =~= s0);
            assert(kept@ + spec_assocs_without_post(s0, post_id) =~= spec_assocs_without_post(
                s0,
                post_id,
            ));
        }
        while i < assocs.len()
            invariant
                i <= s0.len(),
                assocs@ == s0,
                spec_assocs_without_post(s0, post_id) == kept@ + spec_assocs_without_post(
                    s0.skip(i as int),
                    post_id,
                ),
            decreases s0.len() - i,
        {
            proof {
                assert(s0.skip(i as int)[0] == s0[i as int]);
                assert(s0.skip(i as int).skip(1) =~= s0.skip((i + 1) as int));
            }
            if assocs[i].post_id != post_id {
                let ghost kept_pre = kept@;
                kept.push(assocs[i]);
                proof {
                    assert(kept_pre.push(s0[i as int]) + spec_assocs_without_post(
                        s0.skip((i + 1) as int),
                        post_id,
                    ) =~= kept_pre + (seq![s0[i as int]] + spec_assocs_without_post(
                        s0.skip((i + 1) as int),
                        post_id,
                    )));
                }
            }
            i = i + 1;
        }
        let mut fresh: Vec<PostCommunityTag> = Vec::new();
        let mut j: usize = 0;
        proof {
            assert(s0.skip(s0.len() as int) =~= Seq::<PostCommunityTag>::empty());
            assert(kept@ + Seq::<PostCommunityTag>::empty() =~= kept@);
            assert(spec_new_assocs(community_tag_ids@, post_id, now).take(0) =~= fresh@);
            assert(kept@ + fresh@ =~= kept@);
        }
        while j < community_tag_ids.len()
            invariant
                j <= community_tag_ids@.len(),
                fresh@ == spec_new_assocs(community_tag_ids@, post_id, now).take(j as int),
                kept@ == spec_assocs_without_post(s0, post_id) + fresh@,
            decreases community_tag_ids@.len() - j,
        {
            let row = PostCommunityTag {
                post_id,
                community_tag_id: community_tag_ids[j],
                published_at: now,
            };
            fresh.push(row);
            kept.push(row);
            proof {
                assert(fresh@ =~= spec_new_assocs(community_tag_ids@, post_id, now).take(
                    (j + 1) as int,
                ));
                assert(kept@ =~= spec_assocs_without_post(s0, post_id) + fresh@);
            }
            j = j + 1;
        }
        proof {
            assert(spec_new_assocs(community_tag_ids@, post_id, now).take(
                community_tag_ids@.len() as int,
            ) =~= spec_new_assocs(community_tag_ids@, post_id, now));
        }
        *assocs = kept;
        fresh
    }
}

/// The filter that keys the whole reconciliation: rows carrying one
/// federation identifier.
pub open spec fn ap_pred(ap_id: Seq<char>) -> spec_fn(SpecCommunityTag) -> bool {
    |t: SpecCommunityTag| t.ap_id == ap_id
}

/// Whether the remote set carries a tag with the given federation
/// identifier.
pub open spec fn spec_incoming_contains(forms: Seq<SpecTagInsertForm>, ap_id: Seq<char>) -> bool {
    exists|i: int| 0 <= i < forms.len() && forms[i].ap_id == ap_id
}

/// The tombstone the reconciler synthesizes for a tag withdrawn
/// upstream: the row is marked gone and its content fields cleared,
/// never physically removed, so that concurrent peers converge on
/// its absence instead of resurrecting stale node-local ids.
pub open spec fn spec_tombstone_form(t: SpecCommunityTag) -> SpecTagInsertForm {
    SpecTagInsertForm {
        ap_id: t.ap_id,
        name: t.name,
        display_name: None,
        summary: None,
        community_id: t.community_id,
        deleted: Some(true),
        color: Some(t.color),
    }
}

/// A local row needs a tombstone when the remote set no longer
/// carries its identifier and it is not already tombstoned.
pub open spec fn spec_needs_tombstone(
    forms: Seq<SpecTagInsertForm>,
    t: SpecCommunityTag,
) -> bool {
    !spec_incoming_contains(forms, t.ap_id) && !t.deleted
}

/// The tombstones a reconciliation synthesizes, in store order.
pub open spec fn spec_tombstones(
    forms: Seq<SpecTagInsertForm>,
    tags: Seq<SpecCommunityTag>,
) -> Seq<SpecTagInsertForm>
    decreases tags.len(),
{
    if tags.len() == 0 {
        Seq::empty()
    } else {
        let rest = spec_tombstones(forms, tags.drop_last());
        if spec_needs_tombstone(forms, tags.last()) {
            rest.push(spec_tombstone_form(tags.last()))
        } else {
            rest
        }
    }
}

/// The reconciler's diff: one upsert per remote tag, followed by one
/// tombstone per live local row the remote set no longer carries.
pub open spec fn spec_reconcile_diff(
    forms: Seq<SpecTagInsertForm>,
    tags: Seq<SpecCommunityTag>,
) -> Seq<SpecTagInsertForm> {
    forms + spec_tombstones(forms, tags)
}

/// One row after an upsert found its identifier already present: the
/// remote payload is authoritative for the mutable display fields and
/// the lifecycle flag — a last-writer-wins merge — while identity,
/// machine name, colour and timestamps stay.
pub open spec fn spec_upsert_tag(t: SpecCommunityTag, f: SpecTagInsertForm) -> SpecCommunityTag {
    SpecCommunityTag {
        display_name: f.display_name,
        summary: f.summary,
        deleted: spec_form_deleted(f),
        ..t
    }
}

/// The store after one upsert: the row carrying the form's
/// identifier is merged where one exists, else a fresh row is
/// appended under the given node-local id.
pub open spec fn spec_apply_form(
    tags: Seq<SpecCommunityTag>,
    f: SpecTagInsertForm,
    id: u64,
    now: i64,
) -> Seq<SpecCommunityTag> {
    let i = spec_tag_index_where(tags, ap_pred(f.ap_id));
    if i >= 0 {
        tags.update(i, spec_upsert_tag(tags[i], f))
    } else {
        tags.push(spec_new_tag(f, id, now))
    }
}

/// The store after a whole diff lands, upserts applied in order,
/// fresh rows numbered consecutively from `next_id`.
pub open spec fn spec_apply_diff(
    tags: Seq<SpecCommunityTag>,
    forms: Seq<SpecTagInsertForm>,
    next_id: int,
    now: i64,
) -> Seq<SpecCommunityTag>
    decreases forms.len(),
{
    if forms.len() == 0 {
        tags
    } else {
        let hit = spec_tag_index_where(tags, ap_pred(forms[0].ap_id)) >= 0;
        let t2 = spec_apply_form(tags, forms[0], next_id as u64, now);
        spec_apply_diff(
            t2,
            forms.skip(1),
            if hit {
                next_id
            } else {
                next_id + 1
            },
            now,
        )
    }
}

/// Whether the store holds a row with the given federation
/// identifier.
fn forms_contain_ap(forms: &Vec<CommunityTagInsertForm>, ap_id: &String) -> (r: bool)
    ensures
        r == spec_incoming_contains(forms.deep_view(), ap_id@),
{
    let ghost fs = forms.deep_view();
    let mut i: usize = 0;
    while i < forms.len()
        invariant
            i <= fs.len(),
            forall|k: int| 0 <= k < i ==> fs[k].ap_id != ap_id@,
        decreases fs.len() - i,
    {
        if string_eq(&forms[i].ap_id, ap_id) {
            assert(fs[i as int].ap_id == ap_id@);
            return true;
        }
        i = i + 1;
    }
    false
}

/// Index of the first tag row carrying the given federation
/// identifier.
fn find_tag_index_by_ap(tags: &Vec<CommunityTag>, ap_id: &String) -> (r: Option<usize>)
    ensures
        ({
            let i = spec_tag_index_where(tags.deep_view(), ap_pred(ap_id@));
            match r {
                Some(j) => i == j && j < tags@.len(),
                None => i < 0,
            }
        }),
{
    let ghost ts = tags.deep_view();
    let ghost pred = ap_pred(ap_id@);
    proof {
        lemma_tag_index_where_first_match(ts, pred);
    }
    let mut j: usize = 0;
    while j < tags.len()
        invariant
            j <= ts.len(),
            forall|k: int| 0 <= k < j ==> !pred(ts[k]),
        decreases ts.len() - j,
    {
        if string_eq(&tags[j].ap_id, ap_id) {
            assert(pred(ts[j as int]));
            return Some(j);
        }
        j = j + 1;
    }
    assert(spec_tag_index_where(ts, pred) < 0) by {
        if spec_tag_index_where(ts, pred) >= 0 {
            assert(pred(ts[spec_tag_index_where(ts, pred)]));
        }
    }
    None
}

/// Builds the tombstone for a withdrawn row.
fn tombstone_form_of(t: &CommunityTag) -> (r: CommunityTagInsertForm)
    ensures
        r@ == spec_tombstone_form(t@),
{
    CommunityTagInsertForm {
        ap_id: t.ap_id.clone(),
        name: t.name.clone(),
        display_name: None,
        summary: None,
        community_id: t.community_id,
        deleted: Some(true),
        color: Some(t.color.clone()),
    }
}

/// Builds the merged row for an upsert that found its identifier.
fn tag_with_upsert(t: &CommunityTag, f: &CommunityTagInsertForm) -> (r: CommunityTag)
    ensures
        r@ == spec_upsert_tag(t@, f@),
{
    CommunityTag {
        id: t.id,
        ap_id: t.ap_id.clone(),
        name: t.name.clone(),
        display_name: clone_opt_string(&f.display_name),
        summary: clone_opt_string(&f.summary),
        community_id: t.community_id,
        published_at: t.published_at,
        updated_at: t.updated_at,
        deleted: match f.deleted {
            Some(b) => b,
            None => false,
        },
        color: t.color.clone(),
    }
}

/// Computes the reconciliation diff as a pure function of the remote
/// set and the cached local rows: the remote upserts followed by one
/// tombstone per live local row whose identifier the remote set no
/// longer carries. Nothing is mutated; applying the diff is a
/// separate, transactional step.
pub fn reconcile_diff(
    forms: &Vec<CommunityTagInsertForm>,
    existing_tags: &Vec<CommunityTag>,
) -> (diff: Vec<CommunityTagInsertForm>)
    ensures
        diff.deep_view() == spec_reconcile_diff(forms.deep_view(), existing_tags.deep_view()),
{
    let ghost fs = forms.deep_view();
    let ghost ts = existing_tags.deep_view();
    let mut diff: Vec<CommunityTagInsertForm> = Vec::new();
    let mut i: usize = 0;
    proof {
        assert(diff.deep_view() =~= fs.take(0));
    }
    while i < forms.len()
        invariant
            i <= fs.len(),
            diff.deep_view() == fs.take(i as int),
        decreases fs.len() - i,
    {
        let ghost dv_pre = diff.deep_view();
        diff.push(tag_form_snapshot(&forms[i]));
        proof {
            assert(diff.deep_view() =~= fs.take((i + 1) as int));
        }
        i = i + 1;
    }
    proof {
        assert(fs.take(fs.len() as int) =~= fs);
        assert(spec_tombstones(fs, ts.take(0)) == Seq::<SpecTagInsertForm>::empty());
        assert(fs + spec_tombstones(fs, ts.take(0)) =~= fs);
    }
    let mut j: usize = 0;
    while j < existing_tags.len()
        invariant
            j <= ts.len(),
            diff.deep_view() == fs + spec_tombstones(fs, ts.take(j as int)),
        decreases ts.len() - j,
    {
        proof {
            assert(ts.take((j + 1) as int).drop_last() =~= ts.take(j as int));
            assert(ts.take((j + 1) as int).last() == ts[j as int]);
        }
        if !existing_tags[j].deleted {
            let present = forms_contain_ap(forms, &existing_tags[j].ap_id);
            if !present {
                let ghost dv_pre = diff.deep_view();
                diff.push(tombstone_form_of(&existing_tags[j]));
                proof {
                    assert(diff.deep_view() =~= dv_pre.push(spec_tombstone_form(ts[j as int])));
                    assert(dv_pre.push(spec_tombstone_form(ts[j as int])) =~= fs
                        + spec_tombstones(fs, ts.take((j + 1) as int)));
                }
            }
        }
        j = j + 1;
    }
    proof {
        assert(ts.take(ts.len() as int) =~= ts);
    }
    diff
}

/// Lands a whole diff on the tag store: one atomic application of
/// every upsert, rows merged where their identifier exists and
/// appended under consecutive fresh ids where it does not.
pub fn apply_diff(
    tags: &mut Vec<CommunityTag>,
    diff: &Vec<CommunityTagInsertForm>,
    next_id: u64,
    now: i64,
)
    requires
        next_id + diff@.len() <= u64::MAX,
    ensures
        final(tags).deep_view() == spec_apply_diff(
            old(tags).deep_view(),
            diff.deep_view(),
            next_id as int,
            now,
        ),
{
    let ghost ds = diff.deep_view();
    let ghost t0 = old(tags).deep_view();
    let mut cur_id: u64 = next_id;
    let mut i: usize = 0;
    proof {
        assert(ds.skip(0) =~= ds);
    }
    while i < diff.len()
        invariant
            i <= ds.len(),
            cur_id + (ds.len() - i) <= u64::MAX,
            spec_apply_diff(t0, ds, next_id as int, now) == spec_apply_diff(
                tags.deep_view(),
                ds.skip(i as int),
                cur_id as int,
                now,
            ),
        decreases ds.len() - i,
    {
        let ghost prev = tags.deep_view();
        proof {
            assert(ds.skip(i as int)[0] == ds[i as int]);
            assert(ds.skip(i as int).skip(1) =~= ds.skip((i + 1) as int));
        }
        let found = find_tag_index_by_ap(tags, &diff[i].ap_id);
        match found {
            Some(j) => {
                let row = tag_with_upsert(&tags[j], &diff[i]);
                tags.set(j, row);
                proof {
                    assert(tags.deep_view() =~= prev.update(
                        j as int,
                        spec_upsert_tag(prev[j as int], ds[i as int]),
                    ));
                    assert(spec_apply_form(prev, ds[i as int], cur_id, now) == tags.deep_view());
                }
            },
            None => {
                let row = new_tag_from_form(&diff[i], cur_id, now);
                tags.push(row);
                proof {
                    assert(tags.deep_view() =~= prev.push(spec_new_tag(ds[i as int], cur_id, now)));
                    assert(spec_apply_form(prev, ds[i as int], cur_id, now) == tags.deep_view());
                }
                cur_id = cur_id + 1;
            },
        }
        i = i + 1;
    }
    proof {
        assert(ds.skip(ds.len() as int) =~= Seq::<SpecTagInsertForm>::empty());
    }
}

/// A reconciliation synthesizes at most one tombstone per local row.
pub proof fn lemma_tombstones_len(forms: Seq<SpecTagInsertForm>, tags: Seq<SpecCommunityTag>)
    ensures
        spec_tombstones(forms, tags).len() <= tags.len(),
    decreases tags.len(),
{
    if tags.len() > 0 {
        lemma_tombstones_len(forms, tags.drop_last());
    }
}

impl CommunityTag {
    /// Reconciles the cached local rows with the authoritative
    /// remote tag set, in place: computes the diff — upserts for
    /// every remote tag, tombstones for every live local row
    /// withdrawn upstream — and lands it as one atomic application.
    /// The applied diff is returned. Fresh rows are numbered
    /// consecutively from `next_id`; `now` stamps their insertion
    /// time.
    pub fn update_many(
        tags: &mut Vec<CommunityTag>,
        forms: Vec<CommunityTagInsertForm>,
        next_id: u64,
        now: i64,
    ) -> (diff: Vec<CommunityTagInsertForm>)
        requires
            next_id + forms@.len() + old(tags)@.len() <= u64::MAX,
        ensures
            diff.deep_view() == spec_reconcile_diff(forms.deep_view(), old(tags).deep_view()),
            final(tags).deep_view() == spec_apply_diff(
                old(tags).deep_view(),
                spec_reconcile_diff(forms.deep_view(), old(tags).deep_view()),
                next_id as int,
                now,
            ),
    {
        let diff = reconcile_diff(&forms, tags);
        proof {
            lemma_tombstones_len(forms.deep_view(), tags.deep_view());
        }
        apply_diff(tags, &diff, next_id, now);
        diff
    }
}

/// No two remote tags carry the same federation identifier: the
/// remote set arrives deduplicated.
pub open spec fn spec_forms_unique(forms: Seq<SpecTagInsertForm>) -> bool {
    forall|i: int, j: int|
        0 <= i < j < forms.len() ==> #[trigger] forms[i].ap_id != #[trigger] forms[j].ap_id
}

/// No two local rows carry the same federation identifier: `ap_id`
/// is unique within the store.
pub open spec fn spec_tags_unique(tags: Seq<SpecCommunityTag>) -> bool {
    forall|i: int, j: int|
        0 <= i < j < tags.len() ==> #[trigger] tags[i].ap_id != #[trigger] tags[j].ap_id
}

/// A row agrees with an upsert form on everything the upsert is
/// authoritative for: applying the form to it would change nothing.
pub open spec fn spec_row_converged(t: SpecCommunityTag, f: SpecTagInsertForm) -> bool {
    &&& t.ap_id == f.ap_id
    &&& t.display_name == f.display_name
    &&& t.summary == f.summary
    &&& t.deleted == spec_form_deleted(f)
}

/// Applying a form leaves every row with a different identifier in
/// place, untouched.
proof fn lemma_apply_form_frame(
    tags: Seq<SpecCommunityTag>,
    f: SpecTagInsertForm,
    id: u64,
    now: i64,
    j: int,
)
    requires
        0 <= j < tags.len(),
        tags[j].ap_id != f.ap_id,
    ensures
        spec_apply_form(tags, f, id, now).len() >= tags.len(),
        spec_apply_form(tags, f, id, now)[j] == tags[j],
{
    lemma_tag_index_where_first_match(tags, ap_pred(f.ap_id));
}

/// What one upsert does to the store's shape: at most one row is
/// appended, every position either keeps its row or now carries one
/// that agrees with the form, and some position agrees with the
/// form.
proof fn lemma_apply_form_shape(tags: Seq<SpecCommunityTag>, f: SpecTagInsertForm, id: u64, now: i64)
    ensures
        ({
            let t2 = spec_apply_form(tags, f, id, now);
            &&& tags.len() <= t2.len() <= tags.len() + 1
            &&& forall|p: int|
                0 <= p < t2.len() ==> (p < tags.len() && #[trigger] t2[p] == tags[p])
                    || spec_row_converged(t2[p], f)
            &&& exists|p: int| 0 <= p < t2.len() && spec_row_converged(#[trigger] t2[p], f)
        }),
{
    let pred = ap_pred(f.ap_id);
    let i = spec_tag_index_where(tags, pred);
    lemma_tag_index_where_first_match(tags, pred);
    let t2 = spec_apply_form(tags, f, id, now);
    if i >= 0 {
        assert(spec_row_converged(t2[i], f));
    } else {
        assert(spec_row_converged(t2[tags.len() as int], f));
    }
}

/// One upsert keeps federation identifiers unique: merging keeps the
/// row's identifier, and a fresh row is appended only when its
/// identifier is absent.
proof fn lemma_apply_form_unique(tags: Seq<SpecCommunityTag>, f: SpecTagInsertForm, id: u64, now: i64)
    requires
        spec_tags_unique(tags),
    ensures
        spec_tags_unique(spec_apply_form(tags, f, id, now)),
{
    let pred = ap_pred(f.ap_id);
    let i = spec_tag_index_where(tags, pred);
    lemma_tag_index_where_first_match(tags, pred);
    let t2 = spec_apply_form(tags, f, id, now);
    if i >= 0 {
        assert forall|p: int, q: int| 0 <= p < q < t2.len() implies t2[p].ap_id != t2[q].ap_id by {
            assert(t2[p].ap_id == tags[p].ap_id);
            assert(t2[q].ap_id == tags[q].ap_id);
        }
    } else {
        assert forall|p: int, q: int| 0 <= p < q < t2.len() implies t2[p].ap_id != t2[q].ap_id by {
            if q == tags.len() {
                assert(!pred(tags[p]));
            }
        }
    }
}

/// Applying a whole diff leaves every row untouched whose identifier
/// no form of the diff carries — in particular its position and its
/// tombstone state.
proof fn lemma_apply_diff_frame(
    tags: Seq<SpecCommunityTag>,
    forms: Seq<SpecTagInsertForm>,
    next_id: int,
    now: i64,
    j: int,
)
    requires
        0 <= j < tags.len(),
        forall|k: int| 0 <= k < forms.len() ==> #[trigger] forms[k].ap_id != tags[j].ap_id,
    ensures
        spec_apply_diff(tags, forms, next_id, now).len() >= tags.len(),
        spec_apply_diff(tags, forms, next_id, now)[j] == tags[j],
    decreases forms.len(),
{
    if forms.len() > 0 {
        let hit = spec_tag_index_where(tags, ap_pred(forms[0].ap_id)) >= 0;
        let id = next_id as u64;
        lemma_apply_form_frame(tags, forms[0], id, now, j);
        let t1 = spec_apply_form(tags, forms[0], id, now);
        assert forall|k: int| 0 <= k < forms.skip(1).len() implies #[trigger] forms.skip(
            1,
        )[k].ap_id != t1[j].ap_id by {
            assert(forms.skip(1)[k] == forms[k + 1]);
        }
        lemma_apply_diff_frame(
            t1,
            forms.skip(1),
            if hit {
                next_id
            } else {
                next_id + 1
            },
            now,
            j,
        );
    }
}

/// What applying a diff with pairwise-distinct identifiers
/// guarantees: identifiers stay unique, no row disappears, every
/// form ends up with a row agreeing with it, and every row either
/// carries an identifier of the diff or is an original row,
/// untouched.
proof fn lemma_apply_diff_converges(
    tags: Seq<SpecCommunityTag>,
    forms: Seq<SpecTagInsertForm>,
    next_id: int,
    now: i64,
)
    requires
        spec_tags_unique(tags),
        spec_forms_unique(forms),
    ensures
        ({
            let t2 = spec_apply_diff(tags, forms, next_id, now);
            &&& spec_tags_unique(t2)
            &&& t2.len() >= tags.len()
            &&& forall|k: int|
                0 <= k < forms.len() ==> exists|p: int|
                    0 <= p < t2.len() && spec_row_converged(t2[p], #[trigger] forms[k])
            &&& forall|p: int|
                0 <= p < t2.len() ==> spec_incoming_contains(forms, #[trigger] t2[p].ap_id) || (
                exists|q: int| 0 <= q < tags.len() && t2[p] == tags[q])
        }),
    decreases forms.len(),
{
    let t2 = spec_apply_diff(tags, forms, next_id, now);
    if forms.len() == 0 {
        assert forall|p: int| 0 <= p < t2.len() implies spec_incoming_contains(
            forms,
            #[trigger] t2[p].ap_id,
        ) || (exists|q: int| 0 <= q < tags.len() && t2[p] == tags[q]) by {
            assert(t2[p] == tags[p]);
        }
    } else {
        let f0 = forms[0];
        let hit = spec_tag_index_where(tags, ap_pred(f0.ap_id)) >= 0;
        let id = next_id as u64;
        let t1 = spec_apply_form(tags, f0, id, now);
        let rest = forms.skip(1);
        let next_id1: int = if hit {
            next_id
        } else {
            next_id + 1
        };
        lemma_apply_form_unique(tags, f0, id, now);
        lemma_apply_form_shape(tags, f0, id, now);
        assert forall|i: int, j: int| 0 <= i < j < rest.len() implies #[trigger] rest[i].ap_id
            != #[trigger] rest[j].ap_id by {
            assert(rest[i] == forms[i + 1]);
            assert(rest[j] == forms[j + 1]);
        }
        lemma_apply_diff_converges(t1, rest, next_id1, now);
        assert(t2 == spec_apply_diff(t1, rest, next_id1, now));

        // Every form of the diff ends with a row agreeing with it.
        let p0 = choose|p: int| 0 <= p < t1.len() && spec_row_converged(#[trigger] t1[p], f0);
        assert forall|k: int| 0 <= k < rest.len() implies #[trigger] rest[k].ap_id
            != t1[p0].ap_id by {
            assert(rest[k] == forms[k + 1]);
        }
        lemma_apply_diff_frame(t1, rest, next_id1, now, p0);
        assert(spec_row_converged(t2[p0], forms[0]));
        assert forall|k: int| 0 <= k < forms.len() implies exists|p: int|
            0 <= p < t2.len() && spec_row_converged(t2[p], #[trigger] forms[k]) by {
            if k == 0 {
                assert(0 <= p0 < t2.len() && spec_row_converged(t2[p0], forms[0]));
            } else {
                assert(forms[k] == rest[k - 1]);
                let p = choose|p: int|
                    0 <= p < t2.len() && spec_row_converged(#[trigger] t2[p], rest[k - 1]);
                assert(0 <= p < t2.len() && spec_row_converged(t2[p], forms[k]));
            }
        }

        // Every row of the result is either addressed by the diff or
        // an original row.
        assert forall|p: int| 0 <= p < t2.len() implies spec_incoming_contains(
            forms,
            #[trigger] t2[p].ap_id,
        ) || (exists|q: int| 0 <= q < tags.len() && t2[p] == tags[q]) by {
            if spec_incoming_contains(rest, t2[p].ap_id) {
                let m = choose|m: int| 0 <= m < rest.len() && rest[m].ap_id == t2[p].ap_id;
                assert(forms[m + 1].ap_id == t2[p].ap_id);
                assert(spec_incoming_contains(forms, t2[p].ap_id));
            } else if exists|q: int| 0 <= q < t1.len() && t2[p] == t1[q] {
                let q = choose|q: int| 0 <= q < t1.len() && t2[p] == #[trigger] t1[q];
                if q < tags.len() && t1[q] == tags[q] {
                    assert(exists|q2: int| 0 <= q2 < tags.len() && t2[p] == tags[q2]);
                } else {
                    assert(spec_row_converged(t1[q], f0));
                    assert(forms[0].ap_id == t2[p].ap_id);
                    assert(spec_incoming_contains(forms, t2[p].ap_id));
                }
            }
        }
    }
}

/// Every tombstone of a reconciliation is the tombstone of some
/// local row that needed one, and every local row that needs one
/// gets one.
proof fn lemma_tombstones_shape(forms: Seq<SpecTagInsertForm>, tags: Seq<SpecCommunityTag>)
    ensures
        ({
            let tombs = spec_tombstones(forms, tags);
            &&& forall|k: int|
                0 <= k < tombs.len() ==> exists|q: int|
                    0 <= q < tags.len() && spec_needs_tombstone(forms, tags[q])
                        && #[trigger] tombs[k] == spec_tombstone_form(tags[q])
            &&& forall|q: int|
                0 <= q < tags.len() && spec_needs_tombstone(forms, #[trigger] tags[q]) ==> exists|
                    k: int,
                |
                    0 <= k < tombs.len() && tombs[k] == spec_tombstone_form(tags[q])
        }),
    decreases tags.len(),
{
    if tags.len() > 0 {
        let tombs = spec_tombstones(forms, tags);
        let prefix = tags.drop_last();
        let rest = spec_tombstones(forms, prefix);
        lemma_tombstones_shape(forms, prefix);
        assert forall|k: int| 0 <= k < tombs.len() implies exists|q: int|
            0 <= q < tags.len() && spec_needs_tombstone(forms, tags[q]) && #[trigger] tombs[k]
                == spec_tombstone_form(tags[q]) by {
            if k < rest.len() {
                let q = choose|q: int|
                    0 <= q < prefix.len() && spec_needs_tombstone(forms, prefix[q])
                        && #[trigger] rest[k] == spec_tombstone_form(prefix[q]);
                assert(tags[q] == prefix[q]);
                assert(tombs[k] == rest[k]);
            } else {
                assert(spec_needs_tombstone(forms, tags.last()));
                assert(tombs[k] == spec_tombstone_form(tags[tags.len() - 1]));
            }
        }
        assert forall|q: int|
            0 <= q < tags.len() && spec_needs_tombstone(forms, #[trigger] tags[q]) implies exists|
            k: int,
        | 0 <= k < tombs.len() && tombs[k] == spec_tombstone_form(tags[q]) by {
            if q < tags.len() - 1 {
                assert(prefix[q] == tags[q]);
                let k = choose|k: int|
                    0 <= k < rest.len() && #[trigger] rest[k] == spec_tombstone_form(prefix[q]);
                assert(tombs[k] == spec_tombstone_form(tags[q]));
            } else {
                assert(tombs[tombs.len() - 1] == spec_tombstone_form(tags[q]));
            }
        }
    }
}

/// A reconciliation of a store where no row needs a tombstone
/// synthesizes none.
proof fn lemma_tombstones_empty(forms: Seq<SpecTagInsertForm>, tags: Seq<SpecCommunityTag>)
    requires
        forall|q: int| 0 <= q < tags.len() ==> !spec_needs_tombstone(forms, #[trigger] tags[q]),
    ensures
        spec_tombstones(forms, tags) == Seq::<SpecTagInsertForm>::empty(),
    decreases tags.len(),
{
    if tags.len() > 0 {
        assert forall|q: int|
            0 <= q < tags.drop_last().len() implies !spec_needs_tombstone(
            forms,
            #[trigger] tags.drop_last()[q],
        ) by {
            assert(tags.drop_last()[q] == tags[q]);
        }
        lemma_tombstones_empty(forms, tags.drop_last());
        assert(!spec_needs_tombstone(forms, tags.last()));
    }
}

/// The whole diff of a reconciliation carries pairwise-distinct
/// identifiers: the remote set arrives deduplicated, tombstones
/// descend from distinct local rows, and no tombstone's identifier
/// is in the remote set.
proof fn lemma_diff_unique(forms: Seq<SpecTagInsertForm>, tags: Seq<SpecCommunityTag>)
    requires
        spec_forms_unique(forms),
        spec_tags_unique(tags),
    ensures
        spec_forms_unique(spec_reconcile_diff(forms, tags)),
    decreases tags.len(),
{
    let d = spec_reconcile_diff(forms, tags);
    let tombs = spec_tombstones(forms, tags);
    lemma_tombstones_shape(forms, tags);
    assert forall|i: int, j: int| 0 <= i < j < d.len() implies #[trigger] d[i].ap_id
        != #[trigger] d[j].ap_id by {
        if j < forms.len() {
            assert(d[i] == forms[i] && d[j] == forms[j]);
        } else if i < forms.len() {
            let tj = tombs[j - forms.len()];
            let q = choose|q: int|
                0 <= q < tags.len() && spec_needs_tombstone(forms, tags[q]) && #[trigger] tombs[j
                    - forms.len()] == spec_tombstone_form(tags[q]);
            assert(d[j].ap_id == tags[q].ap_id);
            assert(d[i] == forms[i]);
            assert(!spec_incoming_contains(forms, tags[q].ap_id));
        } else {
            lemma_tombstones_unique_inner(forms, tags, i - forms.len(), j - forms.len());
            assert(d[i] == tombs[i - forms.len()] && d[j] == tombs[j - forms.len()]);
        }
    }
}

/// Two distinct tombstones of one reconciliation carry distinct
/// identifiers.
proof fn lemma_tombstones_unique_inner(
    forms: Seq<SpecTagInsertForm>,
    tags: Seq<SpecCommunityTag>,
    i: int,
    j: int,
)
    requires
        spec_tags_unique(tags),
        0 <= i < j < spec_tombstones(forms, tags).len(),
    ensures
        spec_tombstones(forms, tags)[i].ap_id != spec_tombstones(forms, tags)[j].ap_id,
    decreases tags.len(),
{
    let tombs = spec_tombstones(forms, tags);
    let prefix = tags.drop_last();
    let rest = spec_tombstones(forms, prefix);
    assert(tags.len() > 0);
    assert forall|p: int, q: int| 0 <= p < q < prefix.len() implies #[trigger] prefix[p].ap_id
        != #[trigger] prefix[q].ap_id by {
        assert(prefix[p] == tags[p] && prefix[q] == tags[q]);
    }
    if j < rest.len() {
        lemma_tombstones_unique_inner(forms, prefix, i, j);
    } else {
        // j is the tombstone of the last row; i descends from an
        // earlier, distinct row.
        lemma_tombstones_shape(forms, prefix);
        let q = choose|q: int|
            0 <= q < prefix.len() && spec_needs_tombstone(forms, prefix[q]) && #[trigger] rest[i]
                == spec_tombstone_form(prefix[q]);
        assert(tombs[i] == rest[i]);
        assert(tombs[i].ap_id == tags[q].ap_id);
        assert(tombs[j].ap_id == tags.last().ap_id);
        assert(tags[q].ap_id != tags[tags.len() - 1].ap_id);
    }
}

/// Applying the form set of a store that already agrees with it
/// changes nothing.
proof fn lemma_apply_fixpoint(
    tags: Seq<SpecCommunityTag>,
    forms: Seq<SpecTagInsertForm>,
    next_id: int,
    now: i64,
)
    requires
        spec_tags_unique(tags),
        forall|k: int|
            0 <= k < forms.len() ==> exists|p: int|
                0 <= p < tags.len() && spec_row_converged(tags[p], #[trigger] forms[k]),
    ensures
        spec_apply_diff(tags, forms, next_id, now) == tags,
    decreases forms.len(),
{
    if forms.len() > 0 {
        let f0 = forms[0];
        let pred = ap_pred(f0.ap_id);
        let i = spec_tag_index_where(tags, pred);
        lemma_tag_index_where_first_match(tags, pred);
        let p0 = choose|p: int| 0 <= p < tags.len() && spec_row_converged(#[trigger] tags[p], f0);
        assert(pred(tags[p0]));
        assert(i >= 0);
        assert(i == p0) by {
            if i < p0 {
                assert(tags[i].ap_id == tags[p0].ap_id);
            } else if i > p0 {
                assert(!pred(tags[p0]));
            }
        }
        assert(spec_upsert_tag(tags[i], f0) =~= tags[i]);
        assert(tags.update(i, spec_upsert_tag(tags[i], f0)) =~= tags);
        let t1 = spec_apply_form(tags, f0, next_id as u64, now);
        assert(t1 == tags);
        let rest = forms.skip(1);
        assert forall|k: int| 0 <= k < rest.len() implies exists|p: int|
            0 <= p < tags.len() && spec_row_converged(tags[p], #[trigger] rest[k]) by {
            assert(rest[k] == forms[k + 1]);
            let p = choose|p: int|
                0 <= p < tags.len() && spec_row_converged(#[trigger] tags[p], forms[k + 1]);
            assert(0 <= p < tags.len() && spec_row_converged(tags[p], rest[k]));
        }
        lemma_apply_fixpoint(tags, rest, next_id, now);
    }
}

/// Reconciliation is idempotent: after one reconciliation has
/// landed, reconciling again with the same remote set synthesizes
/// no tombstones — its diff is exactly the remote upserts — and
/// applying that diff leaves the store unchanged. Running the same
/// remote set twice is a no-op the second time.
///
/// The two preconditions restate the data model, nothing more: the
/// remote set arrives deduplicated by identifier, and identifiers
/// are unique within the store. With a duplicated identifier in the
/// store the statement itself fails — of local rows `[C, C]`, both
/// live, and an empty remote set, the first pass tombstones only
/// the first `C`, so the second pass synthesizes a tombstone again.
pub proof fn lemma_reconcile_idempotent(
    forms: Seq<SpecTagInsertForm>,
    tags: Seq<SpecCommunityTag>,
    next_id: int,
    now: i64,
    next_id2: int,
    now2: i64,
)
    requires
        spec_forms_unique(forms),
        spec_tags_unique(tags),
    ensures
        ({
            let d1 = spec_reconcile_diff(forms, tags);
            let t1 = spec_apply_diff(tags, d1, next_id, now);
            &&& spec_reconcile_diff(forms, t1) == forms
            &&& spec_apply_diff(t1, spec_reconcile_diff(forms, t1), next_id2, now2) == t1
        }),
{
    let d1 = spec_reconcile_diff(forms, tags);
    let tombs = spec_tombstones(forms, tags);
    let t1 = spec_apply_diff(tags, d1, next_id, now);
    lemma_diff_unique(forms, tags);
    lemma_apply_diff_converges(tags, d1, next_id, now);
    lemma_tombstones_shape(forms, tags);

    // After the first application, no row needs a tombstone: every
    // row either carries a remote identifier or is tombstoned.
    assert forall|p: int| 0 <= p < t1.len() implies !spec_needs_tombstone(
        forms,
        #[trigger] t1[p],
    ) by {
        if !spec_incoming_contains(forms, t1[p].ap_id) {
            if spec_incoming_contains(d1, t1[p].ap_id) {
                // The identifier came from a tombstone of the diff,
                // so the row converged to that tombstone: deleted.
                let m = choose|m: int| 0 <= m < d1.len() && #[trigger] d1[m].ap_id == t1[p].ap_id;
                assert(m >= forms.len()) by {
                    if m < forms.len() {
                        assert(forms[m].ap_id == t1[p].ap_id);
                    }
                }
                let pr = choose|pr: int|
                    0 <= pr < t1.len() && spec_row_converged(#[trigger] t1[pr], d1[m]);
                assert(pr == p) by {
                    if pr < p {
                        assert(t1[pr].ap_id == t1[p].ap_id);
                    } else if pr > p {
                        assert(t1[p].ap_id == t1[pr].ap_id);
                    }
                }
                let q = choose|q: int|
                    0 <= q < tags.len() && spec_needs_tombstone(forms, tags[q]) && #[trigger] tombs[
                        m - forms.len()
                    ] == spec_tombstone_form(tags[q]);
                assert(spec_form_deleted(d1[m]));
                assert(t1[p].deleted);
            } else {
                // An untouched original row: it was already
                // tombstoned, else the diff would have addressed it.
                let q = choose|q: int| 0 <= q < tags.len() && t1[p] == #[trigger] tags[q];
                if !tags[q].deleted {
                    assert(spec_needs_tombstone(forms, tags[q]));
                    let k = choose|k: int|
                        0 <= k < tombs.len() && #[trigger] tombs[k] == spec_tombstone_form(
                            tags[q],
                        );
                    assert(d1[forms.len() + k].ap_id == tags[q].ap_id);
                    assert(spec_incoming_contains(d1, t1[p].ap_id));
                }
            }
        }
    }
    lemma_tombstones_empty(forms, t1);
    assert(spec_reconcile_diff(forms, t1) =~= forms);

    // The second application is a fixpoint: every remote form
    // already has its row converged.
    assert forall|k: int| 0 <= k < forms.len() implies exists|p: int|
        0 <= p < t1.len() && spec_row_converged(t1[p], #[trigger] forms[k]) by {
        assert(d1[k] == forms[k]);
        let p = choose|p: int| 0 <= p < t1.len() && spec_row_converged(#[trigger] t1[p], d1[k]);
        assert(0 <= p < t1.len() && spec_row_converged(t1[p], forms[k]));
    }
    lemma_apply_fixpoint(t1, forms, next_id2, now2);
    assert(spec_apply_diff(t1, spec_reconcile_diff(forms, t1), next_id2, now2) == t1);
}

/// Reconciliation preserves the store's identity invariant: with a
/// deduplicated remote set and pairwise-distinct local identifiers,
/// the reconciled store's identifiers are pairwise distinct again.
pub proof fn lemma_reconcile_preserves_uniqueness(
    forms: Seq<SpecTagInsertForm>,
    tags: Seq<SpecCommunityTag>,
    next_id: int,
    now: i64,
)
    requires
        spec_forms_unique(forms),
        spec_tags_unique(tags),
    ensures
        spec_tags_unique(spec_apply_diff(tags, spec_reconcile_diff(forms, tags), next_id, now)),
{
    lemma_diff_unique(forms, tags);
    lemma_apply_diff_converges(tags, spec_reconcile_diff(forms, tags), next_id, now);
}

/// Tombstones are preserved: a row already tombstoned, whose
/// identifier the remote set does not carry, comes through a
/// reconciliation untouched — still present, still a tombstone. The
/// row is never physically removed. The uniqueness precondition
/// restates the store's identifier invariant.
pub proof fn lemma_tombstone_preserved(
    forms: Seq<SpecTagInsertForm>,
    tags: Seq<SpecCommunityTag>,
    next_id: int,
    now: i64,
    q: int,
)
    requires
        spec_tags_unique(tags),
        0 <= q < tags.len(),
        tags[q].deleted,
        !spec_incoming_contains(forms, tags[q].ap_id),
    ensures
        ({
            let t1 = spec_apply_diff(tags, spec_reconcile_diff(forms, tags), next_id, now);
            &&& t1.len() >= tags.len()
            &&& t1[q] == tags[q]
            &&& t1[q].deleted
        }),
{
    let d1 = spec_reconcile_diff(forms, tags);
    let tombs = spec_tombstones(forms, tags);
    lemma_tombstones_shape(forms, tags);
    assert forall|k: int| 0 <= k < d1.len() implies #[trigger] d1[k].ap_id != tags[q].ap_id by {
        if k < forms.len() {
            assert(d1[k] == forms[k]);
            if forms[k].ap_id == tags[q].ap_id {
                assert(spec_incoming_contains(forms, tags[q].ap_id));
            }
        } else {
            let q2 = choose|q2: int|
                0 <= q2 < tags.len() && spec_needs_tombstone(forms, tags[q2]) && #[trigger] tombs[k
                    - forms.len()] == spec_tombstone_form(tags[q2]);
            assert(d1[k].ap_id == tags[q2].ap_id);
            if q2 == q {
                assert(!tags[q].deleted);
            } else if q2 < q {
                assert(tags[q2].ap_id != tags[q].ap_id);
            } else {
                assert(tags[q].ap_id != tags[q2].ap_id);
            }
        }
    }
    lemma_apply_diff_frame(tags, d1, next_id, now, q);
}

} // verus!
