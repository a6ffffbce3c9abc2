//! Creating, editing and soft-deleting a community's own tags.
//!
//! These are the local moderator's operations, as opposed to the
//! reconciler, which mirrors a remote community's tags. A new tag's
//! federation identifier is derived from the community's own
//! identifier and the tag's machine name, so that every node
//! derives the same identifier for the same tag.

use vstd::prelude::*;
use vstd::string::StringExecFns;

use crate::community_tag::{
    CommunityTag, CommunityTagInsertForm, CommunityTagUpdateForm, SpecTagInsertForm,
    SpecTagUpdateForm, ap_pred, community_live_pred, spec_apply_update, spec_new_tag,
    spec_tag_index_where, spec_tags_where, tag_id_pred,
};
use crate::error::CoreError;
use crate::validation::{
    check_api_elements_count, check_slurs, is_valid_actor_name, optional_text_update,
    spec_text_update, spec_valid_actor_name, summary_length_check, MAX_API_ELEMENTS,
    MAX_SUMMARY_LENGTH,
};

verus! {

/// What `url::Url::parse` normalizes a valid absolute URL to. The
/// serialization is a function of the input text alone; writing it
/// out is the URL standard's affair, so it is only named here.
pub uninterp spec fn normalized_url(s: Seq<char>) -> Seq<char>;

/// Whether a text is a valid absolute URL, as `url::Url::parse`
/// accepts it. Validity, too, is a function of the text alone;
/// which texts are valid is the URL standard's affair.
pub uninterp spec fn url_ok(s: Seq<char>) -> bool;

/// Relies on url::Url::parse and url::Url::as_str: `parse` accepts
/// exactly the valid absolute URLs — a function of the input text
/// alone, with no base URL and no overrides in play — and `as_str`
/// is the parsed URL's normalized serialization, likewise a
/// function of the input text alone.
#[verifier::external_body]
fn parse_and_normalize_url(s: &String) -> (r: Option<String>)
    ensures
        r is Some <==> url_ok(s@),
        r matches Some(u) ==> u@ == normalized_url(s@),
{
    match url::Url::parse(s.as_str()) {
        Ok(u) => Some(u.as_str().to_owned()),
        Err(_) => None,
    }
}

/// A request to create a tag in a community.
#[derive(Clone, Debug, PartialEq)]
pub struct CreateCommunityTag {
    pub community_id: u64,
    pub name: String,
    pub display_name: Option<String>,
    pub summary: Option<String>,
    pub color: Option<String>,
}

/// A request to edit a tag's display fields.
#[derive(Clone, Debug, PartialEq)]
pub struct EditCommunityTag {
    pub tag_id: u64,
    pub display_name: Option<String>,
    pub summary: Option<String>,
    pub color: Option<String>,
}

/// A request to soft-delete (or restore) a tag.
#[derive(Clone, Copy, Debug, PartialEq, Eq, Structural)]
pub struct DeleteCommunityTag {
    pub tag_id: u64,
    pub delete: bool,
}

/// The text a new tag's federation identifier is derived from: the
/// community's identifier, a `/tag/` segment and the machine name.
pub open spec fn spec_derived_ap_text(community_ap_id: Seq<char>, name: Seq<char>) -> Seq<char> {
    community_ap_id + "/tag/"@ + name
}

/// The federation identifier derived for a new tag: the derived
/// text, normalized as a URL.
pub open spec fn spec_derived_ap_id(community_ap_id: Seq<char>, name: Seq<char>) -> Seq<char> {
    normalized_url(spec_derived_ap_text(community_ap_id, name))
}

/// The upsert form a creation request lands as.
pub open spec fn spec_create_form(data: CreateCommunityTag, ap_id: Seq<char>) -> SpecTagInsertForm {
    SpecTagInsertForm {
        ap_id,
        name: data.name@,
        display_name: data.display_name.deep_view(),
        summary: data.summary.deep_view(),
        community_id: data.community_id,
        deleted: Some(false),
        color: data.color.deep_view(),
    }
}

/// Whether a creation request passes every check the engine decides
/// itself: a valid machine name, room under the per-community tag
/// cap, and a summary within bounds.
pub open spec fn spec_create_checks(
    data: CreateCommunityTag,
    tags: Seq<crate::community_tag::SpecCommunityTag>,
) -> bool {
    &&& spec_valid_actor_name(data.name@)
    &&& spec_tags_where(tags, community_live_pred(data.community_id)).len() <= MAX_API_ELEMENTS
    &&& (data.summary matches Some(su) ==> su@.len() <= MAX_SUMMARY_LENGTH)
}

/// Creates a tag in a community.
///
/// The engine validates the machine name, the community's live tag
/// count and the summary length, in that order, and rejects exactly
/// the requests that fail one of them, untouched, with the matching
/// error. The summary then passes the slur filter, whose answer is
/// its own. Everything after that is exact: `InvalidUrl` exactly
/// when the derived text is no valid URL, `CouldntCreate` exactly
/// when the derived identifier already exists, and otherwise one
/// live row is appended under that identifier and the given fresh
/// id and returned. Every rejection leaves the store untouched.
pub fn create_community_tag(
    tags: &mut Vec<CommunityTag>,
    data: &CreateCommunityTag,
    community_ap_id: &String,
    slur_regex: &regex::Regex,
    next_id: u64,
    now: i64,
) -> (r: Result<CommunityTag, CoreError>)
    ensures
        ({
            let s = old(tags).deep_view();
            let ap = spec_derived_ap_id(community_ap_id@, data.name@);
            &&& r is Err ==> final(tags)@ == old(tags)@
            &&& !spec_valid_actor_name(data.name@) ==> r == Err::<CommunityTag, CoreError>(
                CoreError::InvalidName,
            )
            &&& spec_valid_actor_name(data.name@) && spec_tags_where(
                s,
                community_live_pred(data.community_id),
            ).len() > MAX_API_ELEMENTS ==> r == Err::<CommunityTag, CoreError>(
                CoreError::TooManyItems,
            )
            &&& spec_valid_actor_name(data.name@) && spec_tags_where(
                s,
                community_live_pred(data.community_id),
            ).len() <= MAX_API_ELEMENTS && (data.summary matches Some(su) && su@.len()
                > MAX_SUMMARY_LENGTH) ==> r == Err::<CommunityTag, CoreError>(
                CoreError::SummaryTooLong,
            )
            &&& spec_create_checks(*data, s) ==> {
                let raw = spec_derived_ap_text(community_ap_id@, data.name@);
                let duplicate = spec_tag_index_where(s, ap_pred(ap)) >= 0;
                &&& r is Err ==> (r == Err::<CommunityTag, CoreError>(CoreError::Slurs) || r
                    == Err::<CommunityTag, CoreError>(CoreError::InvalidUrl) || r == Err::<
                    CommunityTag,
                    CoreError,
                >(CoreError::CouldntCreate))
                &&& data.summary is None ==> r != Err::<CommunityTag, CoreError>(CoreError::Slurs)
                &&& r != Err::<CommunityTag, CoreError>(CoreError::Slurs) ==> {
                    &&& (r == Err::<CommunityTag, CoreError>(CoreError::InvalidUrl) <==> !url_ok(
                        raw,
                    ))
                    &&& (r == Err::<CommunityTag, CoreError>(CoreError::CouldntCreate) <==> (
                    url_ok(raw) && duplicate))
                    &&& url_ok(raw) && !duplicate ==> (r matches Ok(row) && row@ == spec_new_tag(
                        spec_create_form(*data, ap),
                        next_id,
                        now,
                    ) && final(tags).deep_view() == s.push(row@))
                }
            }
        }),
{
    match is_valid_actor_name(&data.name) {
        Err(e) => {
            return Err(e);
        },
        Ok(()) => {},
    }
    let live = CommunityTag::read_for_community(tags, data.community_id);
    match check_api_elements_count(live.len()) {
        Err(e) => {
            return Err(e);
        },
        Ok(()) => {},
    }
    match &data.summary {
        Some(su) => {
            match summary_length_check(su) {
                Err(e) => {
                    return Err(e);
                },
                Ok(()) => {},
            }
            match check_slurs(su.as_str(), slur_regex) {
                Err(e) => {
                    return Err(e);
                },
                Ok(()) => {},
            }
        },
        None => {},
    }
    let mut ap_text = community_ap_id.clone();
    ap_text.append("/tag/");
    ap_text.append(data.name.as_str());
    proof {
        assert(ap_text@ =~= spec_derived_ap_text(community_ap_id@, data.name@));
    }
    let ap_id = match parse_and_normalize_url(&ap_text) {
        Some(u) => u,
        None => {
            return Err(CoreError::InvalidUrl);
        },
    };
    let form = CommunityTagInsertForm {
        ap_id,
        name: data.name.clone(),
        display_name: crate::community_tag::clone_opt_string(&data.display_name),
        summary: crate::community_tag::clone_opt_string(&data.summary),
        community_id: data.community_id,
        deleted: Some(false),
        color: crate::community_tag::clone_opt_string(&data.color),
    };
    CommunityTag::create(tags, &form, next_id, now)
}

/// Edits a tag's display fields: an absent field keeps its value,
/// an empty text clears it, anything else overwrites it; the edit
/// time is recorded.
///
/// An unknown tag id is `NotFound`, an over-long summary
/// `SummaryTooLong`, and the summary passes the slur filter, whose
/// answer is its own; every rejection leaves the store untouched.
/// Otherwise exactly that one row changes and is returned.
pub fn edit_community_tag(
    tags: &mut Vec<CommunityTag>,
    data: &EditCommunityTag,
    slur_regex: &regex::Regex,
    now: i64,
) -> (r: Result<CommunityTag, CoreError>)
    ensures
        ({
            let s = old(tags).deep_view();
            let i = spec_tag_index_where(s, tag_id_pred(data.tag_id));
            let form = SpecTagUpdateForm {
                display_name: spec_text_update(data.display_name.deep_view()),
                summary: spec_text_update(data.summary.deep_view()),
                community_id: None,
                published_at: None,
                updated_at: Some(Some(now)),
                deleted: None,
                color: data.color.deep_view(),
            };
            &&& r is Err ==> final(tags)@ == old(tags)@
            &&& i < 0 ==> r == Err::<CommunityTag, CoreError>(CoreError::NotFound)
            &&& i >= 0 && (data.summary matches Some(su) && su@.len() > MAX_SUMMARY_LENGTH) ==> r
                == Err::<CommunityTag, CoreError>(CoreError::SummaryTooLong)
            &&& i >= 0 && data.summary is None ==> r is Ok
            &&& i >= 0 && (data.summary matches Some(su) ==> su@.len() <= MAX_SUMMARY_LENGTH)
                ==> {
                &&& r is Err ==> r == Err::<CommunityTag, CoreError>(CoreError::Slurs)
                &&& r matches Ok(row) ==> {
                    &&& row@ == spec_apply_update(s[i], form)
                    &&& final(tags).deep_view() == s.update(i, row@)
                }
            }
        }),
{
    match CommunityTag::read(tags, data.tag_id) {
        Err(_) => {
            return Err(CoreError::NotFound);
        },
        Ok(_) => {},
    }
    match &data.summary {
        Some(su) => {
            match summary_length_check(su) {
                Err(e) => {
                    return Err(e);
                },
                Ok(()) => {},
            }
            match check_slurs(su.as_str(), slur_regex) {
                Err(e) => {
                    return Err(e);
                },
                Ok(()) => {},
            }
        },
        None => {},
    }
    let form = CommunityTagUpdateForm {
        display_name: optional_text_update(&data.display_name),
        summary: optional_text_update(&data.summary),
        community_id: None,
        published_at: None,
        updated_at: Some(Some(now)),
        deleted: None,
        color: crate::community_tag::clone_opt_string(&data.color),
    };
    CommunityTag::update(tags, data.tag_id, &form)
}

/// Soft-deletes or restores a tag: the tombstone flag takes the
/// requested state and the edit time is recorded; the row itself
/// always stays. An unknown tag id is `NotFound` and leaves the
/// store untouched; otherwise exactly that one row changes and is
/// returned.
pub fn delete_community_tag(
    tags: &mut Vec<CommunityTag>,
    data: &DeleteCommunityTag,
    now: i64,
) -> (r: Result<CommunityTag, CoreError>)
    ensures
        ({
            let s = old(tags).deep_view();
            let i = spec_tag_index_where(s, tag_id_pred(data.tag_id));
            let form = SpecTagUpdateForm {
                display_name: None,
                summary: None,
                community_id: None,
                published_at: None,
                updated_at: Some(Some(now)),
                deleted: Some(data.delete),
                color: None,
            };
            &&& i < 0 ==> r == Err::<CommunityTag, CoreError>(CoreError::NotFound)
                && final(tags)@ == old(tags)@
            &&& i >= 0 ==> (r matches Ok(row) && row@ == spec_apply_update(s[i], form)
                && final(tags).deep_view() == s.update(i, row@))
        }),
{
    match CommunityTag::read(tags, data.tag_id) {
        Err(_) => {
            return Err(CoreError::NotFound);
        },
        Ok(_) => {},
    }
    let form = CommunityTagUpdateForm {
        display_name: None,
        summary: None,
        community_id: None,
        published_at: None,
        updated_at: Some(Some(now)),
        deleted: Some(data.delete),
        color: None,
    };
    CommunityTag::update(tags, data.tag_id, &form)
}

} // verus!
