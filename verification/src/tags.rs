//! The tag protocol decoder.
//!
//! A federated post or comment carries an open-ended list of tag
//! payloads; any object may be a tag, so the vocabulary can grow at
//! any time. The decoder classifies each payload by its `type`
//! discriminator into the closed set of locally understood variants
//! and never fails: a payload that matches no known discriminator
//! decodes to `Unknown` and is preserved verbatim — round-trippable,
//! not dropped — so that future protocol extensions cannot break
//! older nodes. Only community tags and mentions carry semantic
//! meaning to the rest of the engine; hashtags and unknown entries
//! are passed through unexamined.

use vstd::prelude::*;

use crate::community_tag::{CommunityTag, CommunityTagInsertForm, SpecTagInsertForm, string_eq};

verus! {

/// One loosely structured tag payload, as the surrounding
/// application read it off the wire: the fields the protocol knows,
/// each present or absent, and the raw payload text kept whole for
/// lossless round-tripping.
#[derive(Clone, Debug, PartialEq)]
pub struct TagPayload {
    /// The `type` discriminator, where the payload carries one as text.
    pub kind: Option<String>,
    pub href: Option<String>,
    pub name: Option<String>,
    pub id: Option<String>,
    pub preferred_username: Option<String>,
    pub content: Option<String>,
    pub color: Option<String>,
    /// The payload verbatim, for round-tripping unknown entries.
    pub raw: String,
}

/// The mathematical model of a tag payload.
#[verifier::ext_equal]
pub struct SpecTagPayload {
    pub kind: Option<Seq<char>>,
    pub href: Option<Seq<char>>,
    pub name: Option<Seq<char>>,
    pub id: Option<Seq<char>>,
    pub preferred_username: Option<Seq<char>>,
    pub content: Option<Seq<char>>,
    pub color: Option<Seq<char>>,
    pub raw: Seq<char>,
}

impl View for TagPayload {
    type V = SpecTagPayload;

    open spec fn view(&self) -> SpecTagPayload {
        SpecTagPayload {
            kind: self.kind.deep_view(),
            href: self.href.deep_view(),
            name: self.name.deep_view(),
            id: self.id.deep_view(),
            preferred_username: self.preferred_username.deep_view(),
            content: self.content.deep_view(),
            color: self.color.deep_view(),
            raw: self.raw@,
        }
    }
}

impl DeepView for TagPayload {
    type V = SpecTagPayload;

    open spec fn deep_view(&self) -> SpecTagPayload {
        self.view()
    }
}

/// The discriminator of a hashtag payload.
#[derive(Clone, Copy, Debug, PartialEq, Eq, Structural)]
pub enum HashtagType {
    Hashtag,
}

/// The discriminator of a mention payload.
#[derive(Clone, Copy, Debug, PartialEq, Eq, Structural)]
pub enum MentionType {
    Mention,
}

/// The discriminator of a community-tag payload.
#[derive(Clone, Copy, Debug, PartialEq, Eq, Structural)]
pub enum CommunityTagType {
    CommunityPostTag,
}

/// A hashtag attached to a federated object; passed through
/// unexamined.
#[derive(Clone, Debug, PartialEq)]
pub struct Hashtag {
    pub href: String,
    pub name: String,
    pub kind: HashtagType,
}

/// The mathematical model of a hashtag.
#[verifier::ext_equal]
pub struct SpecHashtag {
    pub href: Seq<char>,
    pub name: Seq<char>,
    pub kind: HashtagType,
}

impl View for Hashtag {
    type V = SpecHashtag;

    open spec fn view(&self) -> SpecHashtag {
        SpecHashtag { href: self.href@, name: self.name@, kind: self.kind }
    }
}

impl DeepView for Hashtag {
    type V = SpecHashtag;

    open spec fn deep_view(&self) -> SpecHashtag {
        self.view()
    }
}

/// A mention of a person: the target's global identifier and an
/// optional display name.
#[derive(Clone, Debug, PartialEq)]
pub struct Mention {
    pub href: String,
    pub name: Option<String>,
    pub kind: MentionType,
}

/// The mathematical model of a mention.
#[verifier::ext_equal]
pub struct SpecMention {
    pub href: Seq<char>,
    pub name: Option<Seq<char>>,
    pub kind: MentionType,
}

impl View for Mention {
    type V = SpecMention;

    open spec fn view(&self) -> SpecMention {
        SpecMention { href: self.href@, name: self.name.deep_view(), kind: self.kind }
    }
}

impl DeepView for Mention {
    type V = SpecMention;

    open spec fn deep_view(&self) -> SpecMention {
        self.view()
    }
}

/// A tag that a community owns, as it travels between nodes.
#[derive(Clone, Debug, PartialEq)]
pub struct ApubCommunityTag {
    pub kind: CommunityTagType,
    pub id: String,
    pub name: Option<String>,
    pub preferred_username: String,
    pub content: Option<String>,
    pub color: Option<String>,
}

/// The mathematical model of a federated community tag.
#[verifier::ext_equal]
pub struct SpecApubCommunityTag {
    pub kind: CommunityTagType,
    pub id: Seq<char>,
    pub name: Option<Seq<char>>,
    pub preferred_username: Seq<char>,
    pub content: Option<Seq<char>>,
    pub color: Option<Seq<char>>,
}

impl View for ApubCommunityTag {
    type V = SpecApubCommunityTag;

    open spec fn view(&self) -> SpecApubCommunityTag {
        SpecApubCommunityTag {
            kind: self.kind,
            id: self.id@,
            name: self.name.deep_view(),
            preferred_username: self.preferred_username@,
            content: self.content.deep_view(),
            color: self.color.deep_view(),
        }
    }
}

impl DeepView for ApubCommunityTag {
    type V = SpecApubCommunityTag;

    open spec fn deep_view(&self) -> SpecApubCommunityTag {
        self.view()
    }
}

/// One decoded tag: a locally understood variant, or the payload
/// preserved verbatim where no discriminator matched.
#[derive(Clone, Debug, PartialEq)]
pub enum ApubTag {
    Hashtag(Hashtag),
    CommunityTag(ApubCommunityTag),
    Mention(Mention),
    Unknown(TagPayload),
}

/// The mathematical model of a decoded tag.
#[verifier::ext_equal]
pub enum SpecApubTag {
    Hashtag(SpecHashtag),
    CommunityTag(SpecApubCommunityTag),
    Mention(SpecMention),
    Unknown(SpecTagPayload),
}

impl View for ApubTag {
    type V = SpecApubTag;

    open spec fn view(&self) -> SpecApubTag {
        match self {
            ApubTag::Hashtag(h) => SpecApubTag::Hashtag(h@),
            ApubTag::CommunityTag(t) => SpecApubTag::CommunityTag(t@),
            ApubTag::Mention(m) => SpecApubTag::Mention(m@),
            ApubTag::Unknown(p) => SpecApubTag::Unknown(p@),
        }
    }
}

impl DeepView for ApubTag {
    type V = SpecApubTag;

    open spec fn deep_view(&self) -> SpecApubTag {
        self.view()
    }
}

/// What one payload decodes to, discriminated by its `type` field:
/// a hashtag, a community tag or a mention where the discriminator
/// and the variant's required fields are present, else the payload
/// itself, preserved whole. Decoding never fails.
pub open spec fn spec_decode(p: SpecTagPayload) -> SpecApubTag {
    if p.kind == Some("Hashtag"@) && p.href is Some && p.name is Some {
        SpecApubTag::Hashtag(
            SpecHashtag { href: p.href->0, name: p.name->0, kind: HashtagType::Hashtag },
        )
    } else if p.kind == Some("CommunityPostTag"@) && p.id is Some && p.preferred_username
        is Some {
        SpecApubTag::CommunityTag(
            SpecApubCommunityTag {
                kind: CommunityTagType::CommunityPostTag,
                id: p.id->0,
                name: p.name,
                preferred_username: p.preferred_username->0,
                content: p.content,
                color: p.color,
            },
        )
    } else if p.kind == Some("Mention"@) && p.href is Some {
        SpecApubTag::Mention(
            SpecMention { href: p.href->0, name: p.name, kind: MentionType::Mention },
        )
    } else {
        SpecApubTag::Unknown(p)
    }
}

/// Whole payload lists, decoded elementwise in order.
pub open spec fn spec_decode_all(ps: Seq<SpecTagPayload>) -> Seq<SpecApubTag> {
    Seq::new(ps.len(), |i: int| spec_decode(ps[i]))
}

/// Whether a payload's `type` discriminator is the given word.
fn kind_is(kind: &Option<String>, word: &str) -> (r: bool)
    ensures
        r == (kind.deep_view() == Some(word@)),
{
    match kind {
        Some(k) => string_eq(k, &word.to_owned()),
        None => false,
    }
}

/// Decodes one payload; never fails.
pub fn decode_tag(p: TagPayload) -> (t: ApubTag)
    ensures
        t@ == spec_decode(p@),
{
    let hashtag = kind_is(&p.kind, "Hashtag") && p.href.is_some() && p.name.is_some();
    let community = kind_is(&p.kind, "CommunityPostTag") && p.id.is_some()
        && p.preferred_username.is_some();
    let mention = kind_is(&p.kind, "Mention") && p.href.is_some();
    if hashtag {
        ApubTag::Hashtag(
            Hashtag { href: p.href.unwrap(), name: p.name.unwrap(), kind: HashtagType::Hashtag },
        )
    } else if community {
        ApubTag::CommunityTag(
            ApubCommunityTag {
                kind: CommunityTagType::CommunityPostTag,
                id: p.id.unwrap(),
                name: p.name,
                preferred_username: p.preferred_username.unwrap(),
                content: p.content,
                color: p.color,
            },
        )
    } else if mention {
        ApubTag::Mention(Mention { href: p.href.unwrap(), name: p.name, kind: MentionType::Mention })
    } else {
        ApubTag::Unknown(p)
    }
}

/// Decodes a whole payload list, in order; never fails and never
/// drops an entry.
pub fn decode_tags(payloads: Vec<TagPayload>) -> (tags: Vec<ApubTag>)
    ensures
        tags.deep_view() == spec_decode_all(payloads.deep_view()),
{
    let ghost ps = payloads.deep_view();
    let mut rest = payloads;
    let mut tags: Vec<ApubTag> = Vec::new();
    let ghost mut i: int = 0;
    proof {
        assert(rest.deep_view() =~= ps.skip(0));
        assert(tags.deep_view() =~= spec_decode_all(ps).take(0));
    }
    while rest.len() > 0
        invariant
            0 <= i <= ps.len(),
            rest.deep_view() == ps.skip(i),
            tags.deep_view() == spec_decode_all(ps).take(i),
        decreases rest@.len(),
    {
        let ghost dv_pre = tags.deep_view();
        let ghost rest_pre = rest.deep_view();
        let p = rest.remove(0);
        proof {
            assert(p.deep_view() == rest_pre[0]);
            assert(rest_pre[0] == ps[i]);
            assert(rest.deep_view() =~= rest_pre.skip(1));
            assert(rest_pre.skip(1) =~= ps.skip(i + 1));
        }
        let t = decode_tag(p);
        tags.push(t);
        proof {
            assert(tags.deep_view() =~= dv_pre.push(spec_decode(ps[i])));
            assert(tags.deep_view() =~= spec_decode_all(ps).take(i + 1));
            i = i + 1;
        }
    }
    proof {
        assert(i == ps.len());
        assert(spec_decode_all(ps).take(ps.len() as int) =~= spec_decode_all(ps));
    }
    tags
}

impl ApubTag {
    /// The community-tag identifier carried by this tag, where it is
    /// one; never errors on absence.
    pub fn community_tag_id(&self) -> (r: Option<&String>)
        ensures
            ({
                match self@ {
                    SpecApubTag::CommunityTag(t) => (r matches Some(u) && u@ == t.id),
                    _ => r is None,
                }
            }),
    {
        match self {
            ApubTag::CommunityTag(t) => Some(&t.id),
            _ => None,
        }
    }

    /// The mention target carried by this tag, where it is a
    /// mention; never errors on absence.
    pub fn mention_id(&self) -> (r: Option<&String>)
        ensures
            ({
                match self@ {
                    SpecApubTag::Mention(m) => (r matches Some(u) && u@ == m.href),
                    _ => r is None,
                }
            }),
    {
        match self {
            ApubTag::Mention(m) => Some(&m.href),
            _ => None,
        }
    }
}

impl ApubCommunityTag {
    /// The federated form of one locally stored community tag.
    pub fn to_json(tag: CommunityTag) -> (r: ApubCommunityTag)
        ensures
            r@ == (SpecApubCommunityTag {
                kind: CommunityTagType::CommunityPostTag,
                id: tag@.ap_id,
                name: tag@.display_name,
                preferred_username: tag@.name,
                content: tag@.summary,
                color: Some(tag@.color),
            }),
    {
        ApubCommunityTag {
            kind: CommunityTagType::CommunityPostTag,
            id: tag.ap_id,
            name: tag.display_name,
            preferred_username: tag.name,
            content: tag.summary,
            color: Some(tag.color),
        }
    }

    /// The upsert form a received federated tag lands as: keyed by
    /// its global identifier, owned by the given community, live.
    pub fn to_insert_form(&self, community_id: u64) -> (r: CommunityTagInsertForm)
        ensures
            r@ == (SpecTagInsertForm {
                ap_id: self@.id,
                name: self@.preferred_username,
                display_name: self@.name,
                summary: self@.content,
                community_id,
                deleted: Some(false),
                color: self@.color,
            }),
    {
        CommunityTagInsertForm {
            ap_id: self.id.clone(),
            name: self.preferred_username.clone(),
            display_name: crate::community_tag::clone_opt_string(&self.name),
            summary: crate::community_tag::clone_opt_string(&self.content),
            community_id,
            deleted: Some(false),
            color: crate::community_tag::clone_opt_string(&self.color),
        }
    }
}

} // verus!
