use fedmod::tags::{
    decode_tag, decode_tags, ApubCommunityTag, ApubTag, CommunityTagType, HashtagType, MentionType,
    TagPayload,
};
use fedmod::community_tag::CommunityTag;

fn payload(
    kind: Option<&str>,
    href: Option<&str>,
    name: Option<&str>,
    id: Option<&str>,
    preferred_username: Option<&str>,
    raw: &str,
) -> TagPayload {
    TagPayload {
        kind: kind.map(str::to_string),
        href: href.map(str::to_string),
        name: name.map(str::to_string),
        id: id.map(str::to_string),
        preferred_username: preferred_username.map(str::to_string),
        content: None,
        color: None,
        raw: raw.to_string(),
    }
}

#[test]
fn decodes_hashtag() {
    let t = decode_tag(payload(
        Some("Hashtag"),
        Some("https://example.org/tags/verus"),
        Some("verus"),
        None,
        None,
        "{}",
    ));
    match t {
        ApubTag::Hashtag(h) => {
            assert_eq!(h.href, "https://example.org/tags/verus");
            assert_eq!(h.name, "verus");
            assert_eq!(h.kind, HashtagType::Hashtag);
        }
        other => panic!("expected a hashtag, got {:?}", other),
    }
}

#[test]
fn decodes_community_tag() {
    let mut p = payload(
        Some("CommunityPostTag"),
        None,
        Some("Cool stuff"),
        Some("https://example.org/c/tech/tag/cool"),
        Some("cool"),
        "{}",
    );
    p.content = Some("the cool tag".to_string());
    let t = decode_tag(p);
    match t {
        ApubTag::CommunityTag(c) => {
            assert_eq!(c.kind, CommunityTagType::CommunityPostTag);
            assert_eq!(c.id, "https://example.org/c/tech/tag/cool");
            assert_eq!(c.preferred_username, "cool");
            assert_eq!(c.name.as_deref(), Some("Cool stuff"));
            assert_eq!(c.content.as_deref(), Some("the cool tag"));
        }
        other => panic!("expected a community tag, got {:?}", other),
    }
}

#[test]
fn decodes_mention() {
    let t = decode_tag(payload(
        Some("Mention"),
        Some("https://example.org/u/alice"),
        Some("@alice"),
        None,
        None,
        "{}",
    ));
    match t {
        ApubTag::Mention(m) => {
            assert_eq!(m.href, "https://example.org/u/alice");
            assert_eq!(m.name.as_deref(), Some("@alice"));
            assert_eq!(m.kind, MentionType::Mention);
        }
        other => panic!("expected a mention, got {:?}", other),
    }
}

#[test]
fn unknown_payload_is_preserved_verbatim() {
    let raw = "{\"type\":\"Emoji\",\"shortcode\":\":tada:\"}";
    let t = decode_tag(payload(Some("Emoji"), None, None, None, None, raw));
    match t {
        ApubTag::Unknown(p) => assert_eq!(p.raw, raw),
        other => panic!("expected the payload preserved, got {:?}", other),
    }
}

#[test]
fn missing_required_field_falls_back_to_unknown() {
    // A hashtag without a name and a mention without a target do not
    // match their variants.
    let t1 = decode_tag(payload(Some("Hashtag"), Some("https://e.org/t/x"), None, None, None, "a"));
    assert!(matches!(t1, ApubTag::Unknown(_)));
    let t2 = decode_tag(payload(Some("Mention"), None, Some("@b"), None, None, "b"));
    assert!(matches!(t2, ApubTag::Unknown(_)));
    let t3 = decode_tag(payload(None, Some("https://e.org/t/x"), Some("x"), None, None, "c"));
    assert!(matches!(t3, ApubTag::Unknown(_)));
}

#[test]
fn decode_tags_keeps_every_entry_in_order() {
    let tags = decode_tags(vec![
        payload(Some("Hashtag"), Some("https://e.org/t/x"), Some("x"), None, None, "1"),
        payload(Some("Unheard-of"), None, None, None, None, "2"),
        payload(Some("Mention"), Some("https://e.org/u/bob"), None, None, None, "3"),
    ]);
    assert_eq!(tags.len(), 3);
    assert!(matches!(tags[0], ApubTag::Hashtag(_)));
    assert!(matches!(tags[1], ApubTag::Unknown(_)));
    assert!(matches!(tags[2], ApubTag::Mention(_)));
}

#[test]
fn accessors_return_the_right_identifier() {
    let c = decode_tag(payload(
        Some("CommunityPostTag"),
        None,
        None,
        Some("https://e.org/c/t/tag/a"),
        Some("a"),
        "{}",
    ));
    assert_eq!(c.community_tag_id().map(String::as_str), Some("https://e.org/c/t/tag/a"));
    assert!(c.mention_id().is_none());

    let m = decode_tag(payload(Some("Mention"), Some("https://e.org/u/a"), None, None, None, "x"));
    assert_eq!(m.mention_id().map(String::as_str), Some("https://e.org/u/a"));
    assert!(m.community_tag_id().is_none());
}

#[test]
fn community_tag_round_trips_through_the_federated_form() {
    let tag = CommunityTag {
        id: 7,
        ap_id: "https://e.org/c/t/tag/a".to_string(),
        name: "a".to_string(),
        display_name: Some("Aaa".to_string()),
        summary: Some("about a".to_string()),
        community_id: 3,
        published_at: 100,
        updated_at: None,
        deleted: false,
        color: "red".to_string(),
    };
    let json = ApubCommunityTag::to_json(tag);
    assert_eq!(json.id, "https://e.org/c/t/tag/a");
    assert_eq!(json.preferred_username, "a");
    assert_eq!(json.name.as_deref(), Some("Aaa"));
    assert_eq!(json.content.as_deref(), Some("about a"));
    assert_eq!(json.color.as_deref(), Some("red"));

    let form = json.to_insert_form(3);
    assert_eq!(form.ap_id, "https://e.org/c/t/tag/a");
    assert_eq!(form.name, "a");
    assert_eq!(form.display_name.as_deref(), Some("Aaa"));
    assert_eq!(form.summary.as_deref(), Some("about a"));
    assert_eq!(form.community_id, 3);
    assert_eq!(form.deleted, Some(false));
    assert_eq!(form.color.as_deref(), Some("red"));
}
