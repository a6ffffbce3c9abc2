use fedmod::community_tag::CommunityTag;
use fedmod::error::CoreError;
use fedmod::person::{hide_modlog_names, PersonQuery};
use fedmod::private_message::{delete_private_message_for_recipient, PrivateMessage};
use fedmod::tag_ops::{
    create_community_tag, delete_community_tag, edit_community_tag, CreateCommunityTag,
    DeleteCommunityTag, EditCommunityTag,
};
use fedmod::validation::{
    check_api_elements_count, check_report_reason, check_slurs, is_valid_actor_name,
    optional_text_update, summary_length_check,
};
use regex::Regex;

fn slur_filter() -> Regex {
    Regex::new("(?i)grepzilla").unwrap()
}

#[test]
fn report_reason_checks_are_exact() {
    let re = slur_filter();
    assert!(check_report_reason(&"looks like spam".to_string(), &re).is_ok());
    assert_eq!(
        check_report_reason(&String::new(), &re),
        Err(CoreError::ReportReasonRequired)
    );
    let long = "x".repeat(1001);
    assert_eq!(check_report_reason(&long, &re), Err(CoreError::ReportTooLong));
    let edge = "x".repeat(1000);
    assert!(check_report_reason(&edge, &re).is_ok());
    assert_eq!(
        check_report_reason(&"utter GrepZilla".to_string(), &re),
        Err(CoreError::Slurs)
    );
}

#[test]
fn slur_filter_match_is_surfaced_as_slurs() {
    let re = slur_filter();
    assert!(check_slurs("fine text", &re).is_ok());
    assert_eq!(check_slurs("grepzilla!", &re), Err(CoreError::Slurs));
}

#[test]
fn actor_names_are_validated() {
    assert!(is_valid_actor_name(&"cool_tag3".to_string()).is_ok());
    assert_eq!(is_valid_actor_name(&"ab".to_string()), Err(CoreError::InvalidName));
    assert_eq!(is_valid_actor_name(&"has space".to_string()), Err(CoreError::InvalidName));
    assert_eq!(is_valid_actor_name(&"naïve".to_string()), Err(CoreError::InvalidName));
    let long = "a".repeat(256);
    assert_eq!(is_valid_actor_name(&long), Err(CoreError::InvalidName));
    let edge = "a".repeat(255);
    assert!(is_valid_actor_name(&edge).is_ok());
}

#[test]
fn summary_and_element_caps() {
    assert!(summary_length_check(&"short".to_string()).is_ok());
    assert_eq!(
        summary_length_check(&"s".repeat(151)),
        Err(CoreError::SummaryTooLong)
    );
    assert!(check_api_elements_count(1000).is_ok());
    assert_eq!(check_api_elements_count(1001), Err(CoreError::TooManyItems));
}

#[test]
fn optional_text_update_clears_on_empty() {
    assert_eq!(optional_text_update(&None), None);
    assert_eq!(optional_text_update(&Some(String::new())), Some(None));
    assert_eq!(
        optional_text_update(&Some("keep".to_string())),
        Some(Some("keep".to_string()))
    );
}

fn create_request(name: &str) -> CreateCommunityTag {
    CreateCommunityTag {
        community_id: 1,
        name: name.to_string(),
        display_name: Some("Cool".to_string()),
        summary: Some("a cool tag".to_string()),
        color: Some("red".to_string()),
    }
}

#[test]
fn create_community_tag_derives_a_normalized_identifier() {
    let mut tags: Vec<CommunityTag> = vec![];
    // The host is normalized to lower case by URL parsing, so the
    // stored identifier is not the raw concatenation.
    let community_ap = "https://EXAMPLE.org/c/tech".to_string();
    let row = create_community_tag(&mut tags, &create_request("cool"), &community_ap, &slur_filter(), 10, 50)
        .unwrap();
    assert_eq!(row.ap_id, "https://example.org/c/tech/tag/cool");
    assert_eq!(row.id, 10);
    assert_eq!(row.name, "cool");
    assert_eq!(row.display_name.as_deref(), Some("Cool"));
    assert!(!row.deleted);
    assert_eq!(tags.len(), 1);

    // The same name again collides on the derived identifier.
    let r2 = create_community_tag(&mut tags, &create_request("cool"), &community_ap, &slur_filter(), 11, 51);
    assert_eq!(r2.unwrap_err(), CoreError::CouldntCreate);
    assert_eq!(tags.len(), 1);
}

#[test]
fn create_community_tag_rejects_bad_requests_untouched() {
    let mut tags: Vec<CommunityTag> = vec![];
    let ap = "https://example.org/c/tech".to_string();
    let re = slur_filter();

    let r = create_community_tag(&mut tags, &create_request("no spaces!"), &ap, &re, 1, 1);
    assert_eq!(r.unwrap_err(), CoreError::InvalidName);

    let mut long_summary = create_request("fine_name");
    long_summary.summary = Some("s".repeat(151));
    let r = create_community_tag(&mut tags, &long_summary, &ap, &re, 1, 1);
    assert_eq!(r.unwrap_err(), CoreError::SummaryTooLong);

    let mut slurred = create_request("fine_name");
    slurred.summary = Some("about grepzilla".to_string());
    let r = create_community_tag(&mut tags, &slurred, &ap, &re, 1, 1);
    assert_eq!(r.unwrap_err(), CoreError::Slurs);

    let bad_ap = "not a url at all".to_string();
    let r = create_community_tag(&mut tags, &create_request("fine_name"), &bad_ap, &re, 1, 1);
    assert_eq!(r.unwrap_err(), CoreError::InvalidUrl);

    assert!(tags.is_empty());
}

#[test]
fn create_community_tag_enforces_the_per_community_cap() {
    let mut tags: Vec<CommunityTag> = vec![];
    let ap = "https://example.org/c/tech".to_string();
    let re = slur_filter();
    for i in 0..1001u64 {
        let mut req = create_request(&format!("tag_{}", i));
        req.summary = None;
        create_community_tag(&mut tags, &req, &ap, &re, i + 1, 1).unwrap();
    }
    assert_eq!(tags.len(), 1001);
    let r = create_community_tag(&mut tags, &create_request("one_more"), &ap, &re, 2000, 1);
    assert_eq!(r.unwrap_err(), CoreError::TooManyItems);
}

#[test]
fn edit_community_tag_updates_display_fields() {
    let mut tags: Vec<CommunityTag> = vec![];
    let ap = "https://example.org/c/tech".to_string();
    let re = slur_filter();
    let row = create_community_tag(&mut tags, &create_request("cool"), &ap, &re, 10, 50).unwrap();

    let edit = EditCommunityTag {
        tag_id: row.id,
        display_name: Some(String::new()),  // clears the column
        summary: Some("new summary".to_string()),
        color: None,
    };
    let updated = edit_community_tag(&mut tags, &edit, &re, 60).unwrap();
    assert!(updated.display_name.is_none());
    assert_eq!(updated.summary.as_deref(), Some("new summary"));
    assert_eq!(updated.updated_at, Some(60));
    assert_eq!(updated.color, "red");

    let missing = EditCommunityTag { tag_id: 999, display_name: None, summary: None, color: None };
    assert_eq!(edit_community_tag(&mut tags, &missing, &re, 61).unwrap_err(), CoreError::NotFound);
}

#[test]
fn delete_community_tag_tombstones_and_restores() {
    let mut tags: Vec<CommunityTag> = vec![];
    let ap = "https://example.org/c/tech".to_string();
    let re = slur_filter();
    let row = create_community_tag(&mut tags, &create_request("cool"), &ap, &re, 10, 50).unwrap();

    let gone = delete_community_tag(&mut tags, &DeleteCommunityTag { tag_id: row.id, delete: true }, 60)
        .unwrap();
    assert!(gone.deleted);
    assert_eq!(gone.updated_at, Some(60));
    // Soft delete: the row itself stays.
    assert_eq!(tags.len(), 1);

    let back = delete_community_tag(&mut tags, &DeleteCommunityTag { tag_id: row.id, delete: false }, 61)
        .unwrap();
    assert!(!back.deleted);

    let missing = delete_community_tag(&mut tags, &DeleteCommunityTag { tag_id: 999, delete: true }, 62);
    assert_eq!(missing.unwrap_err(), CoreError::NotFound);
}

#[test]
fn private_message_deletion_is_recipient_only() {
    let mut msgs = vec![PrivateMessage {
        id: 1,
        creator_id: 2,
        recipient_id: 3,
        deleted_by_recipient: false,
    }];
    let r = delete_private_message_for_recipient(&mut msgs, 1, 2, true);
    assert_eq!(r.unwrap_err(), CoreError::EditPrivateMessageNotAllowed);
    assert!(!msgs[0].deleted_by_recipient);

    let ok = delete_private_message_for_recipient(&mut msgs, 1, 3, true).unwrap();
    assert!(ok.deleted_by_recipient);
    assert!(msgs[0].deleted_by_recipient);

    let missing = delete_private_message_for_recipient(&mut msgs, 9, 3, true);
    assert_eq!(missing.unwrap_err(), CoreError::NotFound);
}

#[test]
fn modlog_names_hide_for_non_moderators() {
    // Scoped to a community: the policy answer decides.
    assert!(!hide_modlog_names(Some(false), Some(5), true));
    assert!(hide_modlog_names(Some(false), Some(5), false));
    // Unscoped: only an admin sees names.
    assert!(!hide_modlog_names(Some(true), None, false));
    assert!(hide_modlog_names(Some(false), None, false));
    assert!(hide_modlog_names(None, None, false));
}

#[test]
fn person_query_carries_the_username() {
    let q = PersonQuery { user_name: "alice".to_string() };
    assert_eq!(q.user_name, "alice");
}
