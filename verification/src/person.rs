//! Person-facing queries and moderation-log visibility.

use vstd::prelude::*;

verus! {

/// The query naming a local person by username, as the federation
/// endpoint receives it.
#[derive(Clone, Debug, PartialEq)]
pub struct PersonQuery {
    pub user_name: String,
}

/// Whether moderator names are hidden from a modlog listing.
///
/// Names show only to an admin, or — when the listing is scoped to
/// one community — to someone the policy check accepted as moderator
/// or admin of it. The policy answer is an input: authorization is
/// decided outside the engine. An anonymous viewer carries no admin
/// flag.
pub fn hide_modlog_names(
    viewer_is_admin: Option<bool>,
    community_id: Option<u64>,
    is_mod_or_admin: bool,
) -> (r: bool)
    ensures
        r == (match community_id {
            Some(_) => !is_mod_or_admin,
            None => viewer_is_admin != Some(true),
        }),
{
    match community_id {
        Some(_) => !is_mod_or_admin,
        None => match viewer_is_admin {
            Some(true) => false,
            _ => true,
        },
    }
}

} // verus!
