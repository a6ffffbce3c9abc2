//! Deleting a private message for its recipient.
//!
//! Only the recipient of a message may mark it as deleted on their
//! side; the message row itself stays, so the sender's copy is
//! unaffected.

use vstd::prelude::*;

use crate::error::CoreError;

verus! {

/// A private message row, as the engine reads it.
#[derive(Clone, Copy, Debug, PartialEq, Eq, Structural)]
pub struct PrivateMessage {
    pub id: u64,
    pub creator_id: u64,
    pub recipient_id: u64,
    pub deleted_by_recipient: bool,
}

/// Index of the first message with the given id, or `-1` when absent.
pub open spec fn spec_pm_index(s: Seq<PrivateMessage>, id: u64) -> int
    decreases s.len(),
{
    if s.len() == 0 {
        -1
    } else if s[0].id == id {
        0
    } else {
        let rest = spec_pm_index(s.skip(1), id);
        if rest < 0 {
            -1
        } else {
            rest + 1
        }
    }
}

/// `spec_pm_index` points at the first matching row: a negative
/// result means no row matches, a non-negative result is in bounds,
/// matches, and nothing before it matches.
pub proof fn lemma_pm_index_first_match(s: Seq<PrivateMessage>, id: u64)
    ensures
        spec_pm_index(s, id) < 0 ==> forall|k: int| 0 <= k < s.len() ==> s[k].id != id,
        spec_pm_index(s, id) >= 0 ==> {
            let i = spec_pm_index(s, id);
            &&& i < s.len()
            &&& s[i].id == id
            &&& forall|k: int| 0 <= k < i ==> s[k].id != id
        },
    decreases s.len(),
{
    if s.len() > 0 && s[0].id != id {
        lemma_pm_index_first_match(s.skip(1), id);
        assert forall|k: int| 1 <= k < s.len() implies s[k] == s.skip(1)[k - 1] by {}
    }
}

/// Marks a private message as deleted (or restored) for its
/// recipient.
///
/// Fails with `NotFound` when no such message exists and with
/// `EditPrivateMessageNotAllowed` when the caller is not the
/// recipient; in both cases the store is untouched. Otherwise only
/// the `deleted_by_recipient` flag of that one row changes, and the
/// updated row is returned.
pub fn delete_private_message_for_recipient(
    messages: &mut Vec<PrivateMessage>,
    private_message_id: u64,
    actor_person_id: u64,
    deleted: bool,
) -> (r: Result<PrivateMessage, CoreError>)
    ensures
        ({
            let s = old(messages)@;
            let i = spec_pm_index(s, private_message_id);
            &&& i < 0 ==> r == Err::<PrivateMessage, CoreError>(CoreError::NotFound)
                && final(messages)@ == s
            &&& i >= 0 && s[i].recipient_id != actor_person_id ==> r == Err::<
                PrivateMessage,
                CoreError,
            >(CoreError::EditPrivateMessageNotAllowed) && final(messages)@ == s
            &&& i >= 0 && s[i].recipient_id == actor_person_id ==> {
                let upd = PrivateMessage { deleted_by_recipient: deleted, ..s[i] };
                &&& final(messages)@ == s.update(i, upd)
                &&& r == Ok::<PrivateMessage, CoreError>(upd)
            }
        }),
{
    proof {
        lemma_pm_index_first_match(old(messages)@, private_message_id);
    }
    let ghost s = messages@;
    let mut i: usize = 0;
    while i < messages.len()
        invariant
            0 <= i <= messages.len(),
            messages@ == s,
            forall|k: int| 0 <= k < i ==> s[k].id != private_message_id,
        decreases messages.len() - i,
    {
        if messages[i].id == private_message_id {
            let orig = messages[i];
            assert(spec_pm_index(s, private_message_id) == i) by {
                lemma_pm_index_first_match(s, private_message_id);
            }
            if orig.recipient_id != actor_person_id {
                return Err(CoreError::EditPrivateMessageNotAllowed);
            }
            let upd = PrivateMessage { deleted_by_recipient: deleted, ..orig };
            messages.set(i, upd);
            return Ok(upd);
        }
        i = i + 1;
    }
    assert(spec_pm_index(s, private_message_id) < 0) by {
        lemma_pm_index_first_match(s, private_message_id);
        if spec_pm_index(s, private_message_id) >= 0 {
            assert(s[spec_pm_index(s, private_message_id)].id == private_message_id);
        }
    }
    Err(CoreError::NotFound)
}

} // verus!
