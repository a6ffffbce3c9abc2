//! Input validation shared by the moderation and tag operations.
//!
//! Everything here is rejected before any mutation: a failed check
//! surfaces as a specific error and the store is untouched. The slur
//! filter is a compiled pattern handed in by the surrounding
//! application; what it matches is its own affair, so the contracts
//! here leave its answer open and pin down everything else.

use vstd::prelude::*;
use vstd::string::StrSliceExecFns;

use crate::error::CoreError;

verus! {

/// Longest accepted report reason, in characters.
pub const MAX_REPORT_REASON_LENGTH: usize = 1000;

/// Longest accepted tag summary, in characters.
pub const MAX_SUMMARY_LENGTH: usize = 150;

/// Most elements an API-supplied collection may hold.
pub const MAX_API_ELEMENTS: usize = 1000;

/// Shortest accepted actor name, in characters.
pub const MIN_ACTOR_NAME_LENGTH: usize = 3;

/// Longest accepted actor name, in characters.
pub const MAX_ACTOR_NAME_LENGTH: usize = 255;

#[verifier::external_type_specification]
#[verifier::external_body]
pub struct ExRegex(regex::Regex);

/// Relies on regex::Regex::is_match: true exactly when the compiled
/// pattern matches somewhere in the haystack. Which texts a given
/// pattern matches is the pattern's own affair, so its answer is
/// left open here.
pub assume_specification[ regex::Regex::is_match ](re: &regex::Regex, haystack: &str) -> bool;

/// How the engine acts on the slur filter's answer: a match is
/// rejected as `Slurs`, anything else is accepted.
pub fn slur_outcome(matched: bool) -> (r: Result<(), CoreError>)
    ensures
        r is Ok <==> !matched,
        matched <==> r == Err::<(), CoreError>(CoreError::Slurs),
{
    if matched {
        Err(CoreError::Slurs)
    } else {
        Ok(())
    }
}

/// Rejects text the slur filter matches. A rejection is always the
/// `Slurs` error; on which texts it comes is decided by the compiled
/// pattern alone.
pub fn check_slurs(text: &str, slur_regex: &regex::Regex) -> (r: Result<(), CoreError>)
    ensures
        r is Ok || r == Err::<(), CoreError>(CoreError::Slurs),
{
    slur_outcome(slur_regex.is_match(text))
}

/// A report reason the engine accepts: present, and within the
/// length cap.
pub open spec fn spec_report_reason_ok(reason: Seq<char>) -> bool {
    0 < reason.len() <= MAX_REPORT_REASON_LENGTH
}

/// Validates a report reason: it must pass the slur filter, must not
/// be empty, and must be within the length cap. Apart from the
/// filter's answer, which is its own, the outcome is exact: an
/// empty reason is `ReportReasonRequired`, an over-long one
/// `ReportTooLong`, anything else is accepted.
pub fn check_report_reason(reason: &String, slur_regex: &regex::Regex) -> (r: Result<
    (),
    CoreError,
>)
    ensures
        r is Ok ==> spec_report_reason_ok(reason@),
        r != Err::<(), CoreError>(CoreError::Slurs) ==> {
            &&& (r == Err::<(), CoreError>(CoreError::ReportReasonRequired) <==> reason@.len()
                == 0)
            &&& (r == Err::<(), CoreError>(CoreError::ReportTooLong) <==> reason@.len()
                > MAX_REPORT_REASON_LENGTH)
            &&& (r is Ok <==> spec_report_reason_ok(reason@))
        },
{
    match check_slurs(reason.as_str(), slur_regex) {
        Err(e) => Err(e),
        Ok(()) => {
            let n = reason.as_str().unicode_len();
            if n == 0 {
                Err(CoreError::ReportReasonRequired)
            } else if n > MAX_REPORT_REASON_LENGTH {
                Err(CoreError::ReportTooLong)
            } else {
                Ok(())
            }
        },
    }
}

/// A character an actor name may hold: an ASCII letter, a digit or
/// an underscore.
pub open spec fn spec_actor_name_char(c: char) -> bool {
    ('a' <= c && c <= 'z') || ('A' <= c && c <= 'Z') || ('0' <= c && c <= '9') || c == '_'
}

/// A machine name a community tag (or any other actor) may carry:
/// within the length bounds and made of name characters only.
pub open spec fn spec_valid_actor_name(s: Seq<char>) -> bool {
    &&& MIN_ACTOR_NAME_LENGTH <= s.len() <= MAX_ACTOR_NAME_LENGTH
    &&& forall|i: int| 0 <= i < s.len() ==> spec_actor_name_char(#[trigger] s[i])
}

/// Validates an actor name; `InvalidName` exactly when the name is
/// out of bounds or holds a character outside the name alphabet.
pub fn is_valid_actor_name(name: &String) -> (r: Result<(), CoreError>)
    ensures
        r is Ok <==> spec_valid_actor_name(name@),
        r is Err ==> r == Err::<(), CoreError>(CoreError::InvalidName),
{
    let n = name.as_str().unicode_len();
    if n < MIN_ACTOR_NAME_LENGTH || n > MAX_ACTOR_NAME_LENGTH {
        return Err(CoreError::InvalidName);
    }
    let mut i: usize = 0;
    while i < n
        invariant
            i <= n,
            n == name@.len(),
            forall|k: int| 0 <= k < i ==> spec_actor_name_char(#[trigger] name@[k]),
        decreases n - i,
    {
        let c = name.as_str().get_char(i);
        let ok = ('a' <= c && c <= 'z') || ('A' <= c && c <= 'Z') || ('0' <= c && c <= '9') || c
            == '_';
        if !ok {
            assert(!spec_actor_name_char(name@[i as int]));
            return Err(CoreError::InvalidName);
        }
        i = i + 1;
    }
    Ok(())
}

/// Validates a tag summary's length; `SummaryTooLong` exactly when
/// it is over the cap.
pub fn summary_length_check(summary: &String) -> (r: Result<(), CoreError>)
    ensures
        r is Ok <==> summary@.len() <= MAX_SUMMARY_LENGTH,
        r is Err ==> r == Err::<(), CoreError>(CoreError::SummaryTooLong),
{
    if summary.as_str().unicode_len() > MAX_SUMMARY_LENGTH {
        Err(CoreError::SummaryTooLong)
    } else {
        Ok(())
    }
}

/// Validates the size of an API-supplied collection; `TooManyItems`
/// exactly when it is over the cap.
pub fn check_api_elements_count(len: usize) -> (r: Result<(), CoreError>)
    ensures
        r is Ok <==> len <= MAX_API_ELEMENTS,
        r is Err ==> r == Err::<(), CoreError>(CoreError::TooManyItems),
{
    if len > MAX_API_ELEMENTS {
        Err(CoreError::TooManyItems)
    } else {
        Ok(())
    }
}

/// How an optional text field of an edit request maps onto a partial
/// update: an absent field leaves the column alone, an empty text
/// clears it, anything else overwrites it.
pub open spec fn spec_text_update(o: Option<Seq<char>>) -> Option<Option<Seq<char>>> {
    match o {
        None => None,
        Some(s) => Some(
            if s.len() == 0 {
                None
            } else {
                Some(s)
            },
        ),
    }
}

/// Builds the partial-update value for an optional text field of an
/// edit request.
pub fn optional_text_update(o: &Option<String>) -> (r: Option<Option<String>>)
    ensures
        r.deep_view() == spec_text_update(o.deep_view()),
{
    match o {
        None => None,
        Some(s) => {
            if s.as_str().unicode_len() == 0 {
                Some(None)
            } else {
                Some(Some(s.clone()))
            }
        },
    }
}

} // verus!
