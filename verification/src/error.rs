//! The typed failures surfaced by the engine's operations.

use vstd::prelude::*;

verus! {

/// A typed failure of a core operation.
///
/// Validation failures and not-found conditions are rejected before
/// any mutation; an operation that returns one of these has left the
/// store untouched.
#[derive(Clone, Copy, Debug, PartialEq, Eq, Structural)]
pub enum CoreError {
    /// A row could not be created (for example, an identifier that
    /// must be unique already exists).
    CouldntCreate,
    /// An update was rejected, such as a removal invoked on an
    /// author-deleted comment.
    CouldntUpdate,
    /// A referenced comment, post, report or tag does not exist.
    NotFound,
    /// The target is deleted or removed and may not be acted on.
    Deleted,
    /// Only the recipient of a private message may delete it for
    /// themselves.
    EditPrivateMessageNotAllowed,
    /// A report reason must not be empty.
    ReportReasonRequired,
    /// A report reason is over the permitted length.
    ReportTooLong,
    /// Text was rejected by the slur filter.
    Slurs,
    /// A tag name is not a valid actor name.
    InvalidName,
    /// A collection already holds the maximum number of elements.
    TooManyItems,
    /// A summary is over the permitted length.
    SummaryTooLong,
    /// A tag identifier could not be derived as a valid URL.
    InvalidUrl,
}

} // verus!
