//! The message store's rules: what may be stored, and as what.

use vstd::prelude::*;
use vstd::string::*;
use crate::error::{caused_by, ApiError, ApiErrorView};
use crate::message::{Message, MessageView};
use crate::session::User;
use crate::text::{trim, trimmed_text};

verus! {

/// Why a message was not stored.
#[derive(Debug, Clone, Copy, PartialEq, Eq, Structural)]
pub enum StoreFault {
    /// The store could not be reached, or refused the write.
    StoreUnavailable,
    /// The message is not one that may be stored.
    ValidationFailed,
}

/// Whether `text` holds nothing but white space.
pub open spec fn is_blank(text: Seq<char>) -> bool {
    trimmed_text(text).len() == 0
}

/// The record for `text` written by `author` at `now`.
pub open spec fn drafted(author: Seq<char>, text: Seq<char>, now: i64) -> MessageView {
    MessageView { user_id: author, content: text, created_at: now as int, updated_at: now as int }
}

/// What `draft_message` answers: without a session a 401 that quotes the
/// cause; for blank text a 400; otherwise the record, with the user of the
/// session as its author.
pub open spec fn draft_outcome(
    session: Result<User, ApiError>,
    text: Seq<char>,
    blank: bool,
    now: i64,
) -> Result<MessageView, ApiErrorView> {
    match session {
        Err(cause) => Err(caused_by(401, "Authentication failed: "@, cause@)),
        Ok(user) => if blank {
            Err(ApiErrorView { code: 400, message: "Message text cannot be empty"@ })
        } else {
            Ok(drafted(user._id->0@, text, now))
        },
    }
}

pub open spec fn outcome_view(r: Result<Message, ApiError>) -> Result<MessageView, ApiErrorView> {
    match r {
        Ok(m) => Ok(m@),
        Err(e) => Err(e@),
    }
}

/// Drafts the record of a message that the user of `session` sends at `now`.
/// `blank` says whether the text holds nothing but white space.
pub fn draft_message(session: Result<User, ApiError>, text: String, blank: bool, now: i64) -> (r:
    Result<Message, ApiError>)
    requires
        session matches Ok(user) ==> user._id is Some,
    ensures
        outcome_view(r) == draft_outcome(session, text@, blank, now),
{
    match session {
        Err(cause) => Err(ApiError::wrap(401, "Authentication failed: ", &cause)),
        Ok(user) => {
            if blank {
                return Err(ApiError::new(400, "Message text cannot be empty"));
            }
            let author = user._id.unwrap();
            Ok(Message { user_id: author, content: text, created_at: now, updated_at: now })
        },
    }
}

/// Whether `text` holds nothing but white space.
pub fn blank(text: &str) -> (b: bool)
    ensures
        b == is_blank(text@),
{
    trim(text).is_empty()
}

/// Drafts the record of a message that the user of `session` sends at `now`.
/// Without a session the answer is a 401 that quotes the cause; blank text is
/// a 400; otherwise it is the record to store, with that user as its author.
pub fn send_message(session: Result<User, ApiError>, text: String, now: i64) -> (r: Result<
    Message,
    ApiError,
>)
    requires
        session matches Ok(user) ==> user._id is Some,
    ensures
        outcome_view(r) == draft_outcome(session, text@, is_blank(text@), now),
{
    let empty = blank(text.as_str());
    draft_message(session, text, empty, now)
}

/// What the store's answer to the insert of `record` means: the record when
/// it stands, a 500 that quotes the store when it does not.
pub fn message_stored(record: Message, inserted: Result<(), String>) -> (r: Result<
    Message,
    ApiError,
>)
    ensures
        match inserted {
            Ok(_) => r matches Ok(m) && m@ == record@,
            Err(cause) => r matches Err(e) && e@ == (ApiErrorView {
                code: 500,
                message: "Failed to insert message into MongoDB: "@ + cause@,
            }),
        },
{
    match inserted {
        Ok(_) => Ok(record),
        Err(cause) => Err(
            ApiError::with_detail(500, "Failed to insert message into MongoDB: ", cause.as_str()),
        ),
    }
}

/// The fault that an error of the store stands for.
pub fn store_fault(e: &ApiError) -> (f: StoreFault)
    ensures
        f == if e.code == 400 {
            StoreFault::ValidationFailed
        } else {
            StoreFault::StoreUnavailable
        },
{
    if e.code == 400 {
        StoreFault::ValidationFailed
    } else {
        StoreFault::StoreUnavailable
    }
}

} // verus!
