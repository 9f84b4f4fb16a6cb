//! The error value that every fallible operation of the service reports.

use vstd::prelude::*;
use vstd::string::*;
use crate::text::{decimal, decimal_text, json_quote, json_string_literal};

verus! {

/// A failure with an HTTP-style status code and a human-readable message.
#[derive(Debug)]
pub struct ApiError {
    pub code: u16,
    pub message: String,
}

/// The mathematical value of an `ApiError`.
pub struct ApiErrorView {
    pub code: u16,
    pub message: Seq<char>,
}

impl View for ApiError {
    type V = ApiErrorView;

    open spec fn view(&self) -> ApiErrorView {
        ApiErrorView { code: self.code, message: self.message@ }
    }
}

/// A JSON object with the members `code` and `message`, in that order, given
/// the digits of the one and the literal of the other.
pub open spec fn error_frame(code_digits: Seq<char>, message_literal: Seq<char>) -> Seq<char> {
    "{\"code\":"@ + code_digits + ",\"message\":"@ + message_literal + "}"@
}

/// What `ApiError::to_text` renders for an error with these parts.
pub open spec fn error_text(code: u16, message: Seq<char>) -> Seq<char> {
    error_frame(decimal_text(code as int), json_string_literal(message))
}

/// The error with `code` whose message is `prefix` followed by the rendering
/// of `cause`.
pub open spec fn caused_by(code: u16, prefix: Seq<char>, cause: ApiErrorView) -> ApiErrorView {
    ApiErrorView { code, message: prefix + error_text(cause.code, cause.message) }
}

/// Puts the two rendered parts of an error into its JSON object.
pub fn frame_error(code_digits: &str, message_literal: &str) -> (t: String)
    ensures
        t@ == error_frame(code_digits@, message_literal@),
{
    let mut t = String::from_str("{\"code\":");
    t.append(code_digits);
    t.append(",\"message\":");
    t.append(message_literal);
    t.append("}");
    t
}

impl ApiError {
    pub fn new(code: u16, message: &str) -> (e: Self)
        ensures
            e@ == (ApiErrorView { code, message: message@ }),
    {
        ApiError { code, message: message.to_string() }
    }

    /// The error with `code` whose message is `prefix` followed by `detail`.
    pub fn with_detail(code: u16, prefix: &str, detail: &str) -> (e: ApiError)
        ensures
            e@ == (ApiErrorView { code, message: prefix@ + detail@ }),
    {
        let mut message = String::from_str(prefix);
        message.append(detail);
        ApiError { code, message }
    }

    /// The error as a JSON object with the members `code` and `message`, in
    /// that order.
    pub fn to_text(&self) -> (t: String)
        ensures
            t@ == error_text(self.code, self.message@),
    {
        let code = decimal(self.code as i64);
        let message = json_quote(self.message.as_str());
        frame_error(code.as_str(), message.as_str())
    }

    /// Wraps `cause` in an error with `code`, whose message is `prefix`
    /// followed by the rendering of `cause`.
    pub fn wrap(code: u16, prefix: &str, cause: &ApiError) -> (e: ApiError)
        ensures
            e@ == caused_by(code, prefix@, cause@),
    {
        let rendered = cause.to_text();
        ApiError::with_detail(code, prefix, rendered.as_str())
    }
}

} // verus!
