//! What can go wrong, and how a caller is told.

use crate::answers::{AnswerView, HttpAnswer};
use crate::json;
use crate::json::JsonView;
use vstd::prelude::*;
use vstd::string::*;

verus! {

/// Why a request was refused or failed.
#[derive(Debug)]
pub enum FrameworkError {
    InvalidRequest(String),
    ServerNotFound(String),
    ToolNotFound(String),
    Io(String),
    Json(String),
    Mcp(String),
}

/// What an error is: its kind, and what it names.
pub enum ErrorView {
    InvalidRequest(Seq<char>),
    ServerNotFound(Seq<char>),
    ToolNotFound(Seq<char>),
    Io(Seq<char>),
    Json(Seq<char>),
    Mcp(Seq<char>),
}

impl View for FrameworkError {
    type V = ErrorView;

    open spec fn view(&self) -> ErrorView {
        match self {
            FrameworkError::InvalidRequest(detail) => ErrorView::InvalidRequest(detail@),
            FrameworkError::ServerNotFound(detail) => ErrorView::ServerNotFound(detail@),
            FrameworkError::ToolNotFound(detail) => ErrorView::ToolNotFound(detail@),
            FrameworkError::Io(detail) => ErrorView::Io(detail@),
            FrameworkError::Json(detail) => ErrorView::Json(detail@),
            FrameworkError::Mcp(detail) => ErrorView::Mcp(detail@),
        }
    }
}

impl ErrorView {
    /// The text that tells of the error.
    pub open spec fn message(self) -> Seq<char> {
        match self {
            ErrorView::InvalidRequest(detail) => "invalid request: "@ + detail,
            ErrorView::ServerNotFound(detail) => "server not found: "@ + detail,
            ErrorView::ToolNotFound(detail) => "tool not found: "@ + detail,
            ErrorView::Io(detail) => "io error: "@ + detail,
            ErrorView::Json(detail) => "json error: "@ + detail,
            ErrorView::Mcp(detail) => "mcp error: "@ + detail,
        }
    }

    /// The HTTP status of the answer: a request that is wrong, something that is not there, or a
    /// failure on this side.
    pub open spec fn status(self) -> u16 {
        match self {
            ErrorView::InvalidRequest(_) => 400,
            ErrorView::ServerNotFound(_) | ErrorView::ToolNotFound(_) => 404,
            ErrorView::Io(_) | ErrorView::Json(_) | ErrorView::Mcp(_) => 500,
        }
    }

    /// The body of the answer.
    pub open spec fn body(self) -> JsonView {
        JsonView::Object(
            map![
                "ok"@ => JsonView::Bool(false),
                "error"@ => JsonView::Text(self.message()),
            ],
        )
    }
}

fn prefixed(prefix: &str, detail: &String) -> (r: String)
    ensures
        r@ == prefix@ + detail@,
{
    prefix.to_owned().concat(detail.as_str())
}

impl FrameworkError {
    /// The error for a text that is no JSON, or that does not fit.
    pub fn from(value: serde_json::Error) -> (r: FrameworkError)
        ensures
            r@ == ErrorView::Json(json::error_text(value)),
    {
        FrameworkError::Json(json::error_message(&value))
    }

    /// The text that tells of the error.
    pub fn message(&self) -> (r: String)
        ensures
            r@ == self@.message(),
    {
        match self {
            FrameworkError::InvalidRequest(detail) => prefixed("invalid request: ", detail),
            FrameworkError::ServerNotFound(detail) => prefixed("server not found: ", detail),
            FrameworkError::ToolNotFound(detail) => prefixed("tool not found: ", detail),
            FrameworkError::Io(detail) => prefixed("io error: ", detail),
            FrameworkError::Json(detail) => prefixed("json error: ", detail),
            FrameworkError::Mcp(detail) => prefixed("mcp error: ", detail),
        }
    }

    /// The answer that tells a caller of the error.
    pub fn into_response(self) -> (r: HttpAnswer)
        ensures
            r is Refused,
            r->status == (match self {
                FrameworkError::InvalidRequest(_) => 400u16,
                FrameworkError::ServerNotFound(_) | FrameworkError::ToolNotFound(_) => 404u16,
                FrameworkError::Io(_) | FrameworkError::Json(_) | FrameworkError::Mcp(_) => 500u16,
            }),
            r@ == (AnswerView { status: self@.status(), body: self@.body() }),
    {
        let status: u16 = match &self {
            FrameworkError::InvalidRequest(_) => 400,
            FrameworkError::ServerNotFound(_) | FrameworkError::ToolNotFound(_) => 404,
            FrameworkError::Io(_) | FrameworkError::Json(_) | FrameworkError::Mcp(_) => 500,
        };
        let mut fields = json::new_map();
        json::put(&mut fields, "ok", json::bool_value(false));
        json::put(&mut fields, "error", json::string_value(self.message()));
        HttpAnswer::Refused { status, body: json::object_value(fields) }
    }
}

/// What an error names is told to the caller whole, after words that tell the kind of the error.
pub proof fn errors_are_told_whole(detail: String)
    ensures
        FrameworkError::InvalidRequest(detail)@.message() == "invalid request: "@ + detail@,
        FrameworkError::ServerNotFound(detail)@.message() == "server not found: "@ + detail@,
        FrameworkError::ToolNotFound(detail)@.message() == "tool not found: "@ + detail@,
        FrameworkError::Io(detail)@.message() == "io error: "@ + detail@,
        FrameworkError::Json(detail)@.message() == "json error: "@ + detail@,
        FrameworkError::Mcp(detail)@.message() == "mcp error: "@ + detail@,
{
}

/// The status tells the kind of the error: a request that is wrong, something that is not there, or
/// a failure on this side, whatever the error names.
pub proof fn statuses_tell_the_kind(error: FrameworkError)
    ensures
        error@.status() == 400 <==> error is InvalidRequest,
        error@.status() == 404 <==> error is ServerNotFound || error is ToolNotFound,
        error@.status() == 500 <==> error is Io || error is Json || error is Mcp,
{
}

/// The body of the answer to an error says that the request was not met and tells of the error, and
/// says nothing else.
pub proof fn bodies_tell_of_the_error(error: FrameworkError)
    ensures
        json::member(error@.body(), "ok"@) == Some(JsonView::Bool(false)),
        json::member(error@.body(), "error"@) == Some(JsonView::Text(error@.message())),
        forall|key: Seq<char>| #[trigger]
            json::member(error@.body(), key) is Some ==> key == "ok"@ || key == "error"@,
{
    reveal_strlit("ok");
    reveal_strlit("error");
    assert("ok"@.len() != "error"@.len());
}

} // verus!
