//! What is logged: records with a kind, a scope and a message that is kept short.

use crate::error::{ErrorView, FrameworkError};
use crate::json;
use crate::text;
use vstd::prelude::*;
use vstd::string::*;

verus! {

pub const LOG_PREVIEW_LIMIT: usize = 4000;

#[derive(Debug, Clone, Copy, PartialEq, Eq, Structural)]
pub enum LogLevel {
    Debug,
    Info,
    Warn,
    Error,
}

/// One record of the log.
pub struct LogRecord {
    pub level: LogLevel,
    pub kind: String,
    pub scope: String,
    pub message: String,
}

impl LogRecord {
    /// The record of a text: it has the kind and the scope given, and as much of the text as a
    /// preview shows.
    pub open spec fn tells(&self, level: LogLevel, kind: Seq<char>, scope: Seq<char>, text: Seq<char>) -> bool {
        &&& self.level == level
        &&& self.kind@ == kind
        &&& self.scope@ == scope
        &&& self.message@ == text::truncated(text, LOG_PREVIEW_LIMIT as nat)
    }
}

fn record(level: LogLevel, kind: &str, scope: &str, text: &str) -> (r: LogRecord)
    ensures
        r.tells(level, kind@, scope@, text@),
{
    LogRecord {
        level,
        kind: kind.to_owned(),
        scope: scope.to_owned(),
        message: text::truncate_text(text, LOG_PREVIEW_LIMIT),
    }
}

/// Records a text.
pub fn log_text(kind: &str, scope: &str, text: &str) -> (r: LogRecord)
    ensures
        r.tells(LogLevel::Info, kind@, scope@, text@),
{
    record(LogLevel::Info, kind, scope, text)
}

/// Records a text as a warning.
pub fn log_warn_text(kind: &str, scope: &str, text: &str) -> (r: LogRecord)
    ensures
        r.tells(LogLevel::Warn, kind@, scope@, text@),
{
    record(LogLevel::Warn, kind, scope, text)
}

/// Records a text as an error.
pub fn log_error_text(kind: &str, scope: &str, text: &str) -> (r: LogRecord)
    ensures
        r.tells(LogLevel::Error, kind@, scope@, text@),
{
    record(LogLevel::Error, kind, scope, text)
}

/// What is logged of something that failed after some time.
pub open spec fn failure_text(duration_ms: nat, error: ErrorView) -> Seq<char> {
    "duration_ms="@ + text::decimal(duration_ms) + " err="@ + error.message()
}

/// Records that something failed after some time.
pub fn log_failure(kind: &str, scope: &str, duration_ms: u128, error: &FrameworkError) -> (r: LogRecord)
    ensures
        r.tells(LogLevel::Error, kind@, scope@, failure_text(duration_ms as nat, error@)),
{
    let mut message = "duration_ms=".to_owned();
    message.append(text::decimal_text(duration_ms).as_str());
    message.append(" err=");
    message.append(error.message().as_str());
    log_error_text(kind, scope, message.as_str())
}

/// Records a document that was written out, or the error where it could not be.
pub fn log_written(level: LogLevel, kind: &str, scope: &str, written: Result<String, String>) -> (r: LogRecord)
    ensures
        match written {
            Ok(text) => r.tells(level, kind@, scope@, text@),
            Err(message) => r.tells(LogLevel::Error, "日志错误"@, scope@, "日志序列化失败: "@ + message@),
        },
{
    match written {
        Ok(text) => record(level, kind, scope, text.as_str()),
        Err(message) => {
            let detail = "日志序列化失败: ".to_owned().concat(message.as_str());
            log_error_text("日志错误", scope, detail.as_str())
        },
    }
}

fn log_document(level: LogLevel, kind: &str, scope: &str, value: &serde_json::Value) -> (r: LogRecord)
    ensures
        r.tells(level, kind@, scope@, json::json_text(json::document(*value))),
{
    let written = match json::to_text(value) {
        Ok(text) => Ok(text),
        Err(error) => Err(json::error_message(&error)),
    };
    log_written(level, kind, scope, written)
}

/// Records a document.
pub fn log_json(kind: &str, scope: &str, value: &serde_json::Value) -> (r: LogRecord)
    ensures
        r.tells(LogLevel::Info, kind@, scope@, json::json_text(json::document(*value))),
{
    log_document(LogLevel::Info, kind, scope, value)
}

/// Records a document for debugging.
pub fn log_debug_json(kind: &str, scope: &str, value: &serde_json::Value) -> (r: LogRecord)
    ensures
        r.tells(LogLevel::Debug, kind@, scope@, json::json_text(json::document(*value))),
{
    log_document(LogLevel::Debug, kind, scope, value)
}

/// A record holds its level, kind and scope, and of its text all, or the first four thousand
/// characters and a mark.
pub proof fn records_hold_what_they_tell(
    record: LogRecord,
    level: LogLevel,
    kind: Seq<char>,
    scope: Seq<char>,
    text: Seq<char>,
)
    requires
        record.tells(level, kind, scope, text),
    ensures
        record.level == level,
        record.kind@ == kind,
        record.scope@ == scope,
        text.len() <= 4000 ==> record.message@ == text,
        text.len() > 4000 ==> record.message@ == text.take(4000) + "...(truncated)"@,
{
}

/// What is logged of a failure is the time that it took and all that is told of the error.
pub proof fn failures_are_logged_whole(duration_ms: nat, error: ErrorView)
    ensures
        failure_text(duration_ms, error) == "duration_ms="@ + (text::decimal(duration_ms) + (" err="@
            + error.message())),
{
    assert(failure_text(duration_ms, error) =~= "duration_ms="@ + (text::decimal(duration_ms) + (" err="@
        + error.message())));
}

} // verus!
