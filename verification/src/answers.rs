//! The answers to HTTP requests.

use crate::config;
use crate::error::{ErrorView, FrameworkError};
use crate::json;
use crate::json::JsonView;
use crate::loader;
use crate::loader::LoadView;
use crate::logs;
use crate::logs::{LogLevel, LogRecord};
use crate::registry::{AppState, StateView};
use crate::session;
use crate::table;
use crate::text;
use crate::tools;
use crate::tools::ToolDefinition;
use vstd::prelude::*;
use vstd::string::*;

verus! {

/// What a request that was met is answered.
pub struct ApiResponse<T> {
    pub ok: bool,
    pub data: T,
}

/// What a request is answered.
pub enum HttpAnswer {
    /// The request was met.
    Met(ApiResponse<serde_json::Value>),
    /// The request was refused, or failed.
    Refused { status: u16, body: serde_json::Value },
}

/// What an answer is: its status, and the document in its body.
pub struct AnswerView {
    pub status: u16,
    pub body: JsonView,
}

impl View for HttpAnswer {
    type V = AnswerView;

    open spec fn view(&self) -> AnswerView {
        match *self {
            HttpAnswer::Met(response) => AnswerView {
                status: 200,
                body: JsonView::Object(
                    map![
                        "ok"@ => JsonView::Bool(response.ok),
                        "data"@ => json::document(response.data),
                    ],
                ),
            },
            HttpAnswer::Refused { status, body } => AnswerView { status, body: json::document(body) },
        }
    }
}

/// The answer to a request that was met.
pub open spec fn success(data: JsonView) -> AnswerView {
    AnswerView {
        status: 200,
        body: JsonView::Object(map!["ok"@ => JsonView::Bool(true), "data"@ => data]),
    }
}

/// The answer to a request, by what came of it.
pub open spec fn answer(outcome: Result<JsonView, ErrorView>) -> AnswerView {
    match outcome {
        Ok(data) => success(data),
        Err(error) => AnswerView { status: error.status(), body: error.body() },
    }
}

/// The answer to the question whether the service runs.
pub open spec fn health_body(version: Seq<char>) -> JsonView {
    JsonView::Object(
        map![
            "ok"@ => JsonView::Bool(true),
            "service"@ => JsonView::Text(session::CLIENT_NAME@),
            "version"@ => JsonView::Text(version),
        ],
    )
}

/// Answers a request by what came of it.
pub fn respond(result: Result<serde_json::Value, FrameworkError>) -> (r: HttpAnswer)
    ensures
        r@ == answer(session::outcome(result)),
        result matches Ok(data) ==> r == HttpAnswer::Met(ApiResponse { ok: true, data }),
        result is Err ==> r is Refused,
{
    match result {
        Ok(data) => HttpAnswer::Met(ApiResponse { ok: true, data }),
        Err(error) => error.into_response(),
    }
}

/// What is logged of the time that a request took, and of the tools in its answer where they are
/// counted.
pub open spec fn completion_text(duration_ms: nat, tool_count: Option<usize>) -> Seq<char> {
    "duration_ms="@ + text::decimal(duration_ms) + (match tool_count {
        Some(count) => " tool_count="@ + text::decimal(count as nat),
        None => Seq::empty(),
    })
}

/// Records that a request is met: the data, written out, and the time that it took.
pub fn met_records(
    scope: &str,
    duration_ms: u128,
    written: Result<String, String>,
    tool_count: Option<usize>,
) -> (r: Vec<LogRecord>)
    ensures
        r@.len() == 2,
        match written {
            Ok(data) => r@[0].tells(LogLevel::Info, "HTTP响应"@, scope@, data@),
            Err(message) => r@[0].tells(
                LogLevel::Error,
                "日志错误"@,
                scope@,
                "日志序列化失败: "@ + message@,
            ),
        },
        r@[1].tells(
            LogLevel::Info,
            "HTTP完成"@,
            scope@,
            completion_text(duration_ms as nat, tool_count),
        ),
{
    let mut message = "duration_ms=".to_owned();
    message.append(text::decimal_text(duration_ms).as_str());
    if let Some(count) = tool_count {
        let ghost before = message@;
        message.append(" tool_count=");
        message.append(text::decimal_text(count as u128).as_str());
        assert(message@ =~= before + (" tool_count="@ + text::decimal(count as nat)));
    }
    assert(message@ =~= completion_text(duration_ms as nat, tool_count));
    let mut r: Vec<LogRecord> = Vec::new();
    r.push(logs::log_written(LogLevel::Info, "HTTP响应", scope, written));
    r.push(logs::log_text("HTTP完成", scope, message.as_str()));
    r
}

/// Records what a request is answered: the data and the time that it took, or the error.
pub fn answer_records(
    scope: &str,
    duration_ms: u128,
    result: &Result<serde_json::Value, FrameworkError>,
) -> (r: Vec<LogRecord>)
    ensures
        match *result {
            Ok(data) => {
                &&& r@.len() == 2
                &&& r@[0].tells(
                    LogLevel::Info,
                    "HTTP响应"@,
                    scope@,
                    json::json_text(json::document(data)),
                )
                &&& r@[1].tells(
                    LogLevel::Info,
                    "HTTP完成"@,
                    scope@,
                    completion_text(duration_ms as nat, None),
                )
            },
            Err(error) => {
                &&& r@.len() == 1
                &&& r@[0].tells(
                    LogLevel::Error,
                    "HTTP失败"@,
                    scope@,
                    logs::failure_text(duration_ms as nat, error@),
                )
            },
        },
{
    match result {
        Ok(data) => {
            let written = match json::to_text(data) {
                Ok(text) => Ok(text),
                Err(error) => Err(json::error_message(&error)),
            };
            met_records(scope, duration_ms, written, None)
        },
        Err(error) => {
            let mut r: Vec<LogRecord> = Vec::new();
            r.push(logs::log_failure("HTTP失败", scope, duration_ms, error));
            r
        },
    }
}

/// Answers that the service runs.
pub fn health(version: &str) -> (r: serde_json::Value)
    ensures
        json::document(r) == health_body(version@),
{
    let mut fields = json::new_map();
    json::put(&mut fields, "ok", json::bool_value(true));
    json::put(&mut fields, "service", json::text_value(session::CLIENT_NAME));
    json::put(&mut fields, "version", json::text_value(version));
    json::object_value(fields)
}

/// Answers with this service's own tools.
pub fn framework_tools_handler() -> (r: ApiResponse<Vec<ToolDefinition>>)
    ensures
        r.ok,
        tools::tool_views(r.data@) == seq![
            tools::load_config_tool(),
            tools::list_tools_tool(),
            tools::call_tool_tool(),
        ],
{
    ApiResponse { ok: true, data: tools::framework_tools() }
}

/// Answers with the tools of all loaded servers.
pub fn list_tools_handler<S>(state: &AppState<S>) -> (r: ApiResponse<serde_json::Value>)
    ensures
        r.ok,
        json::document(r.data) == state@.listing(),
{
    ApiResponse { ok: true, data: state.list_loaded_tools() }
}

/// The status of an answer is that of success exactly where the body says that the request was
/// met.
pub proof fn status_agrees_with_the_body(outcome: Result<JsonView, ErrorView>)
    ensures
        answer(outcome).status == 200 <==> outcome is Ok,
        json::member(answer(outcome).body, "ok"@) == Some(JsonView::Bool(outcome is Ok)),
{
    reveal_strlit("ok");
    reveal_strlit("data");
    reveal_strlit("error");
    assert("ok"@.len() != "data"@.len());
    assert("ok"@.len() != "error"@.len());
}

/// The body of an answer that tells of an error.
pub open spec fn refusal(message: Seq<char>) -> JsonView {
    JsonView::Object(map!["ok"@ => JsonView::Bool(false), "error"@ => JsonView::Text(message)])
}

/// A call of a name that nothing is loaded under is answered that the tool is not there.
pub proof fn unknown_tools_are_refused<S>(state: StateView<S>, name: Seq<char>)
    requires
        table::lookup(state.routes, name) is None,
    ensures
        state.resolve(name) matches Err(error) && answer(Err(error)) == (AnswerView {
            status: 404,
            body: refusal("tool not found: "@ + name),
        }),
{
}

/// A load request with neither a configuration nor a path is answered that it is wrong.
pub proof fn loads_of_nothing_are_refused()
    ensures
        answer(Err(config::nothing_to_load())) == (AnswerView {
            status: 400,
            body: refusal("invalid request: "@ + "config or configPath is required"@),
        }),
{
}

/// A load in which servers were asked for and none came up is answered with a failure that tells of
/// each of them.
pub proof fn loads_without_success_are_refused<S>(load: LoadView<S>)
    requires
        load.all_failed(),
    ensures
        answer(Err(load.error())) == (AnswerView {
            status: 500,
            body: refusal(
                "mcp error: "@ + ("all MCP servers failed to load, keeping previous state: "@
                    + loader::failure_summary(load.failed())),
            ),
        }),
{
}

/// A request that was met is answered with its data as they are, that it was met, and nothing else.
pub proof fn data_are_passed_on(data: JsonView)
    ensures
        answer(Ok(data)).status == 200,
        json::member(answer(Ok(data)).body, "ok"@) == Some(JsonView::Bool(true)),
        json::member(answer(Ok(data)).body, "data"@) == Some(data),
        forall|key: Seq<char>| #[trigger]
            json::member(answer(Ok(data)).body, key) is Some ==> key == "ok"@ || key == "data"@,
{
    reveal_strlit("ok");
    reveal_strlit("data");
    assert("ok"@.len() != "data"@.len());
}

/// A request that failed is answered with the status of its error, and the body tells of that error
/// and nothing else.
pub proof fn errors_are_passed_on(error: FrameworkError)
    ensures
        answer(Err(error@)).status == (match error {
            FrameworkError::InvalidRequest(_) => 400u16,
            FrameworkError::ServerNotFound(_) | FrameworkError::ToolNotFound(_) => 404u16,
            FrameworkError::Io(_) | FrameworkError::Json(_) | FrameworkError::Mcp(_) => 500u16,
        }),
        json::member(answer(Err(error@)).body, "error"@) == Some(JsonView::Text(error@.message())),
        json::member(answer(Err(error@)).body, "data"@) is None,
{
    reveal_strlit("ok");
    reveal_strlit("data");
    reveal_strlit("error");
    assert("ok"@.len() != "data"@.len());
    assert("data"@.len() != "error"@.len());
    assert("ok"@.len() != "error"@.len());
}

/// An answer is what it is made of: what a request that was met gave, or the status and the body of
/// a refusal.
pub proof fn answers_are_what_they_hold(response: ApiResponse<serde_json::Value>, status: u16, body: serde_json::Value)
    ensures
        HttpAnswer::Met(response)@.status == 200,
        json::member(HttpAnswer::Met(response)@.body, "ok"@) == Some(JsonView::Bool(response.ok)),
        json::member(HttpAnswer::Met(response)@.body, "data"@) == Some(json::document(response.data)),
        (HttpAnswer::Refused { status, body })@ == (AnswerView { status, body: json::document(body) }),
{
    reveal_strlit("ok");
    reveal_strlit("data");
    assert("ok"@.len() != "data"@.len());
}

/// The service says that it runs, what it is called and the version that it is told, and nothing
/// else.
pub proof fn health_tells_the_version(version: Seq<char>)
    ensures
        json::member(health_body(version), "ok"@) == Some(JsonView::Bool(true)),
        json::member(health_body(version), "service"@) == Some(JsonView::Text("agentkernel-mcp-framework"@)),
        json::member(health_body(version), "version"@) == Some(JsonView::Text(version)),
        forall|key: Seq<char>| #[trigger]
            json::member(health_body(version), key) is Some ==> key == "ok"@ || key == "service"@ || key
                == "version"@,
{
    reveal_strlit("ok");
    reveal_strlit("service");
    reveal_strlit("version");
    assert("service"@[0] != "version"@[0]);
}

/// What is logged of a request that is met is the time that it took, and behind that the number of
/// tools where it is given.
pub proof fn counts_are_logged_behind_the_time(duration_ms: nat, count: usize)
    ensures
        completion_text(duration_ms, None) == "duration_ms="@ + text::decimal(duration_ms),
        completion_text(duration_ms, Some(count)) == completion_text(duration_ms, None) + " tool_count="@
            + text::decimal(count as nat),
{
    assert(completion_text(duration_ms, None) =~= "duration_ms="@ + text::decimal(duration_ms));
    assert(completion_text(duration_ms, Some(count)) =~= completion_text(duration_ms, None) + " tool_count="@
        + text::decimal(count as nat));
}

} // verus!
