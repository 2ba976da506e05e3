//! The conversation with one server: the messages that go out, and what is made of the replies.

use crate::args::{TimeoutConfig, Wait};
use crate::error::{ErrorView, FrameworkError};
use crate::json;
use crate::json::JsonView;
use crate::text;
use vstd::prelude::*;
use vstd::string::*;

verus! {

pub const PROTOCOL_VERSION: &'static str = "2025-03-26";

pub const CLIENT_NAME: &'static str = "agentkernel-mcp-framework";

/// The message that asks a server something.
pub open spec fn request_message(id: nat, method: Seq<char>, params: JsonView) -> JsonView {
    JsonView::Object(
        map![
            "jsonrpc"@ => JsonView::Text("2.0"@),
            "id"@ => JsonView::Integer(id as int),
            "method"@ => JsonView::Text(method),
            "params"@ => params,
        ],
    )
}

/// The message that tells a server something.
pub open spec fn notification_message(method: Seq<char>, params: JsonView) -> JsonView {
    JsonView::Object(
        map![
            "jsonrpc"@ => JsonView::Text("2.0"@),
            "method"@ => JsonView::Text(method),
            "params"@ => params,
        ],
    )
}

/// A message as it is written to a server: on one line.
pub open spec fn framed(message: JsonView) -> Seq<char> {
    json::json_text(message) + "\n"@
}

/// A text is one line: it ends with a line feed and holds no other.
pub open spec fn is_line(text: Seq<char>) -> bool {
    &&& text.len() > 0
    &&& forall|i: int| 0 <= i < text.len() ==> (#[trigger] text[i] == '\n' <==> i == text.len() - 1)
}

/// A line from which `read_message` reads the document.
pub open spec fn carries(line: Seq<char>, doc: JsonView) -> bool {
    forall|bytes: usize| bytes > 0 ==> #[trigger] line_outcome(bytes, line) == Ok::<JsonView, ErrorView>(doc)
}

/// A line that holds a message: the message written out, which is read back from it unless it holds
/// what does not survive that.
pub open spec fn is_message(line: Seq<char>, message: JsonView) -> bool {
    &&& is_line(line)
    &&& line == framed(message)
    &&& json::reads_back(message, json::depth_limit()) ==> carries(line, message)
}

/// What this service says of itself in its first message.
pub open spec fn initialize_params(version: Seq<char>) -> JsonView {
    JsonView::Object(
        map![
            "protocolVersion"@ => JsonView::Text(PROTOCOL_VERSION@),
            "capabilities"@ => json::empty_object(),
            "clientInfo"@ => JsonView::Object(
                map![
                    "name"@ => JsonView::Text(CLIENT_NAME@),
                    "version"@ => JsonView::Text(version),
                ],
            ),
        ],
    )
}

/// What a tool call hands to the server.
pub open spec fn call_params(tool: Seq<char>, arguments: JsonView) -> JsonView {
    JsonView::Object(map!["name"@ => JsonView::Text(tool), "arguments"@ => arguments])
}

/// What came of writing a request and waiting for the reply.
pub enum Reply {
    /// Writing or reading failed.
    IoFailed(String),
    /// No line came in time.
    TimedOut,
    /// A line came, with its length in bytes; at the end of the stream the length is zero.
    Line { bytes: usize, text: String },
}

/// The result of a request, by what it holds.
pub open spec fn outcome(result: Result<serde_json::Value, FrameworkError>) -> Result<JsonView, ErrorView> {
    match result {
        Ok(value) => Ok(json::document(value)),
        Err(error) => Err(error@),
    }
}

/// The document on a line from a server.
pub open spec fn line_outcome(bytes: usize, line: Seq<char>) -> Result<JsonView, ErrorView> {
    if bytes == 0 {
        Err(ErrorView::Mcp("mcp server closed stdout"@))
    } else {
        match json::json_parsed(text::trimmed(line)) {
            Ok(doc) => Ok(doc),
            Err(message) => Err(ErrorView::Json(message)),
        }
    }
}

/// The result that a response carries: its error, or else what it calls its result, or else an
/// empty object.
pub open spec fn response_outcome(response: JsonView) -> Result<JsonView, ErrorView> {
    match json::member(response, "error"@) {
        Some(error) => Err(ErrorView::Mcp(json::json_text(error))),
        None => match json::member(response, "result"@) {
            Some(result) => Ok(result),
            None => Ok(json::empty_object()),
        },
    }
}

/// The text of the error for a server that does not answer in time.
pub open spec fn timeout_text(method: Seq<char>, timeout_ms: nat) -> Seq<char> {
    "timeout waiting for MCP response: method="@ + method + " timeout_ms="@ + text::decimal(timeout_ms)
}

/// The result of a request, from what came of waiting for the reply.
pub open spec fn reply_outcome(reply: Reply, method: Seq<char>, timeout_ms: nat) -> Result<JsonView, ErrorView> {
    match reply {
        Reply::IoFailed(message) => Err(ErrorView::Io(message@)),
        Reply::TimedOut => Err(ErrorView::Mcp(timeout_text(method, timeout_ms))),
        Reply::Line { bytes, text } => match line_outcome(bytes, text@) {
            Ok(response) => response_outcome(response),
            Err(error) => Err(error),
        },
    }
}

/// The list of tools in the result of asking for it.
pub open spec fn listed_tools(result: JsonView) -> JsonView {
    match json::member(result, "tools"@) {
        Some(tools) => tools,
        None => JsonView::Array(Seq::empty()),
    }
}

/// Writes a message on one line.
pub fn write_message(message: &serde_json::Value) -> (r: Result<String, FrameworkError>)
    ensures
        r matches Ok(line) && is_message(line@, json::document(*message)),
{
    match json::to_text(message) {
        Ok(text) => {
            let ghost body = text@;
            let line = text.concat("\n");
            proof {
                reveal_strlit("\n");
                assert forall|i: int| 0 <= i < line@.len() implies (#[trigger] line@[i] == '\n' <==> i
                    == line@.len() - 1) by {
                    if i < body.len() {
                        assert(body[i] == line@[i]);
                        assert(body.contains(body[i]));
                    }
                }
                assert(line@.drop_last() =~= body);
                assert(text::trimmed(line@) == body) by {
                    reveal_with_fuel(text::trimmed_end, 2);
                }
            }
            Ok(line)
        },
        Err(error) => Err(FrameworkError::from(error)),
    }
}

/// Reads the document on a line from a server.
pub fn read_message(bytes: usize, line: &str) -> (r: Result<serde_json::Value, FrameworkError>)
    ensures
        outcome(r) == line_outcome(bytes, line@),
{
    if bytes == 0 {
        return Err(FrameworkError::Mcp("mcp server closed stdout".to_owned()));
    }
    match json::parse_text(text::trim(line)) {
        Ok(value) => Ok(value),
        Err(error) => Err(FrameworkError::from(error)),
    }
}

/// Takes the result out of a response.
pub fn response_result(response: &serde_json::Value) -> (r: Result<serde_json::Value, FrameworkError>)
    ensures
        outcome(r) == response_outcome(json::document(*response)),
{
    if let Some(error) = json::get_member(response, "error") {
        return Err(FrameworkError::Mcp(json::written(error)));
    }
    match json::get_member(response, "result") {
        Some(result) => Ok(result.clone()),
        None => Ok(json::empty_object_value()),
    }
}

/// Tells the result of a request, from what came of waiting for the reply.
pub fn finish_request(reply: Reply, method: &str, timeout_ms: u64) -> (r: Result<serde_json::Value, FrameworkError>)
    ensures
        outcome(r) == reply_outcome(reply, method@, timeout_ms as nat),
        reply is IoFailed || reply is TimedOut ==> r is Err,
        reply matches Reply::Line { bytes, text } && bytes == 0 ==> r is Err,
{
    match reply {
        Reply::IoFailed(message) => Err(FrameworkError::Io(message)),
        Reply::TimedOut => {
            let mut message = "timeout waiting for MCP response: method=".to_owned();
            message.append(method);
            message.append(" timeout_ms=");
            message.append(text::decimal_text(timeout_ms as u128).as_str());
            Err(FrameworkError::Mcp(message))
        },
        Reply::Line { bytes, text } => match read_message(bytes, text.as_str()) {
            Ok(response) => response_result(&response),
            Err(error) => Err(error),
        },
    }
}

/// Takes the list of tools out of the result of asking for it.
pub fn tools_of_result(result: &serde_json::Value) -> (r: serde_json::Value)
    ensures
        json::document(r) == listed_tools(json::document(*result)),
{
    match json::get_member(result, "tools") {
        Some(tools) => tools.clone(),
        None => {
            let none: Vec<serde_json::Value> = Vec::new();
            assert(json::documents(none@) =~= Seq::<JsonView>::empty());
            json::array_value(none)
        },
    }
}

/// A request that is to be written, and how long its reply is waited for.
pub struct Exchange {
    pub request_id: u64,
    pub method: String,
    pub line: String,
    pub timeout_ms: u64,
}

impl Exchange {
    /// The exchange puts a request to a server and waits so many milliseconds for the reply.
    pub open spec fn asks(&self, id: nat, method: Seq<char>, params: JsonView, timeout_ms: u64) -> bool {
        &&& self.request_id == id
        &&& self.method@ == method
        &&& is_message(self.line@, request_message(id, method, params))
        &&& self.timeout_ms == timeout_ms
    }

    /// The result of the request, from what came of waiting for the reply.
    pub open spec fn result(&self, reply: Reply) -> Result<JsonView, ErrorView> {
        reply_outcome(reply, self.method@, self.timeout_ms as nat)
    }

    /// Tells the result of the request, from what came of waiting for the reply.
    pub fn finish(&self, reply: Reply) -> (r: Result<serde_json::Value, FrameworkError>)
        ensures
            outcome(r) == self.result(reply),
    {
        finish_request(reply, self.method.as_str(), self.timeout_ms)
    }
}

/// A server that is running: its name, and the number of its last request.
pub struct ManagedServer {
    name: String,
    request_id: u64,
}

/// What is known of a running server.
pub struct SessionView {
    pub name: Seq<char>,
    pub request_id: nat,
}

impl View for ManagedServer {
    type V = SessionView;

    closed spec fn view(&self) -> SessionView {
        SessionView { name: self.name@, request_id: self.request_id as nat }
    }
}

impl SessionView {
    /// The session after a number of requests.
    pub open spec fn after(self, requests: nat) -> SessionView
        decreases requests,
    {
        if requests == 0 {
            self
        } else {
            self.after((requests - 1) as nat).advanced()
        }
    }

    /// The session after one more request.
    pub open spec fn advanced(self) -> SessionView {
        SessionView { request_id: self.request_id + 1, ..self }
    }
}

impl ManagedServer {
    /// Takes up the conversation with a process that was started, once its standard streams are
    /// open.
    pub fn start(name: String, stdin_open: bool, stdout_open: bool) -> (r: Result<ManagedServer, FrameworkError>)
        ensures
            match r {
                Ok(server) => stdin_open && stdout_open && server@ == (SessionView {
                    name: name@,
                    request_id: 0,
                }),
                Err(error) => if !stdin_open {
                    error@ == ErrorView::Mcp("failed to open child stdin"@)
                } else {
                    !stdout_open && error@ == ErrorView::Mcp("failed to open child stdout"@)
                },
            },
    {
        if !stdin_open {
            return Err(FrameworkError::Mcp("failed to open child stdin".to_owned()));
        }
        if !stdout_open {
            return Err(FrameworkError::Mcp("failed to open child stdout".to_owned()));
        }
        Ok(ManagedServer { name, request_id: 0 })
    }

    /// The server's name.
    pub fn name(&self) -> (r: &str)
        ensures
            r@ == self@.name,
    {
        self.name.as_str()
    }

    /// The number of the last request.
    pub fn request_id(&self) -> (r: u64)
        ensures
            r == self@.request_id,
    {
        self.request_id
    }

    /// Numbers a request and writes it on one line.
    pub fn request(&mut self, method: &str, params: serde_json::Value, timeout_ms: u64) -> (r: Result<
        Exchange,
        FrameworkError,
    >)
        requires
            old(self)@.request_id < u64::MAX,
        ensures
            final(self)@ == old(self)@.advanced(),
            r matches Ok(exchange) && exchange.asks(
                old(self)@.request_id + 1,
                method@,
                json::document(params),
                timeout_ms,
            ),
    {
        self.request_id = self.request_id + 1;
        let mut fields = json::new_map();
        json::put(&mut fields, "jsonrpc", json::text_value("2.0"));
        json::put(&mut fields, "id", json::number_value(self.request_id));
        json::put(&mut fields, "method", json::text_value(method));
        json::put(&mut fields, "params", params);
        match write_message(&json::object_value(fields)) {
            Ok(line) => Ok(
                Exchange { request_id: self.request_id, method: method.to_owned(), line, timeout_ms },
            ),
            Err(error) => Err(error),
        }
    }

    /// Writes a notification on one line.
    pub fn notify(&self, method: &str, params: serde_json::Value) -> (r: Result<String, FrameworkError>)
        ensures
            r matches Ok(line) && is_message(
                line@,
                notification_message(method@, json::document(params)),
            ),
    {
        let mut fields = json::new_map();
        json::put(&mut fields, "jsonrpc", json::text_value("2.0"));
        json::put(&mut fields, "method", json::text_value(method));
        json::put(&mut fields, "params", params);
        write_message(&json::object_value(fields))
    }

    /// Writes the request that opens the conversation.
    pub fn initialize(&mut self, version: &str, timeouts: &TimeoutConfig) -> (r: Result<Exchange, FrameworkError>)
        requires
            old(self)@.request_id < u64::MAX,
        ensures
            final(self)@ == old(self)@.advanced(),
            r matches Ok(exchange) && exchange.asks(
                old(self)@.request_id + 1,
                "initialize"@,
                initialize_params(version@),
                timeouts.initialize,
            ),
    {
        let mut client = json::new_map();
        json::put(&mut client, "name", json::text_value(CLIENT_NAME));
        json::put(&mut client, "version", json::text_value(version));
        let mut params = json::new_map();
        json::put(&mut params, "protocolVersion", json::text_value(PROTOCOL_VERSION));
        json::put(&mut params, "capabilities", json::empty_object_value());
        json::put(&mut params, "clientInfo", json::object_value(client));
        self.request("initialize", json::object_value(params), timeouts.limit(Wait::Initialize))
    }

    /// Writes the notification that the conversation is open.
    pub fn initialized(&self) -> (r: Result<String, FrameworkError>)
        ensures
            r matches Ok(line) && is_message(
                line@,
                notification_message("notifications/initialized"@, json::empty_object()),
            ),
    {
        self.notify("notifications/initialized", json::empty_object_value())
    }

    /// Writes the request for the server's tools.
    pub fn list_tools(&mut self, timeouts: &TimeoutConfig) -> (r: Result<Exchange, FrameworkError>)
        requires
            old(self)@.request_id < u64::MAX,
        ensures
            final(self)@ == old(self)@.advanced(),
            r matches Ok(exchange) && exchange.asks(
                old(self)@.request_id + 1,
                "tools/list"@,
                json::empty_object(),
                timeouts.list_tools,
            ),
    {
        self.request("tools/list", json::empty_object_value(), timeouts.limit(Wait::ListTools))
    }

    /// Writes the request to run a tool.
    pub fn call_tool(&mut self, name: &str, arguments: serde_json::Value, timeouts: &TimeoutConfig) -> (r: Result<
        Exchange,
        FrameworkError,
    >)
        requires
            old(self)@.request_id < u64::MAX,
        ensures
            final(self)@ == old(self)@.advanced(),
            r matches Ok(exchange) && exchange.asks(
                old(self)@.request_id + 1,
                "tools/call"@,
                call_params(name@, json::document(arguments)),
                timeouts.tool_call,
            ),
    {
        let mut params = json::new_map();
        json::put(&mut params, "name", json::text_value(name));
        json::put(&mut params, "arguments", arguments);
        self.request("tools/call", json::object_value(params), timeouts.limit(Wait::ToolCall))
    }
}

proof fn lemma_after(session: SessionView, requests: nat)
    ensures
        session.after(requests) == (SessionView {
            request_id: session.request_id + requests,
            ..session
        }),
    decreases requests,
{
    if requests > 0 {
        lemma_after(session, (requests - 1) as nat);
    }
}

/// The requests to a server count from one, and no number comes twice: the request after `i` others
/// has the number `i + 1`.
pub proof fn requests_count_from_one(session: SessionView, i: nat, j: nat)
    requires
        session.request_id == 0,
        i < j,
    ensures
        session.after(i).advanced().request_id == i + 1,
        session.after(i).advanced().request_id < session.after(j).advanced().request_id,
{
    lemma_after(session, i);
    lemma_after(session, j);
}

/// The part of a stream that is read as its first line: up to and with the first line feed.
pub open spec fn first_line(stream: Seq<char>) -> Seq<char>
    decreases stream.len(),
{
    if stream.len() == 0 || stream[0] == '\n' {
        stream.take(if stream.len() == 0 { 0 } else { 1 })
    } else {
        seq![stream[0]] + first_line(stream.drop_first())
    }
}

/// What is left of a stream when its first line was read.
pub open spec fn after_first_line(stream: Seq<char>) -> Seq<char> {
    stream.skip(first_line(stream).len() as int)
}

/// A line is read off a stream as it was written to it, whatever follows.
pub proof fn lines_are_read_one_by_one(line: Seq<char>, rest: Seq<char>)
    requires
        is_line(line),
    ensures
        first_line(line + rest) == line,
        after_first_line(line + rest) == rest,
    decreases line.len(),
{
    let stream = line + rest;
    if line.len() == 1 {
        assert(line[0] == '\n');
        assert(first_line(stream) =~= line);
    } else {
        let tail = line.drop_first();
        assert(line[0] != '\n');
        assert forall|i: int| 0 <= i < tail.len() implies (#[trigger] tail[i] == '\n' <==> i == tail.len() - 1) by {
            assert(tail[i] == line[i + 1]);
        }
        lines_are_read_one_by_one(tail, rest);
        assert(stream.drop_first() =~= tail + rest);
        assert(first_line(stream) =~= line);
    }
    assert(after_first_line(stream) =~= rest);
}

/// Reading undoes writing: off a stream that two messages were written to, one line each, the two
/// are read in their order, also where texts in them hold line feeds. Left out are messages that
/// `reads_back` leaves out.
pub proof fn reading_undoes_writing(
    first: Seq<char>,
    first_message: JsonView,
    second: Seq<char>,
    second_message: JsonView,
)
    requires
        is_message(first, first_message),
        is_message(second, second_message),
        json::reads_back(first_message, json::depth_limit()),
        json::reads_back(second_message, json::depth_limit()),
    ensures
        ({
            let stream = first + second;
            let left = after_first_line(stream);
            &&& carries(first_line(stream), first_message)
            &&& carries(first_line(left), second_message)
            &&& after_first_line(left).len() == 0
        }),
{
    lines_are_read_one_by_one(first, second);
    lines_are_read_one_by_one(second, Seq::empty());
    assert(second + Seq::<char>::empty() =~= second);
}

/// What a server calls its result is passed on as it is, where the response carries no error.
pub proof fn results_are_passed_on(
    bytes: usize,
    line: String,
    response: JsonView,
    method: Seq<char>,
    timeout_ms: nat,
)
    requires
        bytes > 0,
        json::json_parsed(text::trimmed(line@)) == Ok::<JsonView, Seq<char>>(response),
        json::member(response, "error"@) is None,
        json::member(response, "result"@) is Some,
    ensures
        reply_outcome(Reply::Line { bytes, text: line }, method, timeout_ms) == Ok::<JsonView, ErrorView>(
            json::member(response, "result"@)->0,
        ),
{
}

/// A response that carries an error fails the request, whatever else it carries.
pub proof fn errors_come_first(
    bytes: usize,
    line: String,
    response: JsonView,
    method: Seq<char>,
    timeout_ms: nat,
)
    requires
        bytes > 0,
        json::json_parsed(text::trimmed(line@)) == Ok::<JsonView, Seq<char>>(response),
        json::member(response, "error"@) is Some,
    ensures
        reply_outcome(Reply::Line { bytes, text: line }, method, timeout_ms) == Err::<JsonView, ErrorView>(
            ErrorView::Mcp(json::json_text(json::member(response, "error"@)->0)),
        ),
{
}

/// A request to a server holds its number, the method and the parameters that it is asked with, and
/// nothing else but the version of the protocol.
pub proof fn requests_hold_what_is_asked(id: nat, method: Seq<char>, params: JsonView)
    ensures
        json::member(request_message(id, method, params), "jsonrpc"@) == Some(JsonView::Text("2.0"@)),
        json::member(request_message(id, method, params), "id"@) == Some(JsonView::Integer(id as int)),
        json::member(request_message(id, method, params), "method"@) == Some(JsonView::Text(method)),
        json::member(request_message(id, method, params), "params"@) == Some(params),
        forall|key: Seq<char>| #[trigger]
            json::member(request_message(id, method, params), key) is Some ==> key == "jsonrpc"@ || key
                == "id"@ || key == "method"@ || key == "params"@,
{
    reveal_strlit("jsonrpc");
    reveal_strlit("id");
    reveal_strlit("method");
    reveal_strlit("params");
    assert("jsonrpc"@.len() == 7 && "id"@.len() == 2 && "method"@.len() == 6 && "params"@.len() == 6);
    assert("method"@[0] != "params"@[0]);
}

/// A notification holds the method and the parameters that it is given, and nothing else but the
/// version of the protocol: it has no number, so no reply is due.
pub proof fn notifications_hold_what_is_told(method: Seq<char>, params: JsonView)
    ensures
        json::member(notification_message(method, params), "jsonrpc"@) == Some(JsonView::Text("2.0"@)),
        json::member(notification_message(method, params), "method"@) == Some(JsonView::Text(method)),
        json::member(notification_message(method, params), "params"@) == Some(params),
        forall|key: Seq<char>| #[trigger]
            json::member(notification_message(method, params), key) is Some ==> key == "jsonrpc"@ || key
                == "method"@ || key == "params"@,
        json::member(notification_message(method, params), "id"@) is None,
{
    reveal_strlit("jsonrpc");
    reveal_strlit("id");
    reveal_strlit("method");
    reveal_strlit("params");
    assert("jsonrpc"@.len() == 7 && "id"@.len() == 2 && "method"@.len() == 6 && "params"@.len() == 6);
    assert("method"@[0] != "params"@[0]);
}

/// The first request says which protocol is spoken and who speaks, in the version given, and asks
/// for nothing.
pub proof fn initializing_tells_the_version(version: Seq<char>)
    ensures
        json::member(initialize_params(version), "protocolVersion"@) == Some(JsonView::Text("2025-03-26"@)),
        json::member(initialize_params(version), "capabilities"@) matches Some(JsonView::Object(asked))
            && asked.dom() == Set::<Seq<char>>::empty(),
        json::member(initialize_params(version), "clientInfo"@) matches Some(client) && json::member(
            client,
            "name"@,
        ) == Some(JsonView::Text("agentkernel-mcp-framework"@)) && json::member(client, "version"@) == Some(
            JsonView::Text(version),
        ),
        forall|key: Seq<char>| #[trigger]
            json::member(initialize_params(version), key) is Some ==> key == "protocolVersion"@ || key
                == "capabilities"@ || key == "clientInfo"@,
{
    reveal_strlit("protocolVersion");
    reveal_strlit("capabilities");
    reveal_strlit("clientInfo");
    reveal_strlit("name");
    reveal_strlit("version");
    assert("protocolVersion"@.len() == 15 && "capabilities"@.len() == 12 && "clientInfo"@.len() == 10);
    assert("name"@.len() == 4 && "version"@.len() == 7);
    assert(json::no_members().dom() =~= Set::<Seq<char>>::empty());
}

/// A tool call names the tool, whatever its arguments hold, and hands them over as they are.
pub proof fn calls_name_the_tool(tool: Seq<char>, arguments: JsonView)
    ensures
        json::member(call_params(tool, arguments), "name"@) == Some(JsonView::Text(tool)),
        json::member(call_params(tool, arguments), "arguments"@) == Some(arguments),
        forall|key: Seq<char>| #[trigger]
            json::member(call_params(tool, arguments), key) is Some ==> key == "name"@ || key == "arguments"@,
{
    reveal_strlit("name");
    reveal_strlit("arguments");
    assert("name"@.len() != "arguments"@.len());
}

/// What is written to run a tool is the text of a message with the method `tools/call`, the number
/// of the request, the tool's name and the caller's arguments as they are.
pub proof fn calls_are_written_with_tool_and_arguments(
    exchange: Exchange,
    id: nat,
    tool: Seq<char>,
    arguments: JsonView,
    timeout_ms: u64,
)
    requires
        exchange.asks(id, "tools/call"@, call_params(tool, arguments), timeout_ms),
    ensures
        exists|message: JsonView|
            exchange.line@ == (#[trigger] json::json_text(message)).push('\n') && json::member(message, "method"@)
                == Some(JsonView::Text("tools/call"@)) && json::member(message, "id"@) == Some(
                JsonView::Integer(id as int),
            ) && (json::member(message, "params"@) matches Some(params) && json::member(params, "name"@) == Some(
                JsonView::Text(tool),
            ) && json::member(params, "arguments"@) == Some(arguments)),
        exchange.timeout_ms == timeout_ms,
{
    let message = request_message(id, "tools/call"@, call_params(tool, arguments));
    requests_hold_what_is_asked(id, "tools/call"@, call_params(tool, arguments));
    calls_name_the_tool(tool, arguments);
    messages_are_their_text_and_a_line_feed(exchange.line@, message);
    assert(exchange.line@ == json::json_text(message).push('\n'));
}

/// A message on a line is the text of the message and a line feed, and no line feed stands in it.
pub proof fn messages_are_their_text_and_a_line_feed(line: Seq<char>, message: JsonView)
    requires
        is_message(line, message),
    ensures
        line == json::json_text(message).push('\n'),
        !json::json_text(message).contains('\n'),
{
    reveal_strlit("\n");
    let text = json::json_text(message);
    assert(line =~= text.push('\n'));
    assert forall|i: int| 0 <= i < text.len() implies #[trigger] text[i] != '\n' by {
        assert(text[i] == line[i]);
    }
}

/// An exchange has the number, the method and the time that it is asked with, and its line is the
/// request's text and a line feed.
pub proof fn exchanges_hold_what_is_asked(
    exchange: Exchange,
    id: nat,
    method: Seq<char>,
    params: JsonView,
    timeout_ms: u64,
)
    requires
        exchange.asks(id, method, params, timeout_ms),
    ensures
        exchange.request_id == id,
        exchange.method@ == method,
        exchange.timeout_ms == timeout_ms,
        exchange.line@ == json::json_text(request_message(id, method, params)).push('\n'),
{
    messages_are_their_text_and_a_line_feed(exchange.line@, request_message(id, method, params));
}

/// A request is met only by a line with a response: something was read, it is a document, and that
/// carries no error. Where writing or reading failed, no line came in time, or the stream ended,
/// the request fails, whatever its method.
pub proof fn only_responses_meet_requests(reply: Reply, method: Seq<char>, timeout_ms: nat)
    ensures
        reply is IoFailed ==> reply_outcome(reply, method, timeout_ms) is Err,
        reply is TimedOut ==> reply_outcome(reply, method, timeout_ms) is Err,
        reply_outcome(reply, method, timeout_ms) is Ok <==> (reply matches Reply::Line { bytes, text } && bytes
            > 0 && (json::json_parsed(text::trimmed(text@)) matches Ok(response) && json::member(
            response,
            "error"@,
        ) is None)),
{
}

/// A request that fails tells why: what writing or reading said, which method was waited for and how
/// long, that the stream ended, or what is wrong with the line.
pub proof fn failures_tell_why(method: Seq<char>, timeout_ms: nat, message: String, bytes: usize, line: String)
    ensures
        reply_outcome(Reply::IoFailed(message), method, timeout_ms) == Err::<JsonView, ErrorView>(
            ErrorView::Io(message@),
        ),
        reply_outcome(Reply::TimedOut, method, timeout_ms) == Err::<JsonView, ErrorView>(
            ErrorView::Mcp(
                "timeout waiting for MCP response: method="@ + method + " timeout_ms="@ + text::decimal(timeout_ms),
            ),
        ),
        reply_outcome(Reply::Line { bytes: 0, text: line }, method, timeout_ms) == Err::<JsonView, ErrorView>(
            ErrorView::Mcp("mcp server closed stdout"@),
        ),
        bytes > 0 && json::json_parsed(text::trimmed(line@)) is Err ==> reply_outcome(
            Reply::Line { bytes, text: line },
            method,
            timeout_ms,
        ) == Err::<JsonView, ErrorView>(ErrorView::Json(json::json_parsed(text::trimmed(line@))->Err_0)),
{
}

/// A line that something was read of gives the document that its text without white space at the
/// ends stands for, or what is wrong with that; at the end of the stream there is none.
pub proof fn lines_give_their_documents(bytes: usize, line: Seq<char>, doc: JsonView, message: Seq<char>)
    ensures
        bytes > 0 && json::json_parsed(text::trimmed(line)) == Ok::<JsonView, Seq<char>>(doc) ==> line_outcome(
            bytes,
            line,
        ) == Ok::<JsonView, ErrorView>(doc),
        bytes > 0 && json::json_parsed(text::trimmed(line)) == Err::<JsonView, Seq<char>>(message) ==> line_outcome(
            bytes,
            line,
        ) == Err::<JsonView, ErrorView>(ErrorView::Json(message)),
        line_outcome(0, line) == Err::<JsonView, ErrorView>(ErrorView::Mcp("mcp server closed stdout"@)),
{
}

/// A response fails where it has an error, whatever that is, and else gives its result; where it
/// has neither it gives an object without members.
pub proof fn responses_give_their_results(response: JsonView)
    ensures
        json::member(response, "error"@) matches Some(error) ==> response_outcome(response) == Err::<
            JsonView,
            ErrorView,
        >(ErrorView::Mcp(json::json_text(error))),
        json::member(response, "error"@) is None ==> (json::member(response, "result"@) matches Some(result)
            ==> response_outcome(response) == Ok::<JsonView, ErrorView>(result)),
        json::member(response, "error"@) is None && json::member(response, "result"@) is None
            ==> (response_outcome(response) matches Ok(JsonView::Object(fields)) && fields.dom() == Set::<
            Seq<char>,
        >::empty()),
{
    assert(json::no_members().dom() =~= Set::<Seq<char>>::empty());
}

/// The reply to a request is the response on its line: the same response gives the same result for
/// every method, number of bytes and time.
pub proof fn replies_are_their_responses(
    bytes: usize,
    line: String,
    response: JsonView,
    method: Seq<char>,
    timeout_ms: nat,
)
    requires
        bytes > 0,
        json::json_parsed(text::trimmed(line@)) == Ok::<JsonView, Seq<char>>(response),
    ensures
        reply_outcome(Reply::Line { bytes, text: line }, method, timeout_ms) == response_outcome(response),
{
}

/// An exchange ends as its reply says, for its method and its time.
pub proof fn exchanges_end_by_their_reply(exchange: Exchange, reply: Reply)
    ensures
        exchange.result(reply) == reply_outcome(reply, exchange.method@, exchange.timeout_ms as nat),
        exchange.result(Reply::TimedOut) == Err::<JsonView, ErrorView>(
            ErrorView::Mcp(
                "timeout waiting for MCP response: method="@ + exchange.method@ + " timeout_ms="@ + text::decimal(
                    exchange.timeout_ms as nat,
                ),
            ),
        ),
{
}

/// The tools of a result are what it holds under that name, as they are; a result without them has
/// an empty list.
pub proof fn listed_tools_are_passed_on(result: JsonView)
    ensures
        json::member(result, "tools"@) matches Some(tools) ==> listed_tools(result) == tools,
        json::member(result, "tools"@) is None ==> (listed_tools(result) matches JsonView::Array(tools)
            && tools.len() == 0),
{
}

/// The outcome of a request is what its result holds: the document, or the error.
pub proof fn outcomes_are_the_results(value: serde_json::Value, error: FrameworkError)
    ensures
        outcome(Ok(value)) == Ok::<JsonView, ErrorView>(json::document(value)),
        outcome(Err(error)) == Err::<JsonView, ErrorView>(error@),
{
}

/// One more request counts one further, and the server keeps its name.
pub proof fn requests_keep_the_name(session: SessionView, requests: nat)
    ensures
        session.advanced().request_id == session.request_id + 1,
        session.after(requests).request_id == session.request_id + requests,
        session.after(requests).name == session.name,
{
    lemma_after(session, requests);
}

} // verus!
