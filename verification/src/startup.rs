//! Bringing one server up: started, opened with `initialize` and `notifications/initialized`, and
//! asked for its tools. Each step takes what came of the last message and hands out the next one.

use crate::args::TimeoutConfig;
use crate::config::McpServerConfig;
use crate::error::{ErrorView, FrameworkError};
use crate::json;
use crate::json::JsonView;
use crate::logs;
use crate::logs::{LogLevel, LogRecord};
use crate::session;
use crate::session::{Exchange, ManagedServer, Reply, SessionView};
use crate::table::Table;
use crate::tools::ToolDefinition;
use vstd::prelude::*;

verus! {

/// The part of bringing a server up in which it failed.
#[derive(Debug, Clone, Copy, PartialEq, Eq, Structural)]
pub enum LoadStage {
    Start,
    Initialize,
    ListTools,
}

impl LoadStage {
    /// The name of the stage in reports.
    pub open spec fn label(self) -> Seq<char> {
        match self {
            LoadStage::Start => "start"@,
            LoadStage::Initialize => "initialize"@,
            LoadStage::ListTools => "list_tools"@,
        }
    }

    /// Names the stage in reports.
    pub fn text(self) -> (r: &'static str)
        ensures
            r@ == self.label(),
    {
        match self {
            LoadStage::Start => "start",
            LoadStage::Initialize => "initialize",
            LoadStage::ListTools => "list_tools",
        }
    }

    /// The kind of the record of a failure in the stage.
    pub open spec fn failure_kind(self) -> Seq<char> {
        match self {
            LoadStage::Start => "MCP服务启动失败"@,
            LoadStage::Initialize => "MCP初始化失败"@,
            LoadStage::ListTools => "MCP列工具失败"@,
        }
    }
}

/// Why a server did not come up.
pub struct StageFailure {
    pub stage: LoadStage,
    pub error: FrameworkError,
}

/// Why a server did not come up, by what it holds.
pub struct FailureView {
    pub stage: LoadStage,
    pub error: ErrorView,
}

impl View for StageFailure {
    type V = FailureView;

    open spec fn view(&self) -> FailureView {
        FailureView { stage: self.stage, error: self.error@ }
    }
}

/// Records that a server did not come up.
pub fn failure_record(name: &str, failure: &StageFailure, duration_ms: u128) -> (r: LogRecord)
    ensures
        r.tells(
            LogLevel::Error,
            failure@.stage.failure_kind(),
            name@,
            logs::failure_text(duration_ms as nat, failure@.error),
        ),
{
    let kind = match failure.stage {
        LoadStage::Start => "MCP服务启动失败",
        LoadStage::Initialize => "MCP初始化失败",
        LoadStage::ListTools => "MCP列工具失败",
    };
    logs::log_failure(kind, name, duration_ms, &failure.error)
}

/// The second message to a server: that the conversation is open.
pub open spec fn initialized_message() -> JsonView {
    session::notification_message("notifications/initialized"@, json::empty_object())
}

/// What a standard stream of a process is.
#[derive(Debug, Clone, Copy, PartialEq, Eq, Structural)]
pub enum Stream {
    /// A pipe to or from this service.
    Piped,
    /// Nothing: what is written to it is lost.
    Discarded,
}

/// How a server's process is started.
pub struct LaunchPlan<'a> {
    pub command: &'a String,
    pub args: &'a Vec<String>,
    pub env: &'a Table<String>,
    pub stdin: Stream,
    pub stdout: Stream,
    pub stderr: Stream,
}

/// Tells how a server's process is started: its command with its arguments and variables, its input
/// and output in pipes, and its error output discarded.
pub fn launch_plan(config: &McpServerConfig) -> (r: LaunchPlan<'_>)
    ensures
        r.command == config.command,
        r.args == config.args,
        r.env == config.env,
        r.stdin == Stream::Piped,
        r.stdout == Stream::Piped,
        r.stderr == Stream::Discarded,
{
    LaunchPlan {
        command: &config.command,
        args: &config.args,
        env: &config.env,
        stdin: Stream::Piped,
        stdout: Stream::Piped,
        stderr: Stream::Discarded,
    }
}

/// What came of starting the process.
pub enum Spawned {
    Failed(String),
    Running { stdin_open: bool, stdout_open: bool },
}

/// Why a process is no server to talk to, if it is none.
pub open spec fn spawn_error(spawned: Spawned) -> Option<ErrorView> {
    match spawned {
        Spawned::Failed(message) => Some(ErrorView::Io(message@)),
        Spawned::Running { stdin_open, stdout_open } => if !stdin_open {
            Some(ErrorView::Mcp("failed to open child stdin"@))
        } else if !stdout_open {
            Some(ErrorView::Mcp("failed to open child stdout"@))
        } else {
            None
        },
    }
}

/// A server whose process is being started.
pub struct Starting {
    pub name: String,
}

/// A server that is being asked to `initialize`.
pub struct Initializing {
    server: ManagedServer,
    exchange: Exchange,
}

impl View for Initializing {
    type V = SessionView;

    closed spec fn view(&self) -> SessionView {
        self.server@
    }
}

impl Initializing {
    #[verifier::type_invariant]
    spec fn sent(&self) -> bool {
        self.server@.request_id == 1
    }
}

/// A server that is being sent `notifications/initialized`.
pub struct Notifying {
    server: ManagedServer,
}

impl View for Notifying {
    type V = SessionView;

    closed spec fn view(&self) -> SessionView {
        self.server@
    }
}

impl Notifying {
    #[verifier::type_invariant]
    spec fn sent(&self) -> bool {
        self.server@.request_id == 1
    }
}

/// A server that is being asked for its tools.
pub struct Listing {
    server: ManagedServer,
    exchange: Exchange,
}

impl View for Listing {
    type V = SessionView;

    closed spec fn view(&self) -> SessionView {
        self.server@
    }
}

impl Listing {
    #[verifier::type_invariant]
    spec fn sent(&self) -> bool {
        self.server@.request_id == 2
    }
}

/// A server whose list of tools is being decoded.
pub struct Decoding {
    server: ManagedServer,
}

impl View for Decoding {
    type V = SessionView;

    closed spec fn view(&self) -> SessionView {
        self.server@
    }
}

impl Decoding {
    #[verifier::type_invariant]
    spec fn sent(&self) -> bool {
        self.server@.request_id == 2
    }
}

impl Starting {
    /// Goes on when the process was started: with the request that opens the conversation.
    pub fn spawned(self, spawned: Spawned, version: &str, timeouts: &TimeoutConfig) -> (r: Result<
        Initializing,
        StageFailure,
    >)
        ensures
            match r {
                Ok(next) => {
                    &&& spawn_error(spawned) is None
                    &&& next@ == (SessionView { name: self.name@, request_id: 1 })
                    &&& next.pending().asks(
                        1,
                        "initialize"@,
                        session::initialize_params(version@),
                        timeouts.initialize,
                    )
                },
                Err(failure) => spawn_error(spawned) == Some(failure@.error) && failure@.stage
                    == LoadStage::Start,
            },
    {
        match spawned {
            Spawned::Failed(message) => Err(
                StageFailure { stage: LoadStage::Start, error: FrameworkError::Io(message) },
            ),
            Spawned::Running { stdin_open, stdout_open } => match ManagedServer::start(
                self.name,
                stdin_open,
                stdout_open,
            ) {
                Err(error) => Err(StageFailure { stage: LoadStage::Start, error }),
                Ok(mut server) => match server.initialize(version, timeouts) {
                    Ok(exchange) => Ok(Initializing { server, exchange }),
                    Err(error) => Err(StageFailure { stage: LoadStage::Initialize, error }),
                },
            },
        }
    }
}

impl Initializing {
    /// The request under way.
    pub closed spec fn pending(&self) -> Exchange {
        self.exchange
    }

    /// The request to write, and how long its reply is waited for.
    pub fn exchange(&self) -> (r: &Exchange)
        ensures
            *r == self.pending(),
    {
        &self.exchange
    }

    /// Goes on when the server has answered: with the line that tells it that the conversation is
    /// open.
    pub fn replied(self, reply: Reply) -> (r: Result<(Notifying, String), StageFailure>)
        ensures
            match r {
                Ok((next, line)) => {
                    &&& self.pending().result(reply) is Ok
                    &&& next@ == self@
                    &&& session::is_message(line@, initialized_message())
                },
                Err(failure) => self.pending().result(reply) == Err::<JsonView, ErrorView>(
                    failure@.error,
                ) && failure@.stage == LoadStage::Initialize,
            },
    {
        proof {
            use_type_invariant(&self);
        }
        match self.exchange.finish(reply) {
            Err(error) => Err(StageFailure { stage: LoadStage::Initialize, error }),
            Ok(_) => match self.server.initialized() {
                Ok(line) => Ok((Notifying { server: self.server }, line)),
                Err(error) => Err(StageFailure { stage: LoadStage::Initialize, error }),
            },
        }
    }
}

impl Notifying {
    /// Goes on when that was written: with the request for the server's tools.
    pub fn written(self, written: Result<(), String>, timeouts: &TimeoutConfig) -> (r: Result<
        Listing,
        StageFailure,
    >)
        ensures
            match r {
                Ok(next) => {
                    &&& written is Ok
                    &&& next@ == self@.advanced()
                    &&& next.pending().asks(
                        2,
                        "tools/list"@,
                        json::empty_object(),
                        timeouts.list_tools,
                    )
                },
                Err(failure) => written matches Err(message) && failure@ == (FailureView {
                    stage: LoadStage::Initialize,
                    error: ErrorView::Io(message@),
                }),
            },
    {
        proof {
            use_type_invariant(&self);
        }
        match written {
            Err(message) => Err(
                StageFailure { stage: LoadStage::Initialize, error: FrameworkError::Io(message) },
            ),
            Ok(_) => {
                let mut server = self.server;
                match server.list_tools(timeouts) {
                    Ok(exchange) => Ok(Listing { server, exchange }),
                    Err(error) => Err(StageFailure { stage: LoadStage::ListTools, error }),
                }
            },
        }
    }
}

impl Listing {
    /// The request under way.
    pub closed spec fn pending(&self) -> Exchange {
        self.exchange
    }

    /// The request to write, and how long its reply is waited for.
    pub fn exchange(&self) -> (r: &Exchange)
        ensures
            *r == self.pending(),
    {
        &self.exchange
    }

    /// Goes on when the server has answered: with the list of tools to decode.
    pub fn replied(self, reply: Reply) -> (r: Result<(Decoding, serde_json::Value), StageFailure>)
        ensures
            match r {
                Ok((next, tools)) => {
                    &&& self.pending().result(reply) matches Ok(result) && json::document(tools)
                        == session::listed_tools(result)
                    &&& next@ == self@
                },
                Err(failure) => self.pending().result(reply) == Err::<JsonView, ErrorView>(
                    failure@.error,
                ) && failure@.stage == LoadStage::ListTools,
            },
    {
        proof {
            use_type_invariant(&self);
        }
        match self.exchange.finish(reply) {
            Err(error) => Err(StageFailure { stage: LoadStage::ListTools, error }),
            Ok(result) => Ok((Decoding { server: self.server }, session::tools_of_result(&result))),
        }
    }
}

impl Decoding {
    /// Is done when the list was decoded.
    pub fn decoded(self, decoded: Result<Vec<ToolDefinition>, String>) -> (r: Result<
        (ManagedServer, Vec<ToolDefinition>),
        StageFailure,
    >)
        ensures
            match r {
                Ok((server, tools)) => server@ == self@ && decoded
                    == Ok::<Vec<ToolDefinition>, String>(tools),
                Err(failure) => decoded matches Err(message) && failure@ == (FailureView {
                    stage: LoadStage::ListTools,
                    error: ErrorView::Json(message@),
                }),
            },
    {
        match decoded {
            Ok(tools) => Ok((self.server, tools)),
            Err(message) => Err(
                StageFailure { stage: LoadStage::ListTools, error: FrameworkError::Json(message) },
            ),
        }
    }
}

/// A process is a server to talk to exactly where it was started and both its streams are open; else
/// it is told why not, what the start said or which stream is closed, the input first.
pub proof fn servers_have_open_streams(message: String, stdin_open: bool, stdout_open: bool)
    ensures
        spawn_error(Spawned::Failed(message)) == Some(ErrorView::Io(message@)),
        spawn_error(Spawned::Running { stdin_open, stdout_open }) is None <==> stdin_open && stdout_open,
        !stdin_open ==> spawn_error(Spawned::Running { stdin_open, stdout_open }) == Some(
            ErrorView::Mcp("failed to open child stdin"@),
        ),
        stdin_open && !stdout_open ==> spawn_error(Spawned::Running { stdin_open, stdout_open }) == Some(
            ErrorView::Mcp("failed to open child stdout"@),
        ),
{
}

/// That the conversation is open is told by a notification of that method, with nothing in it.
pub proof fn opening_is_notified()
    ensures
        json::member(initialized_message(), "method"@) == Some(JsonView::Text("notifications/initialized"@)),
        json::member(initialized_message(), "params"@) matches Some(JsonView::Object(params)) && params.dom()
            == Set::<Seq<char>>::empty(),
        json::member(initialized_message(), "id"@) is None,
{
    session::notifications_hold_what_is_told("notifications/initialized"@, json::empty_object());
    assert(json::no_members().dom() =~= Set::<Seq<char>>::empty());
}

/// A failure has the stage and the error that it is made of, and each stage has a name of its own.
pub proof fn stages_are_told_apart(failure: StageFailure, other: LoadStage)
    ensures
        failure@.stage == failure.stage,
        failure@.error == failure.error@,
        failure.stage.label() == other.label() <==> failure.stage == other,
        failure.stage is Start ==> failure.stage.label() == "start"@,
        failure.stage is Initialize ==> failure.stage.label() == "initialize"@,
        failure.stage is ListTools ==> failure.stage.label() == "list_tools"@,
{
    reveal_strlit("start");
    reveal_strlit("initialize");
    reveal_strlit("list_tools");
    assert("start"@.len() == 5);
    assert("initialize"@[0] != "list_tools"@[0]);
    assert("initialize"@.len() == 10 && "list_tools"@.len() == 10);
}

} // verus!
