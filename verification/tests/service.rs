use mcp_framework::answers::{
    answer_records, framework_tools_handler, health, list_tools_handler, met_records, respond, ApiResponse, HttpAnswer,
};
use mcp_framework::config::{
    config_source, file_config, masked_env, sanitized_config_envelope, sanitized_load_request, sanitized_server_config,
    ConfigEnvelope, ConfigSource, LoadConfigRequest, McpServerConfig,
};
use mcp_framework::error::FrameworkError;
use mcp_framework::loader::{summarize_failed_servers, FailedServerInfo, LoadSession};
use mcp_framework::logs::LogLevel;
use mcp_framework::registry::AppState;
use mcp_framework::startup::{failure_record, LoadStage, StageFailure};
use mcp_framework::table::Table;
use mcp_framework::tools::{exposed_name, framework_tools, tool_registration, ToolDefinition};
use serde_json::Value;

fn json(text: &str) -> Value {
    serde_json::from_str(text).unwrap()
}

fn tool(name: &str) -> ToolDefinition {
    ToolDefinition {
        name: name.to_string(),
        description: format!("does {name}"),
        input_schema: json("{\"type\":\"object\"}"),
    }
}

fn tools(names: &[&str]) -> Vec<ToolDefinition> {
    names.iter().map(|n| tool(n)).collect()
}

fn config(names: &[&str]) -> ConfigEnvelope {
    let mut r = ConfigEnvelope::new();
    for name in names {
        let server = McpServerConfig::new(format!("/bin/{name}"), vec!["-v".to_string()]);
        r.add_server(name.to_string(), server);
    }
    r
}

fn failure(stage: LoadStage, error: FrameworkError) -> StageFailure {
    StageFailure { stage, error }
}

fn refusal(answer: HttpAnswer) -> (u16, Value) {
    match answer {
        HttpAnswer::Refused { status, body } => (status, body),
        HttpAnswer::Met(_) => panic!("the request is met"),
    }
}

fn target(state: &AppState<u32>, name: &str) -> Option<(u32, String, String)> {
    match state.call_tool_proxy(name) {
        Ok((server, route)) => Some((*server, route.server_name.clone(), route.remote_tool_name.clone())),
        Err(FrameworkError::ToolNotFound(missing)) => {
            assert_eq!(missing, name);
            None
        }
        Err(_) => panic!("a route without a server"),
    }
}

fn found(server: u32, name: &str, tool: &str) -> Option<(u32, String, String)> {
    Some((server, name.to_string(), tool.to_string()))
}

#[test]
fn tables_keep_order_and_names_once() {
    let mut t: Table<String> = Table::new();
    t.insert("b".to_string(), "1".to_string());
    t.insert("a".to_string(), "2".to_string());
    t.insert("b".to_string(), "3".to_string());
    assert_eq!(t.len(), 2);
    assert_eq!((t.name_at(0).as_str(), t.value_at(0).as_str()), ("b", "3"));
    assert_eq!(t.get("a").map(|v| v.as_str()), Some("2"));
    assert!(t.get("c").is_none());
    assert_eq!(t.sorted_names(), vec!["a".to_string(), "b".to_string()]);
    assert_eq!(t.remove_first(), ("b".to_string(), "3".to_string()));
    assert!(t.get("b").is_none());
}

#[test]
fn variables_are_shown_without_values() {
    let mut c = McpServerConfig::new("run".to_string(), vec!["x".to_string(), "y".to_string()]);
    c.set_env("TOKEN".to_string(), "secret".to_string());
    c.set_env("HOME".to_string(), "/root".to_string());
    assert_eq!(masked_env(&c.env), json("{\"HOME\":\"***masked***\",\"TOKEN\":\"***masked***\"}"));
    assert_eq!(
        sanitized_server_config(&c),
        json("{\"command\":\"run\",\"args\":[\"x\",\"y\"],\"env\":{\"HOME\":\"***masked***\",\"TOKEN\":\"***masked***\"},\"envKeys\":[\"HOME\",\"TOKEN\"],\"envCount\":2}")
    );
    let mut d = McpServerConfig::new("run".to_string(), vec!["x".to_string(), "y".to_string()]);
    d.set_env("HOME".to_string(), "/other".to_string());
    d.set_env("TOKEN".to_string(), "another".to_string());
    assert_eq!(sanitized_server_config(&c), sanitized_server_config(&d));
}

#[test]
fn configurations_are_shown_by_server() {
    let shown = sanitized_config_envelope(&config(&["b", "a"]));
    assert_eq!(
        shown,
        json("{\"mcpServers\":{\"a\":{\"command\":\"/bin/a\",\"args\":[\"-v\"],\"env\":{},\"envKeys\":[],\"envCount\":0},\"b\":{\"command\":\"/bin/b\",\"args\":[\"-v\"],\"env\":{},\"envKeys\":[],\"envCount\":0}}}")
    );
    assert_eq!(shown, sanitized_config_envelope(&config(&["a", "b"])));
}

#[test]
fn requests_are_shown_with_what_they_have() {
    let none = LoadConfigRequest { config: None, config_path: Some("/x.json".to_string()) };
    assert_eq!(sanitized_load_request(&none), json("{\"configPath\":\"/x.json\",\"config\":null}"));
    let inline = LoadConfigRequest { config: Some(ConfigEnvelope::new()), config_path: None };
    assert_eq!(sanitized_load_request(&inline), json("{\"configPath\":null,\"config\":{\"mcpServers\":{}}}"));
}

#[test]
fn an_inline_configuration_goes_before_a_path() {
    let both = LoadConfigRequest { config: Some(config(&["a"])), config_path: Some("p".to_string()) };
    assert!(matches!(config_source(both), Ok(ConfigSource::Inline(c)) if c.mcp_servers.len() == 1));
    let path = LoadConfigRequest { config: None, config_path: Some("p".to_string()) };
    assert!(matches!(config_source(path), Ok(ConfigSource::File(p)) if p == "p"));
    let neither = LoadConfigRequest { config: None, config_path: None };
    assert!(matches!(config_source(neither), Err(FrameworkError::InvalidRequest(m)) if m == "config or configPath is required"));
}

#[test]
fn a_file_gives_its_configuration_or_the_error() {
    assert!(matches!(file_config(Ok(Ok(config(&["a"])))), Ok(c) if c.mcp_servers.len() == 1));
    let error = serde_json::from_str::<Value>("{").unwrap_err();
    let text = error.to_string();
    assert!(matches!(file_config(Ok(Err(error))), Err(FrameworkError::Json(m)) if m == text));
    assert!(matches!(file_config(Err("no file".to_string())), Err(FrameworkError::Io(m)) if m == "no file"));
}

#[test]
fn answers_are_recorded() {
    let records = answer_records("GET /x", 7, &Ok(json("[ 1 ]")));
    let told: Vec<(LogLevel, &str, &str, &str)> =
        records.iter().map(|r| (r.level, r.kind.as_str(), r.scope.as_str(), r.message.as_str())).collect();
    assert_eq!(
        told,
        vec![
            (LogLevel::Info, "HTTP响应", "GET /x", "[1]"),
            (LogLevel::Info, "HTTP完成", "GET /x", "duration_ms=7"),
        ]
    );
    let records = met_records("GET /x", 7, Ok("{\"b\":1,\"a\":2}".to_string()), Some(3));
    assert_eq!((records[0].kind.as_str(), records[0].message.as_str()), ("HTTP响应", "{\"b\":1,\"a\":2}"));
    assert_eq!((records[1].kind.as_str(), records[1].message.as_str()), ("HTTP完成", "duration_ms=7 tool_count=3"));
    let records = met_records("GET /x", 7, Err("no text".to_string()), None);
    assert_eq!((records[0].level, records[0].kind.as_str()), (LogLevel::Error, "日志错误"));
    assert_eq!(records[0].message, "日志序列化失败: no text");
    assert_eq!(records[1].message, "duration_ms=7");
    let records = answer_records("GET /x", 12, &Err(FrameworkError::ToolNotFound("\"t\"".to_string())));
    assert_eq!(records.len(), 1);
    assert_eq!((records[0].level, records[0].kind.as_str()), (LogLevel::Error, "HTTP失败"));
    assert_eq!(records[0].message, "duration_ms=12 err=tool not found: \"t\"");
}

#[test]
fn own_tools_have_names_of_their_own() {
    for own in framework_tools() {
        let rest = own.name.strip_prefix("mcp.").unwrap();
        assert!(!rest.contains('.'));
        assert_ne!(exposed_name("", rest), own.name);
        assert_ne!(exposed_name(rest, ""), own.name);
    }
}

#[test]
fn errors_have_messages_and_statuses() {
    let cases = [
        (FrameworkError::InvalidRequest("x".to_string()), 400, "invalid request: x"),
        (FrameworkError::ServerNotFound("x".to_string()), 404, "server not found: x"),
        (FrameworkError::ToolNotFound("x".to_string()), 404, "tool not found: x"),
        (FrameworkError::Io("x".to_string()), 500, "io error: x"),
        (FrameworkError::Json("x".to_string()), 500, "json error: x"),
        (FrameworkError::Mcp("x".to_string()), 500, "mcp error: x"),
    ];
    for (error, status, message) in cases {
        assert_eq!(error.message(), message);
        let body = json(&format!("{{\"ok\":false,\"error\":\"{message}\"}}"));
        assert_eq!(refusal(respond(Err(error))), (status, body));
    }
}

#[test]
fn errors_of_the_parser_keep_their_text() {
    let error = serde_json::from_str::<Value>("{").unwrap_err();
    let text = error.to_string();
    assert!(matches!(FrameworkError::from(error), FrameworkError::Json(m) if m == text));
}

#[test]
fn met_requests_are_answered_with_data() {
    assert!(matches!(respond(Ok(json("[1]"))), HttpAnswer::Met(ApiResponse { ok: true, data }) if data == json("[1]")));
}

#[test]
fn health_tells_service_and_version() {
    assert_eq!(health("1.2.3"), json("{\"ok\":true,\"service\":\"agentkernel-mcp-framework\",\"version\":\"1.2.3\"}"));
}

#[test]
fn the_service_has_three_tools() {
    let names: Vec<String> = framework_tools().into_iter().map(|t| t.name).collect();
    assert_eq!(names, vec!["mcp.load_config", "mcp.list_tools", "mcp.call_tool"]);
    let answer = framework_tools_handler();
    assert!(answer.ok);
    let told: Vec<(&str, &str, &Value)> =
        answer.data.iter().map(|t| (t.name.as_str(), t.description.as_str(), &t.input_schema)).collect();
    let load = json("{\"type\":\"object\",\"properties\":{\"configPath\":{\"type\":\"string\",\"description\":\"MCP 配置文件路径\"},\"config\":{\"type\":\"object\",\"description\":\"内联 MCP 配置，格式为 { mcpServers: {...} }\"}}}");
    let list = json("{\"type\":\"object\",\"properties\":{}}");
    let call = json("{\"type\":\"object\",\"properties\":{\"name\":{\"type\":\"string\",\"description\":\"业务端注册时拿到的工具名，如 mcp.local-code-suite.read\"},\"arguments\":{\"type\":\"object\"}},\"required\":[\"name\"]}");
    assert_eq!(
        told,
        vec![
            ("mcp.load_config", "加载 MCP 配置单，启动其中的 MCP Server，并发现全部工具", &load),
            ("mcp.list_tools", "列出已经加载的 MCP 工具，返回可注册给 AgentKernel 的工具清单", &list),
            ("mcp.call_tool", "代理执行已经发现的 MCP 工具", &call),
        ]
    );
}

#[test]
fn tools_are_exposed_by_server_and_name() {
    assert_eq!(exposed_name("local-code-suite", "read"), "mcp.local-code-suite.read");
    assert!(exposed_name("", "").starts_with("mcp."));
    let t = ToolDefinition {
        name: "read".to_string(),
        description: "Read file contents with pagination".to_string(),
        input_schema: json("{}"),
    };
    assert_eq!(
        tool_registration("local-code-suite", &t),
        json("{\"name\":\"mcp.local-code-suite.read\",\"description\":\"[local-code-suite] Read file contents with pagination\",\"inputSchema\":{},\"mcp\":{\"server\":\"local-code-suite\",\"remoteTool\":\"read\"}}")
    );
}

#[test]
fn installed_tools_are_routed() {
    let mut state: AppState<u32> = AppState::new();
    assert_eq!(target(&state, "mcp.a.x"), None);
    state.install("a".to_string(), 1, tools(&["x", "y"]));
    state.install("b".to_string(), 2, tools(&["x"]));
    assert_eq!(state.server_count(), 2);
    assert_eq!(target(&state, "mcp.a.y"), found(1, "a", "y"));
    assert_eq!(target(&state, "mcp.b.x"), found(2, "b", "x"));
    assert_eq!(target(&state, "mcp.b.y"), None);
}

#[test]
fn installing_again_drops_old_routes_only() {
    let mut state: AppState<u32> = AppState::new();
    state.install("a".to_string(), 1, tools(&["x", "y"]));
    state.install("b".to_string(), 2, tools(&["x"]));
    state.install("a".to_string(), 3, tools(&["z", "x"]));
    assert_eq!(state.server_count(), 2);
    assert_eq!(target(&state, "mcp.a.x"), found(3, "a", "x"));
    assert_eq!(target(&state, "mcp.a.y"), None);
    assert_eq!(target(&state, "mcp.a.z"), found(3, "a", "z"));
    assert_eq!(target(&state, "mcp.b.x"), found(2, "b", "x"));
}

#[test]
fn a_shared_name_goes_to_the_later_server() {
    let mut state: AppState<u32> = AppState::new();
    state.install("a".to_string(), 1, tools(&["b.c"]));
    state.install("a.b".to_string(), 2, tools(&["c"]));
    assert_eq!(target(&state, "mcp.a.b.c"), found(2, "a.b", "c"));
}

#[test]
fn listing_shows_every_tool() {
    let mut state: AppState<u32> = AppState::new();
    let answer = list_tools_handler(&state);
    assert!(answer.ok);
    assert_eq!(answer.data, json("{\"tools\":[],\"toolCount\":0}"));
    state.install("a".to_string(), 1, tools(&["x", "y"]));
    state.install("b".to_string(), 2, tools(&["z"]));
    let listed = state.list_loaded_tools();
    assert_eq!(listed.get("toolCount"), Some(&json("3")));
    let names: Vec<&str> = listed["tools"].as_array().unwrap().iter().map(|t| t["name"].as_str().unwrap()).collect();
    assert_eq!(names, vec!["mcp.a.x", "mcp.a.y", "mcp.b.z"]);
}

#[test]
fn failures_are_summed_up() {
    let info = |name: &str, stage: &str, error: &str| FailedServerInfo {
        name: name.to_string(),
        command: "c".to_string(),
        args: vec![],
        stage: stage.to_string(),
        error: error.to_string(),
        duration_ms: 1,
    };
    assert_eq!(summarize_failed_servers(&[]), "");
    assert_eq!(summarize_failed_servers(&[info("a", "start", "e")]), "a:start:e");
    assert_eq!(
        summarize_failed_servers(&[info("a", "start", "e"), info("b", "list_tools", "f"), info("", "", "")]),
        "a:start:e | b:list_tools:f | ::"
    );
    let (a, b) = ([info("a", "start", "e")], [info("b", "start", "f"), info("c", "start", "g")]);
    let both = [info("a", "start", "e"), info("b", "start", "f"), info("c", "start", "g")];
    assert_eq!(
        summarize_failed_servers(&both),
        format!("{} | {}", summarize_failed_servers(&a), summarize_failed_servers(&b))
    );
}

#[test]
fn a_load_reports_what_came_up_and_what_did_not() {
    let mut state: AppState<u32> = AppState::new();
    state.install("old".to_string(), 9, tools(&["gone"]));
    let mut load: LoadSession<u32> = LoadSession::begin(config(&["a", "b", "c"]));
    assert_eq!(load.current().unwrap().0, "a");
    load.server_loaded(1, tools(&["x", "y"]));
    assert_eq!(load.current().unwrap().1.command, "/bin/b");
    load.server_failed(failure(LoadStage::Initialize, FrameworkError::Io("broken".to_string())), 12);
    load.server_loaded(3, tools(&[]));
    assert!(load.current().is_none());
    let report = load.finish(&mut state).unwrap();
    let listed = state.list_loaded_tools();
    assert_eq!(report.get("tools"), listed.get("tools"));
    assert_eq!(
        report.get("loadedServers"),
        Some(&json("[{\"name\":\"a\",\"command\":\"/bin/a\",\"args\":[\"-v\"],\"toolCount\":2},{\"name\":\"c\",\"command\":\"/bin/c\",\"args\":[\"-v\"],\"toolCount\":0}]"))
    );
    assert_eq!(
        report.get("failedServers"),
        Some(&json("[{\"name\":\"b\",\"command\":\"/bin/b\",\"args\":[\"-v\"],\"stage\":\"initialize\",\"error\":\"io error: broken\",\"durationMs\":12}]"))
    );
    assert_eq!(report.get("loadedServerCount"), Some(&json("2")));
    assert_eq!(report.get("failedServerCount"), Some(&json("1")));
    assert_eq!(report.get("toolCount"), Some(&json("2")));
    assert_eq!(report.as_object().unwrap().len(), 6);
    assert_eq!(target(&state, "mcp.a.y"), found(1, "a", "y"));
    assert_eq!(target(&state, "mcp.old.gone"), None);
    assert_eq!(state.server_count(), 2);
}

#[test]
fn a_load_without_success_keeps_what_was_loaded() {
    let mut state: AppState<u32> = AppState::new();
    state.install("old".to_string(), 9, tools(&["kept"]));
    let mut load: LoadSession<u32> = LoadSession::begin(config(&["a", "b"]));
    load.server_failed(failure(LoadStage::Start, FrameworkError::Io("no file".to_string())), 0);
    load.server_failed(failure(LoadStage::ListTools, FrameworkError::Mcp("late".to_string())), 3);
    assert_eq!(load.failed_summary(), "a:start:io error: no file | b:list_tools:mcp error: late");
    let error = load.finish(&mut state).unwrap_err();
    assert_eq!(
        error.message(),
        "mcp error: all MCP servers failed to load, keeping previous state: a:start:io error: no file | b:list_tools:mcp error: late"
    );
    assert_eq!(target(&state, "mcp.old.kept"), found(9, "old", "kept"));
}

#[test]
fn refused_requests_are_answered() {
    let state: AppState<u32> = AppState::new();
    let (status, body) = refusal(respond(state.call_tool_proxy("mcp.no.tool").map(|_| Value::Null)));
    assert_eq!(status, 404);
    assert_eq!(body, json("{\"ok\":false,\"error\":\"tool not found: mcp.no.tool\"}"));
    let neither = LoadConfigRequest { config: None, config_path: None };
    let (status, body) = refusal(respond(config_source(neither).map(|_| Value::Null)));
    assert_eq!(status, 400);
    assert_eq!(
        body,
        json("{\"ok\":false,\"error\":\"invalid request: config or configPath is required\"}")
    );
    let mut state: AppState<u32> = AppState::new();
    let mut load: LoadSession<u32> = LoadSession::begin(config(&["a"]));
    load.server_failed(failure(LoadStage::Start, FrameworkError::Io("no file".to_string())), 0);
    let (status, body) = refusal(respond(load.finish(&mut state)));
    assert_eq!(status, 500);
    assert_eq!(
        body,
        json("{\"ok\":false,\"error\":\"mcp error: all MCP servers failed to load, keeping previous state: a:start:io error: no file\"}")
    );
}

#[test]
fn an_empty_load_leaves_nothing_loaded() {
    let mut state: AppState<u32> = AppState::new();
    state.install("old".to_string(), 9, tools(&["gone"]));
    let load: LoadSession<u32> = LoadSession::begin(config(&[]));
    let report = load.finish(&mut state).unwrap();
    assert_eq!(
        report,
        json("{\"loadedServers\":[],\"failedServers\":[],\"loadedServerCount\":0,\"failedServerCount\":0,\"tools\":[],\"toolCount\":0}")
    );
    assert_eq!(state.server_count(), 0);
    assert_eq!(target(&state, "mcp.old.gone"), None);
}

#[test]
fn every_reported_name_is_found() {
    let mut state: AppState<u32> = AppState::new();
    let mut load: LoadSession<u32> = LoadSession::begin(config(&["a", "a.b", "c"]));
    load.server_loaded(1, tools(&["b.x", "y", "y"]));
    load.server_loaded(2, tools(&["x"]));
    load.server_failed(failure(LoadStage::Start, FrameworkError::Io("no file".to_string())), 0);
    let report = load.finish(&mut state).unwrap();
    let reported = report["tools"].as_array().unwrap();
    assert_eq!(reported.len(), 4);
    for tool in reported {
        assert!(state.call_tool_proxy(tool["name"].as_str().unwrap()).is_ok());
    }
    assert_eq!(target(&state, "mcp.a.b.x"), found(2, "a.b", "x"));
    assert_eq!(target(&state, "mcp.a.y"), found(1, "a", "y"));
}

fn load_request(values: &[&str], order: &[&str]) -> LoadConfigRequest {
    let mut servers = ConfigEnvelope::new();
    for name in order {
        let mut server = McpServerConfig::new(format!("/bin/{name}"), vec![]);
        for (i, value) in values.iter().enumerate() {
            server.set_env(format!("V{i}"), value.to_string());
        }
        servers.add_server(name.to_string(), server);
    }
    LoadConfigRequest { config: Some(servers), config_path: Some("/x.json".to_string()) }
}

#[test]
fn requests_are_shown_without_values() {
    let shown = sanitized_load_request(&load_request(&["one", "two"], &["a", "b"]));
    assert_eq!(shown, sanitized_load_request(&load_request(&["three", ""], &["b", "a"])));
    assert_ne!(shown, sanitized_load_request(&load_request(&["one"], &["a", "b"])));
    assert!(!shown.to_string().contains("two"));
}

#[test]
fn failures_are_recorded_by_stage() {
    let cases = [
        (LoadStage::Start, "MCP服务启动失败"),
        (LoadStage::Initialize, "MCP初始化失败"),
        (LoadStage::ListTools, "MCP列工具失败"),
    ];
    for (stage, kind) in cases {
        let record = failure_record("suite", &failure(stage, FrameworkError::Io("x".to_string())), 12);
        assert_eq!((record.level, record.kind.as_str(), record.scope.as_str()), (LogLevel::Error, kind, "suite"));
        assert_eq!(record.message, "duration_ms=12 err=io error: x");
    }
}
