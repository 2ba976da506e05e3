use mcp_framework::args::{TimeoutConfig, Wait};
use mcp_framework::error::FrameworkError;
use mcp_framework::session::{
    finish_request, read_message, response_result, tools_of_result, write_message, ManagedServer, Reply,
};
use mcp_framework::config::McpServerConfig;
use mcp_framework::startup::{launch_plan, LoadStage, Spawned, Starting, Stream};
use mcp_framework::tools::ToolDefinition;
use serde_json::Value;

fn json(text: &str) -> Value {
    serde_json::from_str(text).unwrap()
}

const TIMEOUTS: TimeoutConfig = TimeoutConfig { initialize: 7, list_tools: 8, tool_call: 300_000 };

fn line(text: &str) -> Reply {
    Reply::Line { bytes: text.len(), text: text.to_string() }
}

fn server() -> ManagedServer {
    ManagedServer::start("suite".to_string(), true, true).unwrap()
}

#[test]
fn messages_are_single_lines() {
    let text = write_message(&json("{\"a\": \"one\\ntwo\", \"b\": [true, 2]}")).unwrap();
    assert_eq!(text, "{\"a\":\"one\\ntwo\",\"b\":[true,2]}\n");
    assert_eq!(text.matches('\n').count(), 1);
}

fn nested(depth: usize) -> Value {
    let mut value = json("{\"leaf\":true}");
    for _ in 1..depth {
        value = Value::Array(vec![value]);
    }
    value
}

#[test]
fn reading_undoes_writing() {
    let first = json("{\"text\":\"one\\ntwo\\r\\t\\\"\\\\ \u{2028} 日\",\"n\":[-9223372036854775808,18446744073709551615,0,null,true]}");
    let second = json("\" \\n \"");
    let stream = write_message(&first).unwrap() + &write_message(&second).unwrap();
    let lines: Vec<&str> = stream.split_inclusive('\n').collect();
    assert_eq!(lines.len(), 2);
    assert_eq!(read_message(lines[0].len(), lines[0]).unwrap(), first);
    assert_eq!(read_message(lines[1].len(), lines[1]).unwrap(), second);
}

#[test]
fn reading_undoes_writing_down_to_the_depth_limit() {
    let line = write_message(&nested(127)).unwrap();
    assert_eq!(read_message(line.len(), &line).unwrap(), nested(127));
    let line = write_message(&nested(128)).unwrap();
    assert!(matches!(read_message(line.len(), &line), Err(FrameworkError::Json(_))));
}

#[test]
fn the_reserved_key_is_read_back_unless_it_is_the_first() {
    let mut fields = serde_json::Map::new();
    fields.insert("$serde_json::private::RawValue".to_string(), json("\"1\""));
    fields.insert("\"".to_string(), Value::Null);
    let value = Value::Object(fields);
    let line = write_message(&value).unwrap();
    assert_eq!(read_message(line.len(), &line).unwrap(), value);
}

#[test]
fn processes_are_started_with_their_error_output_discarded() {
    let mut config = McpServerConfig::new("run".to_string(), vec!["-v".to_string()]);
    config.set_env("HOME".to_string(), "/root".to_string());
    let plan = launch_plan(&config);
    assert_eq!((plan.command.as_str(), plan.args.len()), ("run", 1));
    assert_eq!(plan.env.get("HOME").map(|v| v.as_str()), Some("/root"));
    assert_eq!((plan.stdin, plan.stdout, plan.stderr), (Stream::Piped, Stream::Piped, Stream::Discarded));
}

#[test]
fn request_numbers_do_not_come_twice() {
    let mut s = server();
    for n in 1..=5u64 {
        let exchange = s.request("m", Value::Null, 1).unwrap();
        assert_eq!(exchange.request_id, n);
        assert_eq!(json(&exchange.line).get("id"), Some(&Value::from(n)));
    }
}

#[test]
fn lines_are_trimmed_and_read() {
    assert_eq!(read_message(9, "  {\"a\":1}\r\n").unwrap(), json("{\"a\":1}"));
}

#[test]
fn the_end_of_the_stream_is_an_error() {
    assert!(matches!(read_message(0, ""), Err(FrameworkError::Mcp(m)) if m == "mcp server closed stdout"));
}

#[test]
fn lines_that_are_no_json_are_errors() {
    let expected = serde_json::from_str::<Value>("oops").unwrap_err().to_string();
    assert!(matches!(read_message(5, "oops\n"), Err(FrameworkError::Json(m)) if m == expected));
    assert!(matches!(read_message(1, "\n"), Err(FrameworkError::Json(_))));
}

#[test]
fn responses_give_error_then_result_then_nothing() {
    let both = json("{\"error\":{\"code\":-1,\"message\":\"no\"},\"result\":1}");
    assert!(matches!(response_result(&both), Err(FrameworkError::Mcp(m)) if m == "{\"code\":-1,\"message\":\"no\"}"));
    assert!(matches!(response_result(&json("{\"error\":null}")), Err(FrameworkError::Mcp(m)) if m == "null"));
    assert_eq!(response_result(&json("{\"result\":{\"x\":[1.5]}}")).unwrap(), json("{\"x\":[1.5]}"));
    assert_eq!(response_result(&json("{\"result\":null}")).unwrap(), Value::Null);
    assert_eq!(response_result(&json("{}")).unwrap(), json("{}"));
    assert_eq!(response_result(&json("[1]")).unwrap(), json("{}"));
}

#[test]
fn requests_end_by_what_came_back() {
    assert!(matches!(
        finish_request(Reply::IoFailed("broken pipe".to_string()), "tools/list", 5),
        Err(FrameworkError::Io(m)) if m == "broken pipe"
    ));
    assert!(matches!(
        finish_request(Reply::TimedOut, "tools/list", 10_000),
        Err(FrameworkError::Mcp(m))
            if m == "timeout waiting for MCP response: method=tools/list timeout_ms=10000"
    ));
    let r = finish_request(line("{\"jsonrpc\":\"2.0\",\"id\":1,\"result\":{\"ok\":true}}\n"), "m", 5);
    assert_eq!(r.unwrap(), json("{\"ok\":true}"));
}

#[test]
fn results_without_tools_have_none() {
    assert_eq!(tools_of_result(&json("{}")), json("[]"));
    assert_eq!(tools_of_result(&json("null")), json("[]"));
    assert_eq!(tools_of_result(&json("{\"tools\":[{\"name\":\"a\"}]}")), json("[{\"name\":\"a\"}]"));
    assert_eq!(tools_of_result(&json("{\"tools\":3}")), json("3"));
}

#[test]
fn requests_are_numbered_from_one() {
    let mut s = server();
    assert_eq!(s.name(), "suite");
    assert_eq!(s.request_id(), 0);
    let exchange = s.request("m", json("[2]"), 5).unwrap();
    assert_eq!(exchange.line, "{\"id\":1,\"jsonrpc\":\"2.0\",\"method\":\"m\",\"params\":[2]}\n");
    assert_eq!((exchange.request_id, exchange.method.as_str(), exchange.timeout_ms), (1, "m", 5));
    s.list_tools(&TIMEOUTS).unwrap();
    assert_eq!(s.request_id(), 2);
    let exchange = s.call_tool("read", json("{\"limit\":80}"), &TIMEOUTS).unwrap();
    assert_eq!(
        exchange.line,
        "{\"id\":3,\"jsonrpc\":\"2.0\",\"method\":\"tools/call\",\"params\":{\"arguments\":{\"limit\":80},\"name\":\"read\"}}\n"
    );
    let r = exchange.finish(line("{\"result\":{\"content\":[]}}\n"));
    assert_eq!(r.unwrap(), json("{\"content\":[]}"));
    let r = exchange.finish(Reply::TimedOut);
    assert!(matches!(r, Err(FrameworkError::Mcp(m))
        if m == "timeout waiting for MCP response: method=tools/call timeout_ms=300000"));
}

#[test]
fn each_request_has_its_own_limit() {
    assert_eq!(TIMEOUTS.limit(Wait::Initialize), 7);
    assert_eq!(TIMEOUTS.limit(Wait::ListTools), 8);
    assert_eq!(TIMEOUTS.limit(Wait::ToolCall), 300_000);
    let mut s = server();
    assert_eq!(s.initialize("1", &TIMEOUTS).unwrap().timeout_ms, 7);
    assert_eq!(s.list_tools(&TIMEOUTS).unwrap().timeout_ms, 8);
    assert_eq!(s.call_tool("t", Value::Null, &TIMEOUTS).unwrap().timeout_ms, 300_000);
}

#[test]
fn notifications_have_no_number() {
    let s = server();
    assert_eq!(
        s.notify("n", json("{}")).unwrap(),
        "{\"jsonrpc\":\"2.0\",\"method\":\"n\",\"params\":{}}\n"
    );
    assert_eq!(s.request_id(), 0);
}

#[test]
fn streams_must_be_open() {
    let r = ManagedServer::start("s".to_string(), false, false);
    assert!(matches!(r, Err(FrameworkError::Mcp(m)) if m == "failed to open child stdin"));
    let r = ManagedServer::start("s".to_string(), true, false);
    assert!(matches!(r, Err(FrameworkError::Mcp(m)) if m == "failed to open child stdout"));
}

fn starting() -> Starting {
    Starting { name: "suite".to_string() }
}

fn running() -> Spawned {
    Spawned::Running { stdin_open: true, stdout_open: true }
}

#[test]
fn a_server_comes_up_in_three_messages() {
    let step = starting().spawned(running(), "0.1.0", &TIMEOUTS).ok().unwrap();
    assert_eq!(
        json(&step.exchange().line),
        json("{\"jsonrpc\":\"2.0\",\"id\":1,\"method\":\"initialize\",\"params\":{\"protocolVersion\":\"2025-03-26\",\"capabilities\":{},\"clientInfo\":{\"name\":\"agentkernel-mcp-framework\",\"version\":\"0.1.0\"}}}")
    );
    assert_eq!((step.exchange().method.as_str(), step.exchange().timeout_ms), ("initialize", 7));
    let (step, text) = step.replied(line("{\"id\":1,\"result\":{}}\n")).ok().unwrap();
    assert_eq!(
        json(&text),
        json("{\"jsonrpc\":\"2.0\",\"method\":\"notifications/initialized\",\"params\":{}}")
    );
    let step = step.written(Ok(()), &TIMEOUTS).ok().unwrap();
    assert_eq!(
        json(&step.exchange().line),
        json("{\"jsonrpc\":\"2.0\",\"id\":2,\"method\":\"tools/list\",\"params\":{}}")
    );
    assert_eq!((step.exchange().method.as_str(), step.exchange().timeout_ms), ("tools/list", 8));
    let (step, tools) = step.replied(line("{\"id\":2,\"result\":{\"tools\":[7]}}\n")).ok().unwrap();
    assert_eq!(tools, json("[7]"));
    let tool = ToolDefinition { name: "t".to_string(), description: "d".to_string(), input_schema: json("{}") };
    let (mut server, tools) = step.decoded(Ok(vec![tool])).ok().unwrap();
    assert_eq!(tools.len(), 1);
    assert_eq!(server.call_tool("t", Value::Null, &TIMEOUTS).unwrap().request_id, 3);
}

#[test]
fn each_stage_can_fail() {
    let failure = starting().spawned(Spawned::Failed("not found".to_string()), "1", &TIMEOUTS).err().unwrap();
    assert_eq!((failure.stage, failure.error.message()), (LoadStage::Start, "io error: not found".to_string()));

    let closed = Spawned::Running { stdin_open: false, stdout_open: true };
    let failure = starting().spawned(closed, "1", &TIMEOUTS).err().unwrap();
    assert_eq!((failure.stage, failure.error.message()), (LoadStage::Start, "mcp error: failed to open child stdin".to_string()));

    let initializing = || starting().spawned(running(), "1", &TIMEOUTS).ok().unwrap();
    let failure = initializing().replied(Reply::TimedOut).err().unwrap();
    assert_eq!(failure.stage, LoadStage::Initialize);
    assert_eq!(
        failure.error.message(),
        "mcp error: timeout waiting for MCP response: method=initialize timeout_ms=7"
    );

    let notifying = || initializing().replied(line("{}")).ok().unwrap().0;
    let failure = notifying().written(Err("closed".to_string()), &TIMEOUTS).err().unwrap();
    assert_eq!((failure.stage, failure.error.message()), (LoadStage::Initialize, "io error: closed".to_string()));

    let listing = || notifying().written(Ok(()), &TIMEOUTS).ok().unwrap();
    let failure = listing().replied(line("{\"error\":\"no\"}")).err().unwrap();
    assert_eq!((failure.stage, failure.error.message()), (LoadStage::ListTools, "mcp error: \"no\"".to_string()));
    let failure = listing().replied(Reply::TimedOut).err().unwrap();
    assert_eq!(
        failure.error.message(),
        "mcp error: timeout waiting for MCP response: method=tools/list timeout_ms=8"
    );

    let (step, _) = listing().replied(line("{}")).ok().unwrap();
    let failure = step.decoded(Err("missing field".to_string())).err().unwrap();
    assert_eq!((failure.stage, failure.error.message()), (LoadStage::ListTools, "json error: missing field".to_string()));
    assert_eq!(LoadStage::Start.text(), "start");
    assert_eq!(LoadStage::Initialize.text(), "initialize");
    assert_eq!(LoadStage::ListTools.text(), "list_tools");
}
