//! Tools: how they are described, named towards callers, and offered for registration.

use crate::json;
use crate::json::JsonView;
use vstd::prelude::*;
use vstd::string::*;

verus! {

/// A tool as its server, or this service, describes it.
pub struct ToolDefinition {
    pub name: String,
    pub description: String,
    pub input_schema: serde_json::Value,
}

/// What a tool's description is.
pub struct ToolView {
    pub name: Seq<char>,
    pub description: Seq<char>,
    pub input_schema: JsonView,
}

impl View for ToolDefinition {
    type V = ToolView;

    open spec fn view(&self) -> ToolView {
        ToolView {
            name: self.name@,
            description: self.description@,
            input_schema: json::document(self.input_schema),
        }
    }
}

/// The descriptions of a list of tools.
pub open spec fn tool_views(tools: Seq<ToolDefinition>) -> Seq<ToolView> {
    Seq::new(tools.len(), |i: int| tools[i]@)
}

/// Which server a tool belongs to, and its name there.
pub struct ToolRoute {
    pub server_name: String,
    pub remote_tool_name: String,
}

/// What a route leads to.
pub struct RouteView {
    pub server: Seq<char>,
    pub remote_tool: Seq<char>,
}

impl View for ToolRoute {
    type V = RouteView;

    open spec fn view(&self) -> RouteView {
        RouteView { server: self.server_name@, remote_tool: self.remote_tool_name@ }
    }
}

/// The name under which callers know a server's tool.
pub open spec fn exposed(server: Seq<char>, tool: Seq<char>) -> Seq<char> {
    "mcp."@ + server + "."@ + tool
}

/// What is offered for registration of a server's tool.
pub open spec fn registration(server: Seq<char>, tool: ToolView) -> JsonView {
    JsonView::Object(
        map![
            "name"@ => JsonView::Text(exposed(server, tool.name)),
            "description"@ => JsonView::Text("["@ + server + "] "@ + tool.description),
            "inputSchema"@ => tool.input_schema,
            "mcp"@ => JsonView::Object(
                map![
                    "server"@ => JsonView::Text(server),
                    "remoteTool"@ => JsonView::Text(tool.name),
                ],
            ),
        ],
    )
}

/// What is offered for registration of a server's tools.
pub open spec fn registrations(server: Seq<char>, tools: Seq<ToolView>) -> Seq<JsonView> {
    Seq::new(tools.len(), |i: int| registration(server, tools[i]))
}

/// Names a server's tool towards callers.
pub fn exposed_name(server: &str, tool: &str) -> (r: String)
    ensures
        r@ == exposed(server@, tool@),
{
    let mut r = "mcp.".to_owned();
    r.append(server);
    r.append(".");
    r.append(tool);
    r
}

/// Offers a server's tool for registration.
pub fn tool_registration(server: &str, tool: &ToolDefinition) -> (r: serde_json::Value)
    ensures
        json::document(r) == registration(server@, tool@),
        json::member(json::document(r), "name"@) == Some(
            JsonView::Text("mcp."@ + server@ + "."@ + tool.name@),
        ),
        json::member(json::document(r), "description"@) == Some(
            JsonView::Text("["@ + server@ + "] "@ + tool.description@),
        ),
        json::member(json::document(r), "inputSchema"@) == Some(json::document(tool.input_schema)),
{
    proof {
        definitions_describe_the_tool(server@, tool@);
    }
    let mut description = "[".to_owned();
    description.append(server);
    description.append("] ");
    description.append(tool.description.as_str());
    let mut origin = json::new_map();
    json::put(&mut origin, "server", json::text_value(server));
    json::put(&mut origin, "remoteTool", json::text_value(tool.name.as_str()));
    let mut fields = json::new_map();
    json::put(&mut fields, "name", json::string_value(exposed_name(server, tool.name.as_str())));
    json::put(&mut fields, "description", json::string_value(description));
    json::put(&mut fields, "inputSchema", tool.input_schema.clone());
    json::put(&mut fields, "mcp", json::object_value(origin));
    json::object_value(fields)
}

/// Adds what is offered of a server's tools to a list.
pub(crate) fn add_registrations(list: &mut Vec<serde_json::Value>, server: &str, tools: &Vec<ToolDefinition>)
    ensures
        json::documents(final(list)@) == json::documents(old(list)@) + registrations(
            server@,
            tool_views(tools@),
        ),
{
    let ghost before = json::documents(list@);
    let ghost all = registrations(server@, tool_views(tools@));
    let mut i: usize = 0;
    assert(json::documents(list@) =~= before + all.take(0));
    while i < tools.len()
        invariant
            i <= tools.len(),
            all == registrations(server@, tool_views(tools@)),
            json::documents(list@) == before + all.take(i as int),
        decreases tools.len() - i,
    {
        let ghost here = list@;
        let value = tool_registration(server, &tools[i]);
        list.push(value);
        proof {
            assert(json::documents(list@) =~= json::documents(here).push(json::document(value)));
            assert(all.take(i + 1) =~= all.take(i as int).push(all[i as int]));
            assert(json::documents(list@) =~= before + all.take(i + 1));
        }
        i = i + 1;
    }
    assert(all.take(i as int) =~= all);
}

/// The schema of an argument with a type and a description.
pub open spec fn described(kind: Seq<char>, description: Seq<char>) -> JsonView {
    JsonView::Object(
        map!["type"@ => JsonView::Text(kind), "description"@ => JsonView::Text(description)],
    )
}

/// The tool that loads a configuration.
pub open spec fn load_config_tool() -> ToolView {
    ToolView {
        name: "mcp.load_config"@,
        description: "加载 MCP 配置单，启动其中的 MCP Server，并发现全部工具"@,
        input_schema: JsonView::Object(
            map![
                "type"@ => JsonView::Text("object"@),
                "properties"@ => JsonView::Object(
                    map![
                        "configPath"@ => described("string"@, "MCP 配置文件路径"@),
                        "config"@ => described("object"@, "内联 MCP 配置，格式为 { mcpServers: {...} }"@),
                    ],
                ),
            ],
        ),
    }
}

/// The tool that lists what is loaded.
pub open spec fn list_tools_tool() -> ToolView {
    ToolView {
        name: "mcp.list_tools"@,
        description: "列出已经加载的 MCP 工具，返回可注册给 AgentKernel 的工具清单"@,
        input_schema: JsonView::Object(
            map![
                "type"@ => JsonView::Text("object"@),
                "properties"@ => json::empty_object(),
            ],
        ),
    }
}

/// The tool that calls a tool.
pub open spec fn call_tool_tool() -> ToolView {
    ToolView {
        name: "mcp.call_tool"@,
        description: "代理执行已经发现的 MCP 工具"@,
        input_schema: JsonView::Object(
            map![
                "type"@ => JsonView::Text("object"@),
                "properties"@ => JsonView::Object(
                    map![
                        "name"@ => described(
                            "string"@,
                            "业务端注册时拿到的工具名，如 mcp.local-code-suite.read"@,
                        ),
                        "arguments"@ => JsonView::Object(map!["type"@ => JsonView::Text("object"@)]),
                    ],
                ),
                "required"@ => json::text_array(seq!["name"@]),
            ],
        ),
    }
}

fn described_value(kind: &str, description: &str) -> (r: serde_json::Value)
    ensures
        json::document(r) == described(kind@, description@),
{
    let mut fields = json::new_map();
    json::put(&mut fields, "type", json::text_value(kind));
    json::put(&mut fields, "description", json::text_value(description));
    json::object_value(fields)
}

fn load_config_definition() -> (r: ToolDefinition)
    ensures
        r@ == load_config_tool(),
{
    let mut properties = json::new_map();
    json::put(&mut properties, "configPath", described_value("string", "MCP 配置文件路径"));
    json::put(
        &mut properties,
        "config",
        described_value("object", "内联 MCP 配置，格式为 { mcpServers: {...} }"),
    );
    let mut schema = json::new_map();
    json::put(&mut schema, "type", json::text_value("object"));
    json::put(&mut schema, "properties", json::object_value(properties));
    ToolDefinition {
        name: "mcp.load_config".to_owned(),
        description: "加载 MCP 配置单，启动其中的 MCP Server，并发现全部工具".to_owned(),
        input_schema: json::object_value(schema),
    }
}

fn list_tools_definition() -> (r: ToolDefinition)
    ensures
        r@ == list_tools_tool(),
{
    let mut schema = json::new_map();
    json::put(&mut schema, "type", json::text_value("object"));
    json::put(&mut schema, "properties", json::empty_object_value());
    ToolDefinition {
        name: "mcp.list_tools".to_owned(),
        description: "列出已经加载的 MCP 工具，返回可注册给 AgentKernel 的工具清单".to_owned(),
        input_schema: json::object_value(schema),
    }
}

fn call_tool_definition() -> (r: ToolDefinition)
    ensures
        r@ == call_tool_tool(),
{
    let mut arguments = json::new_map();
    json::put(&mut arguments, "type", json::text_value("object"));
    let mut properties = json::new_map();
    json::put(
        &mut properties,
        "name",
        described_value("string", "业务端注册时拿到的工具名，如 mcp.local-code-suite.read"),
    );
    json::put(&mut properties, "arguments", json::object_value(arguments));
    let mut required: Vec<serde_json::Value> = Vec::new();
    required.push(json::text_value("name"));
    assert(json::documents(required@) =~= json::text_array(seq!["name"@])->Array_0);
    let mut schema = json::new_map();
    json::put(&mut schema, "type", json::text_value("object"));
    json::put(&mut schema, "properties", json::object_value(properties));
    json::put(&mut schema, "required", json::array_value(required));
    ToolDefinition {
        name: "mcp.call_tool".to_owned(),
        description: "代理执行已经发现的 MCP 工具".to_owned(),
        input_schema: json::object_value(schema),
    }
}

/// Describes the tools of this service itself.
pub fn framework_tools() -> (r: Vec<ToolDefinition>)
    ensures
        tool_views(r@) == seq![load_config_tool(), list_tools_tool(), call_tool_tool()],
{
    let mut r: Vec<ToolDefinition> = Vec::new();
    r.push(load_config_definition());
    r.push(list_tools_definition());
    r.push(call_tool_definition());
    assert(tool_views(r@) =~= seq![load_config_tool(), list_tools_tool(), call_tool_tool()]);
    r
}

/// The names that callers know, those of servers' tools and those of this service's own, all start
/// with the same prefix.
pub proof fn names_start_with_the_prefix(server: Seq<char>, tool: Seq<char>)
    ensures
        "mcp."@.is_prefix_of(exposed(server, tool)),
        "mcp."@.is_prefix_of(load_config_tool().name),
        "mcp."@.is_prefix_of(list_tools_tool().name),
        "mcp."@.is_prefix_of(call_tool_tool().name),
{
    reveal_strlit("mcp.");
    reveal_strlit("mcp.load_config");
    reveal_strlit("mcp.list_tools");
    reveal_strlit("mcp.call_tool");
    assert(exposed(server, tool).take(4) =~= "mcp."@);
    assert(load_config_tool().name.take(4) =~= "mcp."@);
    assert(list_tools_tool().name.take(4) =~= "mcp."@);
    assert(call_tool_tool().name.take(4) =~= "mcp."@);
}

/// No server's tool is exposed under the name of one of this service's own tools.
pub proof fn own_names_are_not_exposed(server: Seq<char>, tool: Seq<char>)
    ensures
        exposed(server, tool) != load_config_tool().name,
        exposed(server, tool) != list_tools_tool().name,
        exposed(server, tool) != call_tool_tool().name,
{
    reveal_strlit("mcp.");
    reveal_strlit(".");
    reveal_strlit("mcp.load_config");
    reveal_strlit("mcp.list_tools");
    reveal_strlit("mcp.call_tool");
    let at = 4int + server.len();
    assert(exposed(server, tool)[at] == '.');
    assert(at < load_config_tool().name.len() ==> load_config_tool().name[at] != '.');
    assert(at < list_tools_tool().name.len() ==> list_tools_tool().name[at] != '.');
    assert(at < call_tool_tool().name.len() ==> call_tool_tool().name[at] != '.');
}

/// Two tools of one server are never exposed under one name.
pub proof fn names_tell_tools_apart(server: Seq<char>, tool: Seq<char>, other: Seq<char>)
    requires
        exposed(server, tool) == exposed(server, other),
    ensures
        tool == other,
{
    let start = "mcp."@ + server + "."@;
    assert(exposed(server, tool).skip(start.len() as int) =~= tool);
    assert(exposed(server, other).skip(start.len() as int) =~= other);
}

/// Tools of servers without a dot in their names are exposed under one name only where server and
/// tool are the same.
pub proof fn names_tell_servers_apart(
    server: Seq<char>,
    tool: Seq<char>,
    other_server: Seq<char>,
    other_tool: Seq<char>,
)
    requires
        !server.contains('.'),
        !other_server.contains('.'),
        exposed(server, tool) == exposed(other_server, other_tool),
    ensures
        server == other_server,
        tool == other_tool,
{
    reveal_strlit("mcp.");
    reveal_strlit(".");
    let name = exposed(server, tool);
    assert(name[4int + server.len()] == '.');
    assert(name[4int + other_server.len()] == '.');
    if server.len() < other_server.len() {
        assert(name[4int + server.len()] == other_server[server.len() as int]);
        assert(other_server.contains('.'));
    }
    if other_server.len() < server.len() {
        assert(name[4int + other_server.len()] == server[other_server.len() as int]);
        assert(server.contains('.'));
    }
    assert(name.subrange(4, 4int + server.len()) =~= server);
    assert(name.subrange(4, 4int + server.len()) =~= other_server);
    names_tell_tools_apart(server, tool, other_tool);
}

/// What is offered of a tool is the tool: the name that it is exposed under, a description that ends
/// with its own, the schema that its server described it with, and where it comes from. Nothing else
/// is offered.
pub proof fn definitions_describe_the_tool(server: Seq<char>, tool: ToolView)
    ensures
        json::member(registration(server, tool), "name"@) == Some(
            JsonView::Text("mcp."@ + server + "."@ + tool.name),
        ),
        json::member(registration(server, tool), "description"@) == Some(
            JsonView::Text("["@ + server + "] "@ + tool.description),
        ),
        json::member(registration(server, tool), "inputSchema"@) == Some(tool.input_schema),
        json::member(registration(server, tool), "mcp"@) matches Some(origin) && json::member(origin, "server"@)
            == Some(JsonView::Text(server)) && json::member(origin, "remoteTool"@) == Some(
            JsonView::Text(tool.name),
        ) && (forall|key: Seq<char>| #[trigger]
            json::member(origin, key) is Some ==> key == "server"@ || key == "remoteTool"@),
        forall|key: Seq<char>| #[trigger]
            json::member(registration(server, tool), key) is Some ==> key == "name"@ || key == "description"@ || key
                == "inputSchema"@ || key == "mcp"@,
{
    reveal_strlit("name");
    reveal_strlit("description");
    reveal_strlit("inputSchema");
    reveal_strlit("mcp");
    reveal_strlit("server");
    reveal_strlit("remoteTool");
    assert("name"@.len() == 4 && "description"@.len() == 11 && "inputSchema"@.len() == 11 && "mcp"@.len() == 3);
    assert("description"@[0] != "inputSchema"@[0]);
    assert("server"@.len() != "remoteTool"@.len());
}

/// The tools of a server are offered one by one, each under the server's name, in their order.
pub proof fn every_tool_is_offered(server: Seq<char>, tools: Seq<ToolView>)
    ensures
        registrations(server, tools).len() == tools.len(),
        forall|i: int|
            0 <= i < tools.len() ==> #[trigger] registrations(server, tools)[i] == registration(server, tools[i]),
{
}

/// A tool is what it is described with, and a list of tools has each in its place.
pub proof fn tools_are_what_they_are_described_with(tools: Seq<ToolDefinition>, i: int)
    requires
        0 <= i < tools.len(),
    ensures
        tool_views(tools).len() == tools.len(),
        tool_views(tools)[i].name == tools[i].name@,
        tool_views(tools)[i].description == tools[i].description@,
        tool_views(tools)[i].input_schema == json::document(tools[i].input_schema),
{
}

/// An exposed name is made of the prefix, the server's name, a dot and the tool's name, each whole
/// and in its place.
pub proof fn names_hold_server_and_tool(server: Seq<char>, tool: Seq<char>)
    ensures
        exposed(server, tool).len() == 5 + server.len() + tool.len(),
        exposed(server, tool).take(4) == "mcp."@,
        exposed(server, tool).subrange(4, 4int + server.len()) == server,
        exposed(server, tool)[4int + server.len()] == '.',
        exposed(server, tool).skip(5int + server.len()) == tool,
{
    reveal_strlit("mcp.");
    reveal_strlit(".");
    assert(exposed(server, tool).take(4) =~= "mcp."@);
    assert(exposed(server, tool).subrange(4, 4int + server.len()) =~= server);
    assert(exposed(server, tool).skip(5int + server.len()) =~= tool);
}

/// A route leads to the server and the tool that it names.
pub proof fn routes_lead_where_they_say(route: ToolRoute)
    ensures
        route@.server == route.server_name@,
        route@.remote_tool == route.remote_tool_name@,
{
}

} // verus!
