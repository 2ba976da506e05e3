//! Loading a configuration: one server after the other comes up or fails, and in the end what came
//! up takes the place of what was loaded before.

use crate::config;
use crate::config::{ConfigEnvelope, McpServerConfig, ServerConfigView};
use crate::error::{ErrorView, FrameworkError};
use crate::json;
use crate::json::JsonView;
use crate::registry;
use crate::registry::{AppState, EntryView, StateView};
use crate::startup::{LoadStage, StageFailure};
use crate::table;
use crate::text;
use crate::tools;
use crate::tools::{RouteView, ToolDefinition, ToolView};
use vstd::prelude::*;
use vstd::string::*;

verus! {

/// A server that did not come up.
pub struct FailedServerInfo {
    pub name: String,
    pub command: String,
    pub args: Vec<String>,
    pub stage: String,
    pub error: String,
    pub duration_ms: u128,
}

/// What is known of a server that did not come up.
#[verifier::ext_equal]
pub struct FailedView {
    pub name: Seq<char>,
    pub command: Seq<char>,
    pub args: Seq<Seq<char>>,
    pub stage: Seq<char>,
    pub error: Seq<char>,
    pub duration_ms: nat,
}

impl View for FailedServerInfo {
    type V = FailedView;

    open spec fn view(&self) -> FailedView {
        FailedView {
            name: self.name@,
            command: self.command@,
            args: text::texts(self.args@),
            stage: self.stage@,
            error: self.error@,
            duration_ms: self.duration_ms as nat,
        }
    }
}

/// What is known of a list of servers that did not come up.
pub open spec fn failed_views(failed: Seq<FailedServerInfo>) -> Seq<FailedView> {
    Seq::new(failed.len(), |i: int| failed[i]@)
}

impl FailedView {
    /// The server in a summary: its name, the stage and the error.
    pub open spec fn summary(self) -> Seq<char> {
        self.name + ":"@ + self.stage + ":"@ + self.error
    }

    /// The server in a report.
    pub open spec fn report(self) -> JsonView {
        JsonView::Object(
            map![
                "name"@ => JsonView::Text(self.name),
                "command"@ => JsonView::Text(self.command),
                "args"@ => json::text_array(self.args),
                "stage"@ => JsonView::Text(self.stage),
                "error"@ => JsonView::Text(self.error),
                "durationMs"@ => JsonView::Integer(self.duration_ms as int),
            ],
        )
    }
}

/// The summary of servers that did not come up.
pub open spec fn failure_summary(failed: Seq<FailedView>) -> Seq<char> {
    text::joined(Seq::new(failed.len(), |i: int| failed[i].summary()), " | "@)
}

/// The summary of two lists is the summary of the one and of the other, joined like their parts.
pub proof fn summaries_are_joined(a: Seq<FailedView>, b: Seq<FailedView>)
    requires
        a.len() > 0,
        b.len() > 0,
    ensures
        failure_summary(a + b) == failure_summary(a) + " | "@ + failure_summary(b),
{
    let left = Seq::new(a.len(), |i: int| a[i].summary());
    let right = Seq::new(b.len(), |i: int| b[i].summary());
    assert(Seq::new((a + b).len(), |i: int| (a + b)[i].summary()) =~= left + right);
    text::joining_lists_joins_them(left, right, " | "@);
}

/// Sums up the servers that did not come up.
pub fn summarize_failed_servers(failed_servers: &[FailedServerInfo]) -> (r: String)
    ensures
        r@ == failure_summary(failed_views(failed_servers@)),
{
    let ghost views = failed_views(failed_servers@);
    let ghost parts = Seq::new(views.len(), |i: int| views[i].summary());
    let mut r = String::new();
    let mut i: usize = 0;
    while i < failed_servers.len()
        invariant
            i <= failed_servers.len(),
            views == failed_views(failed_servers@),
            parts == Seq::new(views.len(), |i: int| views[i].summary()),
            r@ == text::joined(parts.take(i as int), " | "@),
        decreases failed_servers.len() - i,
    {
        let item = &failed_servers[i];
        let ghost before = r@;
        if i > 0 {
            r.append(" | ");
        }
        let ghost start = r@;
        r.append(item.name.as_str());
        r.append(":");
        r.append(item.stage.as_str());
        r.append(":");
        r.append(item.error.as_str());
        proof {
            assert(parts.take(i + 1).drop_last() =~= parts.take(i as int));
            assert(parts.take(i + 1).last() == item@.summary());
            assert(r@ =~= start + item@.summary());
            if i == 0 {
                assert(before =~= Seq::<char>::empty());
                assert(r@ =~= item@.summary());
            }
        }
        i = i + 1;
    }
    assert(parts.take(i as int) =~= parts);
    r
}

/// What came of one server.
pub enum ServerOutcome<S> {
    /// It came up: the handle through which it is reached, and its tools.
    Loaded { server: S, tools: Seq<ToolView> },
    /// It failed: the stage, the text of the error, and the time that the stage took.
    Failed { stage: LoadStage, error: Seq<char>, duration_ms: nat },
}

/// A load under way: the servers to bring up, and what came of the first of them.
pub struct LoadView<S> {
    pub servers: Seq<(Seq<char>, ServerConfigView)>,
    pub outcomes: Seq<ServerOutcome<S>>,
}

/// A server that came up, in a report.
pub open spec fn loaded_report(name: Seq<char>, config: ServerConfigView, tool_count: nat) -> JsonView {
    JsonView::Object(
        map![
            "name"@ => JsonView::Text(name),
            "command"@ => JsonView::Text(config.command),
            "args"@ => json::text_array(config.args),
            "toolCount"@ => JsonView::Integer(tool_count as int),
        ],
    )
}

impl<S> LoadView<S> {
    /// The load before the last outcome.
    pub open spec fn earlier(self) -> LoadView<S> {
        LoadView { outcomes: self.outcomes.drop_last(), ..self }
    }

    /// The load after one more outcome.
    pub open spec fn with(self, outcome: ServerOutcome<S>) -> LoadView<S> {
        LoadView { outcomes: self.outcomes.push(outcome), ..self }
    }

    /// The server whose outcome is the last.
    pub open spec fn last_server(self) -> (Seq<char>, ServerConfigView) {
        self.servers[self.outcomes.len() - 1]
    }

    /// Every server has an outcome.
    pub open spec fn complete(self) -> bool {
        self.outcomes.len() == self.servers.len()
    }

    /// The servers that came up, with routes to their tools.
    pub open spec fn state(self) -> StateView<S>
        decreases self.outcomes.len(),
    {
        if self.outcomes.len() == 0 {
            StateView::empty()
        } else {
            match self.outcomes.last() {
                ServerOutcome::Loaded { server, tools } => self.earlier().state().installed(
                    self.last_server().0,
                    EntryView { server, tools },
                ),
                ServerOutcome::Failed { .. } => self.earlier().state(),
            }
        }
    }

    /// The reports on the servers that came up.
    pub open spec fn loaded(self) -> Seq<JsonView>
        decreases self.outcomes.len(),
    {
        if self.outcomes.len() == 0 {
            Seq::empty()
        } else {
            match self.outcomes.last() {
                ServerOutcome::Loaded { server, tools } => self.earlier().loaded().push(
                    loaded_report(self.last_server().0, self.last_server().1, tools.len()),
                ),
                ServerOutcome::Failed { .. } => self.earlier().loaded(),
            }
        }
    }

    /// The servers that did not come up.
    pub open spec fn failed(self) -> Seq<FailedView>
        decreases self.outcomes.len(),
    {
        if self.outcomes.len() == 0 {
            Seq::empty()
        } else {
            match self.outcomes.last() {
                ServerOutcome::Loaded { .. } => self.earlier().failed(),
                ServerOutcome::Failed { stage, error, duration_ms } => self.earlier().failed().push(
                    FailedView {
                        name: self.last_server().0,
                        command: self.last_server().1.command,
                        args: self.last_server().1.args,
                        stage: stage.label(),
                        error,
                        duration_ms,
                    },
                ),
            }
        }
    }

    /// What is offered of the tools of the servers that came up.
    pub open spec fn tools(self) -> Seq<JsonView>
        decreases self.outcomes.len(),
    {
        if self.outcomes.len() == 0 {
            Seq::empty()
        } else {
            match self.outcomes.last() {
                ServerOutcome::Loaded { server, tools } => self.earlier().tools()
                    + tools::registrations(self.last_server().0, tools),
                ServerOutcome::Failed { .. } => self.earlier().tools(),
            }
        }
    }

    /// Servers were asked for, and none came up.
    pub open spec fn all_failed(self) -> bool {
        self.servers.len() > 0 && self.loaded().len() == 0 && self.failed().len() > 0
    }

    /// No stage took longer than a report can tell.
    pub open spec fn reportable(self) -> bool {
        forall|i: int| 0 <= i < self.failed().len() ==> (#[trigger] self.failed()[i]).duration_ms <= u64::MAX
    }

    /// The error when no server came up.
    pub open spec fn error(self) -> ErrorView {
        ErrorView::Mcp(
            "all MCP servers failed to load, keeping previous state: "@ + failure_summary(self.failed()),
        )
    }

    /// The report on the load.
    pub open spec fn report(self) -> JsonView {
        JsonView::Object(
            map![
                "loadedServers"@ => JsonView::Array(self.loaded()),
                "failedServers"@ => JsonView::Array(
                    Seq::new(self.failed().len(), |i: int| self.failed()[i].report()),
                ),
                "loadedServerCount"@ => JsonView::Integer(self.loaded().len() as int),
                "failedServerCount"@ => JsonView::Integer(self.failed().len() as int),
                "tools"@ => JsonView::Array(self.tools()),
                "toolCount"@ => JsonView::Integer(self.tools().len() as int),
            ],
        )
    }
}

impl<S> LoadView<S> {
    /// The servers are well formed, and no more have an outcome than there are.
    pub open spec fn well_formed(self) -> bool {
        &&& config::well_formed_servers(self.servers)
        &&& self.outcomes.len() <= self.servers.len()
    }

    /// Whether the server at a place came up and exposes the name.
    pub open spec fn exposes(self, i: int, name: Seq<char>) -> bool {
        &&& 0 <= i < self.outcomes.len()
        &&& self.outcomes[i] matches ServerOutcome::Loaded { server, tools } && registry::exposes(
            self.servers[i].0,
            tools,
            name,
        )
    }
}

/// Every outcome is reported once: as a server that came up, or as one that did not.
pub proof fn every_server_is_reported<S>(load: LoadView<S>)
    ensures
        load.loaded().len() + load.failed().len() == load.outcomes.len(),
    decreases load.outcomes.len(),
{
    if load.outcomes.len() > 0 {
        every_server_is_reported(load.earlier());
    }
}

/// What a load brings up is well formed.
pub proof fn loading_gives_a_well_formed_state<S>(load: LoadView<S>)
    ensures
        load.state().well_formed(),
    decreases load.outcomes.len(),
{
    if load.outcomes.len() > 0 {
        loading_gives_a_well_formed_state(load.earlier());
        if let ServerOutcome::Loaded { server, tools } = load.outcomes.last() {
            registry::installing_keeps_well_formed(
                load.earlier().state(),
                load.last_server().0,
                EntryView { server, tools },
            );
        }
    }
}

proof fn lemma_not_yet_loaded<S>(load: LoadView<S>, k: int)
    requires
        load.well_formed(),
        load.outcomes.len() <= k < load.servers.len(),
    ensures
        table::lookup(load.state().servers, load.servers[k].0) is None,
    decreases load.outcomes.len(),
{
    if load.outcomes.len() > 0 {
        lemma_not_yet_loaded(load.earlier(), k);
        if let ServerOutcome::Loaded { server, tools } = load.outcomes.last() {
            let last = load.outcomes.len() - 1;
            assert(table::names(load.servers)[k] != table::names(load.servers)[last]);
            loading_gives_a_well_formed_state(load.earlier());
            table::lemma_inserted(
                load.earlier().state().servers,
                load.last_server().0,
                EntryView { server, tools },
            );
        }
    }
}

/// After a load the tools that are listed are those that the load reported, in the same order.
pub proof fn listing_agrees_with_the_report<S>(load: LoadView<S>)
    requires
        load.well_formed(),
    ensures
        registry::offered(load.state().servers) == load.tools(),
    decreases load.outcomes.len(),
{
    if load.outcomes.len() > 0 {
        listing_agrees_with_the_report(load.earlier());
        if let ServerOutcome::Loaded { server, tools } = load.outcomes.last() {
            let before = load.earlier().state().servers;
            let row = (load.last_server().0, EntryView { server, tools });
            lemma_not_yet_loaded(load.earlier(), load.outcomes.len() - 1);
            assert(load.state().servers == before.push(row));
            assert(before.push(row).drop_last() =~= before);
        }
    }
}

/// After a load a call of a name that no server exposes finds no tool: nothing of what was loaded
/// before is left.
pub proof fn only_loaded_tools_are_called<S>(load: LoadView<S>, name: Seq<char>)
    requires
        load.well_formed(),
        forall|i: int| !load.exposes(i, name),
    ensures
        load.state().resolve(name) == Err::<(S, RouteView), ErrorView>(ErrorView::ToolNotFound(name)),
    decreases load.outcomes.len(),
{
    if load.outcomes.len() > 0 {
        let earlier = load.earlier();
        assert forall|i: int| !earlier.exposes(i, name) by {
            assert(!load.exposes(i, name));
        }
        only_loaded_tools_are_called(earlier, name);
        if let ServerOutcome::Loaded { server, tools } = load.outcomes.last() {
            assert(!load.exposes(load.outcomes.len() - 1, name));
            loading_gives_a_well_formed_state(earlier);
            registry::installing_keeps_other_calls(
                earlier.state(),
                load.last_server().0,
                EntryView { server, tools },
                name,
            );
        }
    } else {
        assert(!table::names(load.state().routes).contains(name));
    }
}

/// After a load a call of a tool that was reported reaches its server and the tool of that name
/// there, unless a server that came up later exposes the same name.
pub proof fn loaded_tools_are_called<S>(load: LoadView<S>, i: int, server: S, tools: Seq<ToolView>, j: int)
    requires
        load.well_formed(),
        0 <= i < load.outcomes.len(),
        load.outcomes[i] == (ServerOutcome::Loaded { server, tools }),
        0 <= j < tools.len(),
        forall|k: int| k > i ==> !load.exposes(k, tools::exposed(load.servers[i].0, tools[j].name)),
    ensures
        load.state().resolve(tools::exposed(load.servers[i].0, tools[j].name)) == Ok::<
            (S, RouteView),
            ErrorView,
        >((server, RouteView { server: load.servers[i].0, remote_tool: tools[j].name })),
    decreases load.outcomes.len(),
{
    let name = tools::exposed(load.servers[i].0, tools[j].name);
    let earlier = load.earlier();
    let last = load.outcomes.len() - 1;
    loading_gives_a_well_formed_state(earlier);
    if i == last {
        registry::installed_tools_are_reached(
            earlier.state(),
            load.last_server().0,
            EntryView { server, tools },
            j,
        );
    } else {
        assert forall|k: int| k > i implies !earlier.exposes(k, name) by {
            assert(!load.exposes(k, name));
        }
        loaded_tools_are_called(earlier, i, server, tools, j);
        if let ServerOutcome::Loaded { server: other, tools: others } = load.outcomes.last() {
            assert(!load.exposes(last, name));
            assert(table::names(load.servers)[i] != table::names(load.servers)[last]);
            registry::installing_keeps_other_calls(
                earlier.state(),
                load.last_server().0,
                EntryView { server: other, tools: others },
                name,
            );
        }
    }
}

/// Where no server has a dot in its name, every tool that was reported is called by its exposed
/// name.
pub proof fn tools_of_plain_servers_are_called<S>(
    load: LoadView<S>,
    i: int,
    server: S,
    tools: Seq<ToolView>,
    j: int,
)
    requires
        load.well_formed(),
        0 <= i < load.outcomes.len(),
        load.outcomes[i] == (ServerOutcome::Loaded { server, tools }),
        0 <= j < tools.len(),
        forall|k: int| 0 <= k < load.servers.len() ==> !(#[trigger] load.servers[k]).0.contains('.'),
    ensures
        load.state().resolve(tools::exposed(load.servers[i].0, tools[j].name)) == Ok::<
            (S, RouteView),
            ErrorView,
        >((server, RouteView { server: load.servers[i].0, remote_tool: tools[j].name })),
{
    let name = tools::exposed(load.servers[i].0, tools[j].name);
    assert forall|k: int| k > i implies !load.exposes(k, name) by {
        if load.exposes(k, name) {
            let others = load.outcomes[k]->tools;
            let m = choose|m: int|
                0 <= m < others.len() && tools::exposed(load.servers[k].0, (#[trigger] others[m]).name)
                    == name;
            tools::names_tell_servers_apart(
                load.servers[i].0,
                tools[j].name,
                load.servers[k].0,
                others[m].name,
            );
            assert(table::names(load.servers)[i] != table::names(load.servers)[k]);
        }
    }
    loaded_tools_are_called(load, i, server, tools, j);
}

proof fn lemma_registered_name(server: Seq<char>, tool: ToolView)
    ensures
        json::member(tools::registration(server, tool), "name"@) == Some(
            JsonView::Text(tools::exposed(server, tool.name)),
        ),
{
    reveal_strlit("name");
    reveal_strlit("description");
    reveal_strlit("inputSchema");
    reveal_strlit("mcp");
    assert("name"@.len() != "description"@.len());
    assert("name"@.len() != "inputSchema"@.len());
    assert("name"@.len() != "mcp"@.len());
}

/// After a load every tool that was reported is found under the name that it was reported with,
/// also where several servers expose that name.
pub proof fn reported_names_are_found<S>(load: LoadView<S>, m: int)
    requires
        load.well_formed(),
        0 <= m < load.tools().len(),
    ensures
        json::member(load.tools()[m], "name"@) matches Some(JsonView::Text(name)) && load.state().resolve(
            name,
        ) is Ok,
    decreases load.outcomes.len(),
{
    let earlier = load.earlier();
    if let ServerOutcome::Loaded { server, tools } = load.outcomes.last() {
        let before = earlier.tools();
        let last = load.last_server().0;
        let entry = EntryView { server, tools };
        loading_gives_a_well_formed_state(earlier);
        if m < before.len() {
            reported_names_are_found(earlier, m);
            assert(load.tools()[m] == before[m]);
            let name = json::member(before[m], "name"@)->0->Text_0;
            if registry::exposes(last, tools, name) {
                let j = choose|j: int|
                    0 <= j < tools.len() && tools::exposed(last, (#[trigger] tools[j]).name) == name;
                registry::installed_tools_are_reached(earlier.state(), last, entry, j);
            } else {
                registry::calls_reach_a_loaded_tool(earlier.state(), name);
                lemma_not_yet_loaded(earlier, load.outcomes.len() - 1);
                registry::installing_keeps_other_calls(earlier.state(), last, entry, name);
            }
        } else {
            let j = m - before.len();
            assert(load.tools()[m] == tools::registration(last, tools[j]));
            lemma_registered_name(last, tools[j]);
            registry::installed_tools_are_reached(earlier.state(), last, entry, j);
        }
    } else {
        reported_names_are_found(earlier, m);
    }
}

/// A load under way.
pub struct LoadSession<S> {
    config: ConfigEnvelope,
    position: usize,
    state: AppState<S>,
    loaded: Vec<serde_json::Value>,
    failed: Vec<FailedServerInfo>,
    tools: Vec<serde_json::Value>,
    outcomes: Ghost<Seq<ServerOutcome<S>>>,
}

impl<S> View for LoadSession<S> {
    type V = LoadView<S>;

    closed spec fn view(&self) -> LoadView<S> {
        LoadView { servers: self.config@, outcomes: self.outcomes@ }
    }
}

fn loaded_report_value(name: &String, config: &McpServerConfig, tool_count: usize) -> (r: serde_json::Value)
    ensures
        json::document(r) == loaded_report(name@, config@, tool_count as nat),
{
    let mut fields = json::new_map();
    json::put(&mut fields, "name", json::text_value(name.as_str()));
    json::put(&mut fields, "command", json::text_value(config.command.as_str()));
    json::put(&mut fields, "args", json::text_array_value(&config.args));
    json::put(&mut fields, "toolCount", json::count_value(tool_count));
    json::object_value(fields)
}

fn failed_report_value(info: &FailedServerInfo) -> (r: serde_json::Value)
    requires
        info.duration_ms <= u64::MAX,
    ensures
        json::document(r) == info@.report(),
{
    let mut fields = json::new_map();
    json::put(&mut fields, "name", json::text_value(info.name.as_str()));
    json::put(&mut fields, "command", json::text_value(info.command.as_str()));
    json::put(&mut fields, "args", json::text_array_value(&info.args));
    json::put(&mut fields, "stage", json::text_value(info.stage.as_str()));
    json::put(&mut fields, "error", json::text_value(info.error.as_str()));
    json::put(&mut fields, "durationMs", json::number_value(info.duration_ms as u64));
    json::object_value(fields)
}

fn copied(items: &Vec<String>) -> (r: Vec<String>)
    ensures
        text::texts(r@) == text::texts(items@),
{
    let mut r: Vec<String> = Vec::new();
    let mut i: usize = 0;
    while i < items.len()
        invariant
            i <= items.len(),
            r@.len() == i,
            forall|j: int| 0 <= j < i ==> (#[trigger] r@[j])@ == items@[j]@,
        decreases items.len() - i,
    {
        r.push(items[i].clone());
        i = i + 1;
    }
    assert(text::texts(r@) =~= text::texts(items@));
    r
}

impl<S> LoadSession<S> {
    /// The lists kept while loading tell what came of the servers so far.
    pub closed spec fn well_formed(&self) -> bool {
        &&& self.config.well_formed()
        &&& self.position == self.outcomes@.len()
        &&& self.position <= self.config@.len()
        &&& self.state.well_formed()
        &&& self.state@ == self@.state()
        &&& json::documents(self.loaded@) == self@.loaded()
        &&& failed_views(self.failed@) == self@.failed()
        &&& json::documents(self.tools@) == self@.tools()
    }

    /// Begins to load a configuration.
    pub fn begin(config: ConfigEnvelope) -> (r: LoadSession<S>)
        requires
            config.well_formed(),
        ensures
            r.well_formed(),
            r@.well_formed(),
            r@.servers == config@,
            r@.outcomes.len() == 0,
    {
        let r = LoadSession {
            config,
            position: 0,
            state: AppState::new(),
            loaded: Vec::new(),
            failed: Vec::new(),
            tools: Vec::new(),
            outcomes: Ghost(Seq::empty()),
        };
        proof {
            assert(json::documents(r.loaded@) =~= r@.loaded());
            assert(failed_views(r.failed@) =~= r@.failed());
            assert(json::documents(r.tools@) =~= r@.tools());
        }
        r
    }

    /// The server to bring up next.
    pub fn current(&self) -> (r: Option<(&String, &McpServerConfig)>)
        requires
            self.well_formed(),
        ensures
            match r {
                Some((name, config)) => self@.outcomes.len() < self@.servers.len() && (name@, config@)
                    == self@.servers[self@.outcomes.len() as int],
                None => self@.complete(),
            },
    {
        if self.position < self.config.mcp_servers.len() {
            Some((
                self.config.mcp_servers.name_at(self.position),
                self.config.mcp_servers.value_at(self.position),
            ))
        } else {
            None
        }
    }

    /// Notes that the current server came up.
    pub fn server_loaded(&mut self, server: S, tools: Vec<ToolDefinition>)
        requires
            old(self).well_formed(),
            !old(self)@.complete(),
        ensures
            final(self).well_formed(),
            final(self)@.well_formed(),
            final(self)@ == old(self)@.with(
                ServerOutcome::Loaded { server, tools: tools::tool_views(tools@) },
            ),
    {
        let ghost outcome = ServerOutcome::Loaded { server, tools: tools::tool_views(tools@) };
        let ghost before = self@;
        let name = self.config.mcp_servers.name_at(self.position).clone();
        let config = self.config.mcp_servers.value_at(self.position);
        let ghost row = self.config@[self.position as int];
        let report = loaded_report_value(&name, config, tools.len());
        let ghost loaded_before = self.loaded@;
        self.loaded.push(report);
        tools::add_registrations(&mut self.tools, name.as_str(), &tools);
        self.state.install(name, server, tools);
        proof {
            self.config.mcp_servers.lemma_len();
        }
        self.position = self.position + 1;
        self.outcomes = Ghost(self.outcomes@.push(outcome));
        proof {
            assert(self@ == before.with(outcome));
            assert(self@.earlier().outcomes =~= before.outcomes);
            assert(self@.earlier() == before);
            assert(self@.last_server() == row);
            assert(json::documents(self.loaded@) =~= json::documents(loaded_before).push(
                json::document(report),
            ));
        }
    }

    /// Notes that the current server did not come up.
    pub fn server_failed(&mut self, failure: StageFailure, duration_ms: u128)
        requires
            old(self).well_formed(),
            !old(self)@.complete(),
        ensures
            final(self).well_formed(),
            final(self)@.well_formed(),
            final(self)@ == old(self)@.with(
                ServerOutcome::Failed {
                    stage: failure@.stage,
                    error: failure@.error.message(),
                    duration_ms: duration_ms as nat,
                },
            ),
    {
        let ghost outcome = ServerOutcome::<S>::Failed {
            stage: failure@.stage,
            error: failure@.error.message(),
            duration_ms: duration_ms as nat,
        };
        let ghost before = self@;
        let ghost row = self.config@[self.position as int];
        let config = self.config.mcp_servers.value_at(self.position);
        let info = FailedServerInfo {
            name: self.config.mcp_servers.name_at(self.position).clone(),
            command: config.command.clone(),
            args: copied(&config.args),
            stage: failure.stage.text().to_owned(),
            error: failure.error.message(),
            duration_ms,
        };
        let ghost failed_before = self.failed@;
        self.failed.push(info);
        proof {
            self.config.mcp_servers.lemma_len();
        }
        self.position = self.position + 1;
        self.outcomes = Ghost(self.outcomes@.push(outcome));
        proof {
            assert(self@ == before.with(outcome));
            assert(self@.earlier().outcomes =~= before.outcomes);
            assert(self@.earlier() == before);
            assert(self@.last_server() == row);
            assert(failed_views(self.failed@) =~= failed_views(failed_before).push(info@));
            assert(info@ =~= self@.failed().last());
        }
    }

    /// Sums up the servers that did not come up so far.
    pub fn failed_summary(&self) -> (r: String)
        requires
            self.well_formed(),
        ensures
            r@ == failure_summary(self@.failed()),
    {
        summarize_failed_servers(self.failed.as_slice())
    }

    /// Ends the load. Where servers were asked for and none came up, what was loaded before stays
    /// and the error tells of every server; else what came up takes the place of what was loaded
    /// before, and the report tells of every server.
    pub fn finish(self, state: &mut AppState<S>) -> (r: Result<serde_json::Value, FrameworkError>)
        requires
            self.well_formed(),
            self@.complete(),
            !self@.all_failed() ==> self@.reportable(),
            old(state).well_formed(),
        ensures
            final(state).well_formed(),
            self@.well_formed(),
            r is Err <==> self@.outcomes.len() > 0 && forall|i: int|
                0 <= i < self@.outcomes.len() ==> #[trigger] self@.outcomes[i] is Failed,
            r is Ok ==> forall|i: int|
                0 <= i < self@.outcomes.len() && #[trigger] self@.outcomes[i] is Loaded ==> table::lookup(
                    final(state)@.servers,
                    self@.servers[i].0,
                ) == Some(
                    EntryView { server: self@.outcomes[i]->server, tools: self@.outcomes[i]->tools },
                ),
            match r {
                Ok(report) => {
                    &&& !self@.all_failed()
                    &&& json::document(report) == self@.report()
                    &&& final(state)@ == self@.state()
                },
                Err(error) => {
                    &&& self@.all_failed()
                    &&& error@ == self@.error()
                    &&& final(state)@ == old(state)@
                },
            },
    {
        proof {
            assert(json::documents(self.loaded@).len() == self.loaded@.len());
            assert(failed_views(self.failed@).len() == self.failed@.len());
            assert(json::documents(self.tools@).len() == self.tools@.len());
            loads_fail_where_nothing_comes_up(self@);
            assert forall|i: int| 0 <= i < self@.outcomes.len() && #[trigger] self@.outcomes[i] is Loaded implies table::lookup(
                self@.state().servers,
                self@.servers[i].0,
            ) == Some(
                EntryView { server: self@.outcomes[i]->server, tools: self@.outcomes[i]->tools },
            ) by {
                servers_that_come_up_are_loaded(self@, i, self@.outcomes[i]->server, self@.outcomes[i]->tools);
            }
        }
        if self.config.mcp_servers.len() > 0 && self.loaded.len() == 0 && self.failed.len() > 0 {
            let summary = self.failed_summary();
            let mut message = "all MCP servers failed to load, keeping previous state: ".to_owned();
            message.append(summary.as_str());
            return Err(FrameworkError::Mcp(message));
        }
        let ghost view = self@;
        let loaded_count = self.loaded.len();
        let failed_count = self.failed.len();
        let tool_count = self.tools.len();
        let mut failed: Vec<serde_json::Value> = Vec::new();
        let mut i: usize = 0;
        while i < self.failed.len()
            invariant
                i <= self.failed.len(),
                view == self@,
                failed_views(self.failed@) == view.failed(),
                view.reportable(),
                failed@.len() == i,
                forall|j: int| 0 <= j < i ==> json::document(#[trigger] failed@[j]) == view.failed()[j].report(),
            decreases self.failed.len() - i,
        {
            assert(view.failed()[i as int] == failed_views(self.failed@)[i as int]);
            failed.push(failed_report_value(&self.failed[i]));
            i = i + 1;
        }
        assert(json::documents(failed@) =~= Seq::new(
            view.failed().len(),
            |i: int| view.failed()[i].report(),
        ));
        let mut fields = json::new_map();
        json::put(&mut fields, "loadedServers", json::array_value(self.loaded));
        json::put(&mut fields, "failedServers", json::array_value(failed));
        json::put(&mut fields, "loadedServerCount", json::count_value(loaded_count));
        json::put(&mut fields, "failedServerCount", json::count_value(failed_count));
        json::put(&mut fields, "tools", json::array_value(self.tools));
        json::put(&mut fields, "toolCount", json::count_value(tool_count));
        *state = self.state;
        Ok(json::object_value(fields))
    }
}

proof fn lemma_some_came_up<S>(load: LoadView<S>)
    ensures
        load.loaded().len() == 0 <==> forall|i: int|
            0 <= i < load.outcomes.len() ==> #[trigger] load.outcomes[i] is Failed,
    decreases load.outcomes.len(),
{
    if load.outcomes.len() > 0 {
        let earlier = load.earlier();
        let last = load.outcomes.len() - 1;
        lemma_some_came_up(earlier);
        assert(forall|i: int| 0 <= i < last ==> #[trigger] earlier.outcomes[i] == load.outcomes[i]);
        assert(load.outcomes[last] == load.outcomes.last());
        if load.loaded().len() == 0 {
            assert forall|i: int| 0 <= i < load.outcomes.len() implies #[trigger] load.outcomes[i] is Failed by {
                if i < last {
                    assert(earlier.outcomes[i] is Failed);
                }
            }
        }
        if forall|i: int| 0 <= i < load.outcomes.len() ==> #[trigger] load.outcomes[i] is Failed {
            assert forall|i: int| 0 <= i < earlier.outcomes.len() implies #[trigger] earlier.outcomes[i] is Failed by {
                assert(load.outcomes[i] is Failed);
            }
        }
    }
}

/// A load that is complete fails exactly where servers were tried and every one of them failed: one
/// server that comes up is enough, however many others fail.
pub proof fn loads_fail_where_nothing_comes_up<S>(load: LoadView<S>)
    requires
        load.outcomes.len() == load.servers.len(),
    ensures
        load.all_failed() <==> load.outcomes.len() > 0 && forall|i: int|
            0 <= i < load.outcomes.len() ==> #[trigger] load.outcomes[i] is Failed,
{
    every_server_is_reported(load);
    lemma_some_came_up(load);
}

/// Every server that comes up is loaded under its name, with its handle and its tools, whatever
/// becomes of the others.
pub proof fn servers_that_come_up_are_loaded<S>(load: LoadView<S>, i: int, server: S, tools: Seq<ToolView>)
    requires
        load.well_formed(),
        0 <= i < load.outcomes.len(),
        load.outcomes[i] == (ServerOutcome::Loaded { server, tools }),
    ensures
        table::lookup(load.state().servers, load.servers[i].0) == Some(EntryView { server, tools }),
    decreases load.outcomes.len(),
{
    let earlier = load.earlier();
    let last = load.outcomes.len() - 1;
    loading_gives_a_well_formed_state(earlier);
    if i < last {
        servers_that_come_up_are_loaded(earlier, i, server, tools);
    }
    if let ServerOutcome::Loaded { server: other, tools: others } = load.outcomes.last() {
        table::lemma_inserted(
            earlier.state().servers,
            load.last_server().0,
            EntryView { server: other, tools: others },
        );
        if i < last {
            assert(table::names(load.servers)[i] != table::names(load.servers)[last]);
        }
    }
}

/// Nothing is loaded but servers that came up: under every name that is loaded one of them stands.
pub proof fn only_servers_that_come_up_are_loaded<S>(load: LoadView<S>, name: Seq<char>)
    requires
        table::lookup(load.state().servers, name) is Some,
    ensures
        exists|i: int|
            0 <= i < load.outcomes.len() && #[trigger] load.outcomes[i] is Loaded && load.servers[i].0 == name,
    decreases load.outcomes.len(),
{
    if load.outcomes.len() > 0 {
        let earlier = load.earlier();
        let last = load.outcomes.len() - 1;
        loading_gives_a_well_formed_state(earlier);
        if let ServerOutcome::Loaded { server, tools } = load.outcomes.last() {
            table::lemma_inserted(earlier.state().servers, load.last_server().0, EntryView { server, tools });
        }
        if load.outcomes[last] is Loaded && load.servers[last].0 == name {
        } else {
            only_servers_that_come_up_are_loaded(earlier, name);
            let i = choose|i: int|
                0 <= i < earlier.outcomes.len() && #[trigger] earlier.outcomes[i] is Loaded && earlier.servers[i].0
                    == name;
            assert(load.outcomes[i] is Loaded);
        }
    }
}

proof fn lemma_counted<S>(load: LoadView<S>)
    ensures
        load.loaded().len() == load.outcomes.filter(|outcome: ServerOutcome<S>| outcome is Loaded).len(),
        load.failed().len() == load.outcomes.filter(|outcome: ServerOutcome<S>| outcome is Failed).len(),
        load.tools().len() == load.outcomes.fold_left(
            0int,
            |sum: int, outcome: ServerOutcome<S>|
                match outcome {
                    ServerOutcome::Loaded { tools, .. } => sum + tools.len(),
                    ServerOutcome::Failed { .. } => sum,
                },
        ),
    decreases load.outcomes.len(),
{
    reveal(Seq::filter);
    reveal(Seq::fold_left);
    if load.outcomes.len() > 0 {
        lemma_counted(load.earlier());
    }
}

proof fn lemma_report<S>(load: LoadView<S>)
    ensures
        json::member(load.report(), "loadedServers"@) == Some(JsonView::Array(load.loaded())),
        json::member(load.report(), "failedServers"@) == Some(
            JsonView::Array(Seq::new(load.failed().len(), |i: int| load.failed()[i].report())),
        ),
        json::member(load.report(), "loadedServerCount"@) == Some(JsonView::Integer(load.loaded().len() as int)),
        json::member(load.report(), "failedServerCount"@) == Some(JsonView::Integer(load.failed().len() as int)),
        json::member(load.report(), "tools"@) == Some(JsonView::Array(load.tools())),
        json::member(load.report(), "toolCount"@) == Some(JsonView::Integer(load.tools().len() as int)),
{
    reveal_strlit("loadedServers");
    reveal_strlit("failedServers");
    reveal_strlit("loadedServerCount");
    reveal_strlit("failedServerCount");
    reveal_strlit("tools");
    reveal_strlit("toolCount");
    assert("loadedServers"@.len() == 13 && "failedServers"@.len() == 13);
    assert("loadedServerCount"@.len() == 17 && "failedServerCount"@.len() == 17);
    assert("tools"@.len() == 5 && "toolCount"@.len() == 9);
    assert("loadedServers"@[0] != "failedServers"@[0]);
    assert("loadedServerCount"@[0] != "failedServerCount"@[0]);
}

/// The report holds what came up, what failed and the tools, and counts each: as many servers as
/// came up, as many as failed, and the tools of all that came up. It holds nothing else.
pub proof fn reports_count_what_they_hold<S>(load: LoadView<S>)
    ensures
        json::member(load.report(), "loadedServerCount"@) == Some(
            JsonView::Integer(
                load.outcomes.filter(|outcome: ServerOutcome<S>| outcome is Loaded).len() as int,
            ),
        ),
        json::member(load.report(), "failedServerCount"@) == Some(
            JsonView::Integer(
                load.outcomes.filter(|outcome: ServerOutcome<S>| outcome is Failed).len() as int,
            ),
        ),
        json::member(load.report(), "toolCount"@) == Some(
            JsonView::Integer(
                load.outcomes.fold_left(
                    0int,
                    |sum: int, outcome: ServerOutcome<S>|
                        match outcome {
                            ServerOutcome::Loaded { tools, .. } => sum + tools.len(),
                            ServerOutcome::Failed { .. } => sum,
                        },
                ),
            ),
        ),
        json::member(load.report(), "loadedServers"@) matches Some(JsonView::Array(loaded)) && json::member(
            load.report(),
            "loadedServerCount"@,
        ) == Some(JsonView::Integer(loaded.len() as int)),
        json::member(load.report(), "failedServers"@) matches Some(JsonView::Array(failed)) && json::member(
            load.report(),
            "failedServerCount"@,
        ) == Some(JsonView::Integer(failed.len() as int)),
        json::member(load.report(), "tools"@) matches Some(JsonView::Array(tools)) && json::member(
            load.report(),
            "toolCount"@,
        ) == Some(JsonView::Integer(tools.len() as int)),
        forall|key: Seq<char>| #[trigger]
            json::member(load.report(), key) is Some ==> key == "loadedServers"@ || key == "failedServers"@ || key
                == "loadedServerCount"@ || key == "failedServerCount"@ || key == "tools"@ || key == "toolCount"@,
{
    lemma_report(load);
    lemma_counted(load);
}

/// Before any server was tried a load has nothing to report.
pub proof fn nothing_is_reported_at_first<S>(load: LoadView<S>)
    requires
        load.outcomes.len() == 0,
    ensures
        load.loaded().len() == 0,
        load.failed().len() == 0,
        load.tools().len() == 0,
        load.state().servers.len() == 0,
        load.state().routes.len() == 0,
{
}

/// One more server that comes up is reported behind the others, with its name, its command, its
/// arguments and the number of its tools; its tools are offered behind the others, in their order;
/// and it is loaded. Nothing else changes.
pub proof fn servers_that_come_up_are_reported<S>(load: LoadView<S>, server: S, tools: Seq<ToolView>)
    requires
        load.outcomes.len() < load.servers.len(),
    ensures
        ({
            let (name, config) = load.servers[load.outcomes.len() as int];
            let after = LoadView {
                servers: load.servers,
                outcomes: load.outcomes.push(ServerOutcome::Loaded { server, tools }),
            };
            let report = after.loaded().last();
            &&& after == load.with(ServerOutcome::Loaded { server, tools })
            &&& after.loaded() == load.loaded().push(report)
            &&& json::member(report, "name"@) == Some(JsonView::Text(name))
            &&& json::member(report, "command"@) == Some(JsonView::Text(config.command))
            &&& json::member(report, "args"@) == Some(
                JsonView::Array(Seq::new(config.args.len(), |i: int| JsonView::Text(config.args[i]))),
            )
            &&& json::member(report, "toolCount"@) == Some(JsonView::Integer(tools.len() as int))
            &&& forall|key: Seq<char>| #[trigger]
                json::member(report, key) is Some ==> key == "name"@ || key == "command"@ || key == "args"@ || key
                    == "toolCount"@
            &&& after.failed() == load.failed()
            &&& after.tools() == load.tools() + Seq::new(
                tools.len(),
                |j: int| tools::registration(name, tools[j]),
            )
            &&& after.state() == load.state().installed(name, EntryView { server, tools })
        }),
{
    let (name, config) = load.servers[load.outcomes.len() as int];
    let after = load.with(ServerOutcome::Loaded { server, tools });
    assert(after.earlier().outcomes =~= load.outcomes);
    assert(after.earlier() == load);
    reveal_strlit("name");
    reveal_strlit("command");
    reveal_strlit("args");
    reveal_strlit("toolCount");
    assert("name"@.len() == 4 && "command"@.len() == 7 && "args"@.len() == 4 && "toolCount"@.len() == 9);
    assert("name"@[0] != "args"@[0]);
    assert(tools::registrations(name, tools) =~= Seq::new(
        tools.len(),
        |j: int| tools::registration(name, tools[j]),
    ));
}

/// One more server that fails is reported behind the others that failed, with its name, its command,
/// its arguments, the stage, the error and the time. Nothing else changes.
pub proof fn servers_that_fail_are_reported<S>(
    load: LoadView<S>,
    stage: LoadStage,
    error: Seq<char>,
    duration_ms: nat,
)
    requires
        load.outcomes.len() < load.servers.len(),
    ensures
        ({
            let (name, config) = load.servers[load.outcomes.len() as int];
            let after = LoadView {
                servers: load.servers,
                outcomes: load.outcomes.push(ServerOutcome::Failed { stage, error, duration_ms }),
            };
            let failed = after.failed().last();
            &&& after == load.with(ServerOutcome::Failed { stage, error, duration_ms })
            &&& after.failed() == load.failed().push(failed)
            &&& failed.name == name
            &&& failed.command == config.command
            &&& failed.args == config.args
            &&& failed.stage == (match stage {
                LoadStage::Start => "start"@,
                LoadStage::Initialize => "initialize"@,
                LoadStage::ListTools => "list_tools"@,
            })
            &&& failed.error == error
            &&& failed.duration_ms == duration_ms
            &&& after.loaded() == load.loaded()
            &&& after.tools() == load.tools()
            &&& after.state() == load.state()
        }),
{
    let after = load.with(ServerOutcome::Failed { stage, error, duration_ms });
    assert(after.earlier().outcomes =~= load.outcomes);
    assert(after.earlier() == load);
}

/// A server that failed is reported with all that is known of it, and nothing else.
pub proof fn failures_are_reported_whole(failed: FailedView)
    ensures
        json::member(failed.report(), "name"@) == Some(JsonView::Text(failed.name)),
        json::member(failed.report(), "command"@) == Some(JsonView::Text(failed.command)),
        json::member(failed.report(), "args"@) == Some(
            JsonView::Array(Seq::new(failed.args.len(), |i: int| JsonView::Text(failed.args[i]))),
        ),
        json::member(failed.report(), "stage"@) == Some(JsonView::Text(failed.stage)),
        json::member(failed.report(), "error"@) == Some(JsonView::Text(failed.error)),
        json::member(failed.report(), "durationMs"@) == Some(JsonView::Integer(failed.duration_ms as int)),
        forall|key: Seq<char>| #[trigger]
            json::member(failed.report(), key) is Some ==> key == "name"@ || key == "command"@ || key == "args"@ || key
                == "stage"@ || key == "error"@ || key == "durationMs"@,
{
    reveal_strlit("name");
    reveal_strlit("command");
    reveal_strlit("args");
    reveal_strlit("stage");
    reveal_strlit("error");
    reveal_strlit("durationMs");
    assert("name"@.len() == 4 && "command"@.len() == 7 && "args"@.len() == 4);
    assert("stage"@.len() == 5 && "error"@.len() == 5 && "durationMs"@.len() == 10);
    assert("name"@[0] != "args"@[0]);
    assert("stage"@[0] != "error"@[0]);
}

/// The report lists the servers that came up, the servers that failed, each as it is reported by
/// itself, and the tools, each list in the order in which the servers were tried.
pub proof fn reports_list_every_server<S>(load: LoadView<S>)
    ensures
        json::member(load.report(), "loadedServers"@) == Some(JsonView::Array(load.loaded())),
        json::member(load.report(), "failedServers"@) matches Some(JsonView::Array(failed)) && failed.len()
            == load.failed().len() && (forall|i: int|
            0 <= i < failed.len() ==> #[trigger] failed[i] == load.failed()[i].report()),
        json::member(load.report(), "tools"@) == Some(JsonView::Array(load.tools())),
{
    lemma_report(load);
}

/// After a load the listing shows the tools that the report of the load showed, and counts as many.
pub proof fn listings_show_what_was_reported<S>(load: LoadView<S>)
    requires
        load.well_formed(),
    ensures
        json::member(load.state().listing(), "tools"@) is Some,
        json::member(load.state().listing(), "tools"@) == json::member(load.report(), "tools"@),
        json::member(load.state().listing(), "toolCount"@) == json::member(load.report(), "toolCount"@),
{
    lemma_report(load);
    listing_agrees_with_the_report(load);
    registry::listings_count_the_tools_of_all_servers(load.state());
}

/// The summary of one server that failed is its name, the stage and the error; of none it is empty.
pub proof fn failures_are_summed_up_whole(failed: FailedView)
    ensures
        failure_summary(seq![failed]) == failed.name + ":"@ + failed.stage + ":"@ + failed.error,
        failure_summary(Seq::empty()) == Seq::<char>::empty(),
{
    assert(Seq::new(1, |i: int| seq![failed][i].summary()) =~= seq![failed.summary()]);
    text::joining_one_text_gives_it(failed.summary(), " | "@);
}

/// The error of a load in which nothing came up says that what was loaded before stays, and sums up
/// every server that failed.
pub proof fn failed_loads_tell_of_every_server<S>(load: LoadView<S>)
    ensures
        load.error() == ErrorView::Mcp(
            "all MCP servers failed to load, keeping previous state: "@ + failure_summary(load.failed()),
        ),
{
}

/// A server that failed is what is known of it, and a list of them has each in its place.
pub proof fn failures_are_what_they_hold(failed: Seq<FailedServerInfo>, i: int)
    requires
        0 <= i < failed.len(),
    ensures
        failed_views(failed).len() == failed.len(),
        failed_views(failed)[i] == failed[i]@,
        failed[i]@.name == failed[i].name@,
        failed[i]@.command == failed[i].command@,
        failed[i]@.args == text::texts(failed[i].args@),
        failed[i]@.stage == failed[i].stage@,
        failed[i]@.error == failed[i].error@,
        failed[i]@.duration_ms == failed[i].duration_ms,
{
}

/// A load can be reported where no stage that failed took longer than a machine number of
/// milliseconds tells.
pub proof fn loads_with_short_stages_are_reportable<S>(load: LoadView<S>)
    requires
        forall|i: int|
            0 <= i < load.outcomes.len() && #[trigger] load.outcomes[i] is Failed ==> load.outcomes[i]->duration_ms
                <= u64::MAX,
    ensures
        load.reportable(),
    decreases load.outcomes.len(),
{
    if load.outcomes.len() > 0 {
        let earlier = load.earlier();
        let last = load.outcomes.len() - 1;
        assert forall|i: int| 0 <= i < earlier.outcomes.len() && #[trigger] earlier.outcomes[i] is Failed implies earlier.outcomes[i]->duration_ms
            <= u64::MAX by {
            assert(load.outcomes[i] is Failed);
        }
        loads_with_short_stages_are_reportable(earlier);
        assert(load.outcomes[last] == load.outcomes.last());
        assert forall|i: int| 0 <= i < load.failed().len() implies (#[trigger] load.failed()[i]).duration_ms
            <= u64::MAX by {
            if i < earlier.failed().len() {
                assert(earlier.failed()[i].duration_ms <= u64::MAX);
            }
        }
    }
}

/// A load is complete exactly where every server has an outcome, and well formed where its servers
/// are and it has no more outcomes than servers.
pub proof fn complete_loads_have_every_outcome<S>(load: LoadView<S>)
    ensures
        load.complete() <==> load.outcomes.len() == load.servers.len(),
        config::well_formed_servers(load.servers) && load.outcomes.len() <= load.servers.len() ==> load.well_formed(),
{
}

} // verus!
