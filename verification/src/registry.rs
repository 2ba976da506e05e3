//! What is loaded: the servers with their tools, and the routes from exposed names to tools.

use crate::error::{ErrorView, FrameworkError};
use crate::json;
use crate::json::JsonView;
use crate::table;
use crate::table::Table;
use crate::tools;
use crate::tools::{RouteView, ToolDefinition, ToolRoute, ToolView};
use vstd::prelude::*;

verus! {

/// A loaded server: the handle through which it is reached, and its tools.
pub struct ServerEntry<S> {
    pub server: S,
    pub tools: Vec<ToolDefinition>,
}

/// What a loaded server is.
pub struct EntryView<S> {
    pub server: S,
    pub tools: Seq<ToolView>,
}

impl<S> View for ServerEntry<S> {
    type V = EntryView<S>;

    open spec fn view(&self) -> EntryView<S> {
        EntryView { server: self.server, tools: tools::tool_views(self.tools@) }
    }
}

/// Everything that is loaded.
pub struct AppState<S> {
    servers: Table<ServerEntry<S>>,
    tool_routes: Table<ToolRoute>,
}

/// What is loaded.
#[verifier::ext_equal]
pub struct StateView<S> {
    pub servers: Seq<(Seq<char>, EntryView<S>)>,
    pub routes: Seq<(Seq<char>, RouteView)>,
}

impl<S> View for AppState<S> {
    type V = StateView<S>;

    closed spec fn view(&self) -> StateView<S> {
        StateView { servers: self.servers@, routes: self.tool_routes@ }
    }
}

/// Whether one of the tools has the name.
pub open spec fn has_tool(tools: Seq<ToolView>, name: Seq<char>) -> bool {
    exists|i: int| 0 <= i < tools.len() && (#[trigger] tools[i]).name == name
}

/// Whether a server with the tools exposes the name.
pub open spec fn exposes(server: Seq<char>, tools: Seq<ToolView>, name: Seq<char>) -> bool {
    exists|i: int| 0 <= i < tools.len() && tools::exposed(server, (#[trigger] tools[i]).name) == name
}

/// The routes that lead to other servers.
pub open spec fn routes_elsewhere(routes: Seq<(Seq<char>, RouteView)>, server: Seq<char>) -> Seq<
    (Seq<char>, RouteView),
> {
    routes.filter(|row: (Seq<char>, RouteView)| row.1.server != server)
}

/// The routes after those to a server's tools were added one after the other.
pub open spec fn with_routes(
    routes: Seq<(Seq<char>, RouteView)>,
    server: Seq<char>,
    tools: Seq<ToolView>,
) -> Seq<(Seq<char>, RouteView)>
    decreases tools.len(),
{
    if tools.len() == 0 {
        routes
    } else {
        table::inserted(
            with_routes(routes, server, tools.drop_last()),
            tools::exposed(server, tools.last().name),
            RouteView { server, remote_tool: tools.last().name },
        )
    }
}

/// What is offered of all servers' tools, server by server.
pub open spec fn offered<S>(servers: Seq<(Seq<char>, EntryView<S>)>) -> Seq<JsonView>
    decreases servers.len(),
{
    if servers.len() == 0 {
        Seq::empty()
    } else {
        offered(servers.drop_last()) + tools::registrations(
            servers.last().0,
            servers.last().1.tools,
        )
    }
}

impl<S> StateView<S> {
    /// Nothing is loaded.
    pub open spec fn empty() -> StateView<S> {
        StateView { servers: Seq::empty(), routes: Seq::empty() }
    }

    /// A route leads to a tool of a loaded server, and has the name that the tool is exposed under.
    pub open spec fn leads_somewhere(self, row: (Seq<char>, RouteView)) -> bool {
        &&& row.0 == tools::exposed(row.1.server, row.1.remote_tool)
        &&& table::lookup(self.servers, row.1.server) matches Some(entry) && has_tool(
            entry.tools,
            row.1.remote_tool,
        )
    }

    /// No server and no exposed name occurs twice, and every route leads somewhere.
    pub open spec fn well_formed(self) -> bool {
        &&& table::names(self.servers).no_duplicates()
        &&& table::names(self.routes).no_duplicates()
        &&& forall|i: int| 0 <= i < self.routes.len() ==> self.leads_somewhere(#[trigger] self.routes[i])
    }

    /// What is loaded after a server was put in, in the place of one of the same name.
    pub open spec fn installed(self, name: Seq<char>, entry: EntryView<S>) -> StateView<S> {
        StateView {
            servers: table::inserted(self.servers, name, entry),
            routes: with_routes(routes_elsewhere(self.routes, name), name, entry.tools),
        }
    }

    /// Where a call of an exposed name goes: to which server, by which route.
    pub open spec fn resolve(self, name: Seq<char>) -> Result<(S, RouteView), ErrorView> {
        match table::lookup(self.routes, name) {
            None => Err(ErrorView::ToolNotFound(name)),
            Some(route) => match table::lookup(self.servers, route.server) {
                None => Err(ErrorView::ServerNotFound(route.server)),
                Some(entry) => Ok((entry.server, route)),
            },
        }
    }

    /// The answer to the question what is loaded.
    pub open spec fn listing(self) -> JsonView {
        JsonView::Object(
            map![
                "tools"@ => JsonView::Array(offered(self.servers)),
                "toolCount"@ => JsonView::Integer(offered(self.servers).len() as int),
            ],
        )
    }
}

proof fn lemma_filter_rows(
    rows: Seq<(Seq<char>, RouteView)>,
    keep: spec_fn((Seq<char>, RouteView)) -> bool,
)
    requires
        table::names(rows).no_duplicates(),
    ensures
        table::names(rows.filter(keep)).no_duplicates(),
        forall|i: int| 0 <= i < rows.filter(keep).len() ==> keep(#[trigger] rows.filter(keep)[i]) && rows.contains(rows.filter(keep)[i]),
    decreases rows.len(),
{
    reveal(Seq::filter);
    if rows.len() > 0 {
        let rest = rows.drop_last();
        assert(table::names(rest) =~= table::names(rows).drop_last());
        lemma_filter_rows(rest, keep);
        let kept = rest.filter(keep);
        assert forall|i: int| 0 <= i < kept.len() implies rows.contains(#[trigger] kept[i]) by {
            let j = choose|j: int| 0 <= j < rest.len() && rest[j] == kept[i];
            assert(rows[j] == kept[i]);
        }
        if keep(rows.last()) {
            assert(rows.filter(keep) =~= kept.push(rows.last()));
            assert(table::names(rows.filter(keep)) =~= table::names(kept).push(rows.last().0));
            assert forall|i: int| 0 <= i < kept.len() implies #[trigger] table::names(kept)[i] != rows.last().0 by {
                assert(rest.contains(kept[i]));
                let j = choose|j: int| 0 <= j < rest.len() && rest[j] == kept[i];
                assert(table::names(rows)[j] == kept[i].0);
                assert(table::names(rows)[rows.len() - 1] == rows.last().0);
            }
            assert(rows[rows.len() - 1] == rows.last());
        }
    }
}

proof fn lemma_with_routes<S>(
    state: StateView<S>,
    routes: Seq<(Seq<char>, RouteView)>,
    server: Seq<char>,
    tools: Seq<ToolView>,
)
    requires
        table::names(routes).no_duplicates(),
        forall|i: int| 0 <= i < routes.len() ==> state.leads_somewhere(#[trigger] routes[i]),
        table::lookup(state.servers, server) matches Some(entry) && forall|i: int|
            0 <= i < tools.len() ==> has_tool(entry.tools, (#[trigger] tools[i]).name),
    ensures
        ({
            let after = with_routes(routes, server, tools);
            &&& table::names(after).no_duplicates()
            &&& forall|i: int| 0 <= i < after.len() ==> state.leads_somewhere(#[trigger] after[i])
        }),
    decreases tools.len(),
{
    if tools.len() > 0 {
        let rest = tools.drop_last();
        assert forall|i: int| 0 <= i < rest.len() implies has_tool(
            table::lookup(state.servers, server)->0.tools,
            (#[trigger] rest[i]).name,
        ) by {
            assert(rest[i] == tools[i]);
        }
        lemma_with_routes(state, routes, server, rest);
        let before = with_routes(routes, server, rest);
        let name = tools::exposed(server, tools.last().name);
        let route = RouteView { server, remote_tool: tools.last().name };
        table::lemma_inserted(before, name, route);
        let after = table::inserted(before, name, route);
        assert(has_tool(table::lookup(state.servers, server)->0.tools, tools[tools.len() - 1].name));
        assert(state.leads_somewhere((name, route)));
        assert forall|i: int| 0 <= i < after.len() implies state.leads_somewhere(#[trigger] after[i]) by {
            if after[i] != (name, route) {
                assert(after[i] == before[i]);
            }
        }
    }
}

/// Putting a server in keeps what is loaded well formed.
pub proof fn installing_keeps_well_formed<S>(state: StateView<S>, name: Seq<char>, entry: EntryView<S>)
    requires
        state.well_formed(),
    ensures
        state.installed(name, entry).well_formed(),
{
    let after = state.installed(name, entry);
    table::lemma_inserted(state.servers, name, entry);
    let keep = |row: (Seq<char>, RouteView)| row.1.server != name;
    lemma_filter_rows(state.routes, keep);
    let kept = routes_elsewhere(state.routes, name);
    assert forall|i: int| 0 <= i < kept.len() implies after.leads_somewhere(#[trigger] kept[i]) by {
        assert(keep(kept[i]));
        let j = choose|j: int| 0 <= j < state.routes.len() && state.routes[j] == kept[i];
        assert(state.leads_somewhere(state.routes[j]));
        assert(table::lookup(after.servers, kept[i].1.server) == table::lookup(state.servers, kept[i].1.server));
    }
    assert forall|i: int| 0 <= i < entry.tools.len() implies has_tool(entry.tools, (#[trigger] entry.tools[i]).name) by {
    }
    lemma_with_routes(after, kept, name, entry.tools);
}

proof fn lemma_filter_lookup(
    rows: Seq<(Seq<char>, RouteView)>,
    keep: spec_fn((Seq<char>, RouteView)) -> bool,
    name: Seq<char>,
)
    requires
        table::names(rows).no_duplicates(),
    ensures
        table::lookup(rows.filter(keep), name) == (match table::lookup(rows, name) {
            Some(route) => if keep((name, route)) {
                Some(route)
            } else {
                None
            },
            None => None,
        }),
{
    broadcast use vstd::seq_lib::group_filter_ensures;

    let kept = rows.filter(keep);
    lemma_filter_rows(rows, keep);
    if table::names(kept).contains(name) {
        let i = table::names(kept).index_of(name);
        assert(table::names(kept)[i] == name);
        assert(rows.contains(kept[i]));
        let j = choose|j: int| 0 <= j < rows.len() && rows[j] == kept[i];
        table::lemma_lookup_row(kept, i);
        table::lemma_lookup_row(rows, j);
        assert(keep(kept[i]));
    } else if table::names(rows).contains(name) {
        let j = table::names(rows).index_of(name);
        assert(table::names(rows)[j] == name);
        table::lemma_lookup_row(rows, j);
        if keep(rows[j]) {
            assert(kept.contains(rows[j]));
            let i = choose|i: int| 0 <= i < kept.len() && kept[i] == rows[j];
            assert(table::names(kept)[i] == name);
        }
    }
}

proof fn lemma_with_routes_lookup(
    routes: Seq<(Seq<char>, RouteView)>,
    server: Seq<char>,
    tools: Seq<ToolView>,
    name: Seq<char>,
)
    requires
        table::names(routes).no_duplicates(),
    ensures
        table::names(with_routes(routes, server, tools)).no_duplicates(),
        !exposes(server, tools, name) ==> table::lookup(with_routes(routes, server, tools), name)
            == table::lookup(routes, name),
        forall|i: int|
            0 <= i < tools.len() && tools::exposed(server, (#[trigger] tools[i]).name) == name
                ==> table::lookup(with_routes(routes, server, tools), name) == Some(
                RouteView { server, remote_tool: tools[i].name },
            ),
    decreases tools.len(),
{
    if tools.len() > 0 {
        let rest = tools.drop_last();
        lemma_with_routes_lookup(routes, server, rest, name);
        let before = with_routes(routes, server, rest);
        let last = tools::exposed(server, tools.last().name);
        let route = RouteView { server, remote_tool: tools.last().name };
        table::lemma_inserted(before, last, route);
        assert(tools[tools.len() - 1] == tools.last());
        if exposes(server, rest, name) {
            let i = choose|i: int|
                0 <= i < rest.len() && tools::exposed(server, (#[trigger] rest[i]).name) == name;
            assert(tools[i] == rest[i]);
        }
        assert forall|i: int|
            0 <= i < tools.len() && tools::exposed(server, (#[trigger] tools[i]).name)
                == name implies table::lookup(with_routes(routes, server, tools), name) == Some(
            RouteView { server, remote_tool: tools[i].name },
        ) by {
            if last == name {
                tools::names_tell_tools_apart(server, tools[i].name, tools.last().name);
            } else {
                assert(rest[i] == tools[i]);
            }
        }
    }
}

/// In a well-formed state a call either finds no route, or reaches a loaded server that has the
/// tool, under the name that the tool is exposed by. That the server is missing does not happen.
pub proof fn calls_reach_a_loaded_tool<S>(state: StateView<S>, name: Seq<char>)
    requires
        state.well_formed(),
    ensures
        match state.resolve(name) {
            Ok((server, route)) => {
                &&& name == tools::exposed(route.server, route.remote_tool)
                &&& table::lookup(state.servers, route.server) matches Some(entry) && entry.server
                    == server && has_tool(entry.tools, route.remote_tool)
            },
            Err(error) => error == ErrorView::ToolNotFound(name),
        },
{
    if table::names(state.routes).contains(name) {
        let i = table::names(state.routes).index_of(name);
        assert(table::names(state.routes)[i] == name);
        assert(state.leads_somewhere(state.routes[i]));
    }
}

/// Once a server is put in, a call of any of its tools reaches it.
pub proof fn installed_tools_are_reached<S>(state: StateView<S>, name: Seq<char>, entry: EntryView<S>, i: int)
    requires
        state.well_formed(),
        0 <= i < entry.tools.len(),
    ensures
        state.installed(name, entry).resolve(tools::exposed(name, entry.tools[i].name)) == Ok::<
            (S, RouteView),
            ErrorView,
        >((entry.server, RouteView { server: name, remote_tool: entry.tools[i].name })),
{
    lemma_filter_rows(state.routes, |row: (Seq<char>, RouteView)| row.1.server != name);
    lemma_with_routes_lookup(
        routes_elsewhere(state.routes, name),
        name,
        entry.tools,
        tools::exposed(name, entry.tools[i].name),
    );
    table::lemma_inserted(state.servers, name, entry);
}

/// Putting a server in changes nothing for calls of names that it does not expose, but that calls
/// which went to a server of its name go nowhere.
pub proof fn installing_keeps_other_calls<S>(
    state: StateView<S>,
    name: Seq<char>,
    entry: EntryView<S>,
    called: Seq<char>,
)
    requires
        state.well_formed(),
        !exposes(name, entry.tools, called),
    ensures
        state.installed(name, entry).resolve(called) == (match state.resolve(called) {
            Ok((server, route)) => if route.server != name {
                Ok((server, route))
            } else {
                Err(ErrorView::ToolNotFound(called))
            },
            Err(error) => Err(error),
        }),
{
    let keep = |row: (Seq<char>, RouteView)| row.1.server != name;
    lemma_filter_rows(state.routes, keep);
    lemma_filter_lookup(state.routes, keep, called);
    lemma_with_routes_lookup(routes_elsewhere(state.routes, name), name, entry.tools, called);
    table::lemma_inserted(state.servers, name, entry);
    calls_reach_a_loaded_tool(state, called);
}

impl<S> AppState<S> {
    pub open spec fn well_formed(&self) -> bool {
        self@.well_formed()
    }

    /// A state in which nothing is loaded.
    pub fn new() -> (r: AppState<S>)
        ensures
            r.well_formed(),
            r@ == StateView::<S>::empty(),
    {
        let r = AppState { servers: Table::new(), tool_routes: Table::new() };
        assert(r@ =~= StateView::<S>::empty());
        r
    }

    /// The number of loaded servers.
    pub fn server_count(&self) -> (r: usize)
        ensures
            r == self@.servers.len(),
    {
        self.servers.len()
    }

    /// Takes out the routes to a server.
    fn drop_routes_to(&mut self, server: &String)
        requires
            table::names(old(self)@.routes).no_duplicates(),
            table::names(old(self)@.servers).no_duplicates(),
        ensures
            final(self)@ == (StateView {
                servers: old(self)@.servers,
                routes: routes_elsewhere(old(self)@.routes, server@),
            }),
    {
        let ghost all = self.tool_routes@;
        let ghost keep = |row: (Seq<char>, RouteView)| row.1.server != server@;
        let mut kept: Table<ToolRoute> = Table::new();
        let ghost mut n: int = 0;
        proof {
            reveal(Seq::filter);
            assert(all.skip(0) =~= all);
            assert(kept@ =~= all.take(0).filter(keep));
        }
        while self.tool_routes.len() > 0
            invariant
                0 <= n <= all.len(),
                table::names(all).no_duplicates(),
                keep == (|row: (Seq<char>, RouteView)| row.1.server != server@),
                self.servers == old(self).servers,
                self.tool_routes.well_formed(),
                self.tool_routes@ == all.skip(n),
                kept.well_formed(),
                kept@ == all.take(n).filter(keep),
            decreases self.tool_routes@.len(),
        {
            let (name, route) = self.tool_routes.remove_first();
            proof {
                reveal(Seq::filter);
                let row = all[n];
                assert(all.skip(n)[0] == row);
                assert((name@, route@) == row);
                assert(all.take(n + 1).drop_last() =~= all.take(n));
                assert(all.take(n + 1).last() == row);
                assert(all.skip(n).drop_first() =~= all.skip(n + 1));
                assert(table::names(all.take(n)) =~= table::names(all).take(n));
                lemma_filter_rows(all.take(n), keep);
                assert(!table::names(kept@).contains(name@)) by {
                    if table::names(kept@).contains(name@) {
                        let i = table::names(kept@).index_of(name@);
                        assert(table::names(kept@)[i] == name@);
                        assert(all.take(n).contains(kept@[i]));
                        let j = choose|j: int| 0 <= j < n && all.take(n)[j] == kept@[i];
                        assert(table::names(all)[j] == name@);
                        assert(table::names(all)[n] == name@);
                    }
                }
            }
            if route.server_name != *server {
                kept.insert(name, route);
            }
            proof {
                n = n + 1;
            }
        }
        proof {
            assert(all.take(n) =~= all);
        }
        self.tool_routes = kept;
        assert(self@ =~= (StateView {
            servers: old(self)@.servers,
            routes: routes_elsewhere(old(self)@.routes, server@),
        }));
    }

    /// Adds the routes to a server's tools.
    fn add_routes_to(&mut self, server: &String, tools: &Vec<ToolDefinition>)
        requires
            table::names(old(self)@.routes).no_duplicates(),
        ensures
            final(self)@ == (StateView {
                servers: old(self)@.servers,
                routes: with_routes(old(self)@.routes, server@, tools::tool_views(tools@)),
            }),
            table::names(final(self)@.routes).no_duplicates(),
    {
        let ghost views = tools::tool_views(tools@);
        let ghost before = self.tool_routes@;
        let mut i: usize = 0;
        assert(views.take(0).len() == 0);
        while i < tools.len()
            invariant
                i <= tools.len(),
                views == tools::tool_views(tools@),
                self.servers == old(self).servers,
                self.tool_routes.well_formed(),
                self.tool_routes@ == with_routes(before, server@, views.take(i as int)),
            decreases tools.len() - i,
        {
            let name = tools[i].name.clone();
            self.tool_routes.insert(
                tools::exposed_name(server.as_str(), name.as_str()),
                ToolRoute { server_name: server.clone(), remote_tool_name: name },
            );
            proof {
                assert(views.take(i + 1).drop_last() =~= views.take(i as int));
                assert(views.take(i + 1).last() == views[i as int]);
            }
            i = i + 1;
        }
        assert(views.take(i as int) =~= views);
    }

    /// Puts a server in, with routes to its tools, in the place of one of the same name.
    pub fn install(&mut self, name: String, server: S, tools: Vec<ToolDefinition>)
        requires
            old(self).well_formed(),
        ensures
            final(self).well_formed(),
            final(self)@ == old(self)@.installed(
                name@,
                EntryView { server, tools: tools::tool_views(tools@) },
            ),
    {
        proof {
            let entry = EntryView { server, tools: tools::tool_views(tools@) };
            installing_keeps_well_formed(self@, name@, entry);
            lemma_filter_rows(self@.routes, |row: (Seq<char>, RouteView)| row.1.server != name@);
        }
        self.drop_routes_to(&name);
        self.add_routes_to(&name, &tools);
        self.servers.insert(name, ServerEntry { server, tools });
    }

    /// Finds the server and the remote tool that an exposed name stands for.
    pub fn call_tool_proxy(&self, name: &str) -> (r: Result<(&S, &ToolRoute), FrameworkError>)
        requires
            table::names(self@.servers).no_duplicates(),
            table::names(self@.routes).no_duplicates(),
        ensures
            match r {
                Ok((server, route)) => self@.resolve(name@) == Ok::<(S, RouteView), ErrorView>((*server, route@)),
                Err(error) => self@.resolve(name@) == Err::<(S, RouteView), ErrorView>(error@),
            },
    {
        match self.tool_routes.get(name) {
            None => Err(FrameworkError::ToolNotFound(name.to_owned())),
            Some(route) => match self.servers.get(route.server_name.as_str()) {
                None => Err(FrameworkError::ServerNotFound(route.server_name.clone())),
                Some(entry) => Ok((&entry.server, route)),
            },
        }
    }

    /// Lists the tools of all loaded servers for registration.
    pub fn list_loaded_tools(&self) -> (r: serde_json::Value)
        ensures
            json::document(r) == self@.listing(),
    {
        let ghost all = self.servers@;
        let mut list: Vec<serde_json::Value> = Vec::new();
        let mut i: usize = 0;
        assert(json::documents(list@) =~= offered(all.take(0)));
        while i < self.servers.len()
            invariant
                i <= all.len(),
                all == self.servers@,
                json::documents(list@) == offered(all.take(i as int)),
            decreases all.len() - i,
        {
            let entry = self.servers.value_at(i);
            tools::add_registrations(&mut list, self.servers.name_at(i).as_str(), &entry.tools);
            proof {
                assert(all.take(i + 1).drop_last() =~= all.take(i as int));
                assert(all.take(i + 1).last() == all[i as int]);
            }
            i = i + 1;
        }
        assert(all.take(i as int) =~= all);
        assert(list@.len() == json::documents(list@).len());
        let count = list.len();
        let mut fields = json::new_map();
        json::put(&mut fields, "tools", json::array_value(list));
        json::put(&mut fields, "toolCount", json::count_value(count));
        json::object_value(fields)
    }
}

proof fn lemma_listing<S>(state: StateView<S>)
    ensures
        json::member(state.listing(), "tools"@) == Some(JsonView::Array(offered(state.servers))),
        json::member(state.listing(), "toolCount"@) == Some(
            JsonView::Integer(offered(state.servers).len() as int),
        ),
{
    reveal_strlit("tools");
    reveal_strlit("toolCount");
    assert("tools"@.len() != "toolCount"@.len());
}

proof fn lemma_offered<S>(servers: Seq<(Seq<char>, EntryView<S>)>, i: int, j: int) -> (k: int)
    requires
        0 <= i < servers.len(),
        0 <= j < servers[i].1.tools.len(),
    ensures
        0 <= k < offered(servers).len(),
        offered(servers)[k] == tools::registration(servers[i].0, servers[i].1.tools[j]),
    decreases servers.len(),
{
    let before = servers.drop_last();
    if i < before.len() {
        assert(before[i] == servers[i]);
        lemma_offered(before, i, j)
    } else {
        offered(before).len() + j
    }
}

/// The listing holds the definition of every tool of every loaded server.
pub proof fn every_loaded_tool_is_listed<S>(state: StateView<S>, i: int, j: int)
    requires
        0 <= i < state.servers.len(),
        0 <= j < state.servers[i].1.tools.len(),
    ensures
        json::member(state.listing(), "tools"@) matches Some(JsonView::Array(listed)) && listed.contains(
            tools::registration(state.servers[i].0, state.servers[i].1.tools[j]),
        ),
{
    lemma_listing(state);
    let k = lemma_offered(state.servers, i, j);
}

proof fn lemma_offered_count<S>(servers: Seq<(Seq<char>, EntryView<S>)>)
    ensures
        offered(servers).len() == servers.fold_left(
            0int,
            |sum: int, row: (Seq<char>, EntryView<S>)| sum + row.1.tools.len(),
        ),
    decreases servers.len(),
{
    reveal(Seq::fold_left);
    if servers.len() > 0 {
        lemma_offered_count(servers.drop_last());
    }
}

/// The listing tells how many tools it holds, which is the sum of the numbers of tools of all loaded
/// servers, and holds nothing else.
pub proof fn listings_count_the_tools_of_all_servers<S>(state: StateView<S>)
    ensures
        json::member(state.listing(), "toolCount"@) == Some(
            JsonView::Integer(
                state.servers.fold_left(
                    0int,
                    |sum: int, row: (Seq<char>, EntryView<S>)| sum + row.1.tools.len(),
                ),
            ),
        ),
        json::member(state.listing(), "tools"@) matches Some(JsonView::Array(listed)) && json::member(
            state.listing(),
            "toolCount"@,
        ) == Some(JsonView::Integer(listed.len() as int)),
        forall|key: Seq<char>| #[trigger]
            json::member(state.listing(), key) is Some ==> key == "tools"@ || key == "toolCount"@,
{
    lemma_listing(state);
    lemma_offered_count(state.servers);
}

/// The listing without servers is empty, and with one server more it is the listing before with
/// that server's tools behind it.
pub proof fn listings_go_on_with_the_next_server<S>(
    state: StateView<S>,
    next: StateView<S>,
    name: Seq<char>,
    entry: EntryView<S>,
)
    requires
        next.servers == state.servers.push((name, entry)),
    ensures
        state.servers.len() == 0 ==> json::member(state.listing(), "tools"@) == Some(
            JsonView::Array(Seq::empty()),
        ),
        json::member(state.listing(), "tools"@) matches Some(JsonView::Array(before)) && json::member(
            next.listing(),
            "tools"@,
        ) == Some(
            JsonView::Array(
                before + Seq::new(entry.tools.len(), |j: int| tools::registration(name, entry.tools[j])),
            ),
        ),
{
    lemma_listing(state);
    lemma_listing(next);
    assert(next.servers.drop_last() =~= state.servers);
    assert(tools::registrations(name, entry.tools) =~= Seq::new(
        entry.tools.len(),
        |j: int| tools::registration(name, entry.tools[j]),
    ));
}

/// A call goes where the routes say: to the tool that the route names, on the server that is loaded
/// under the name in the route. Without a route the tool is not found, and without the server the
/// server is not.
pub proof fn calls_go_where_routes_lead<S>(state: StateView<S>, name: Seq<char>)
    ensures
        table::lookup(state.routes, name) is None ==> state.resolve(name) == Err::<(S, RouteView), ErrorView>(
            ErrorView::ToolNotFound(name),
        ),
        table::lookup(state.routes, name) matches Some(route) ==> (match table::lookup(
            state.servers,
            route.server,
        ) {
            Some(entry) => state.resolve(name) == Ok::<(S, RouteView), ErrorView>((entry.server, route)),
            None => state.resolve(name) == Err::<(S, RouteView), ErrorView>(
                ErrorView::ServerNotFound(route.server),
            ),
        }),
{
}

/// Putting a server in loads it with its tools, in the place of one of the same name or behind the
/// others, and leaves every other server as it is.
pub proof fn installing_loads_the_server<S>(
    state: StateView<S>,
    name: Seq<char>,
    entry: EntryView<S>,
    other: Seq<char>,
)
    requires
        state.well_formed(),
    ensures
        table::lookup(state.installed(name, entry).servers, name) == Some(entry),
        other != name ==> table::lookup(state.installed(name, entry).servers, other) == table::lookup(
            state.servers,
            other,
        ),
        table::lookup(state.servers, name) is None ==> state.installed(name, entry).servers
            == state.servers.push((name, entry)),
        table::lookup(state.servers, name) is Some ==> state.installed(name, entry).servers.len()
            == state.servers.len(),
{
    table::lemma_inserted(state.servers, name, entry);
}

/// In a state in which nothing is loaded there are no servers, and every call finds no tool.
pub proof fn nothing_is_loaded_at_first<S>(name: Seq<char>)
    ensures
        StateView::<S>::empty().servers.len() == 0,
        StateView::<S>::empty().resolve(name) == Err::<(S, RouteView), ErrorView>(ErrorView::ToolNotFound(name)),
{
    assert(!table::names(StateView::<S>::empty().routes).contains(name));
}

/// A server exposes exactly the names of its tools, each with the prefix and the server's name.
pub proof fn servers_expose_their_tools(server: Seq<char>, tools: Seq<ToolView>, name: Seq<char>)
    ensures
        exposes(server, tools, name) <==> exists|i: int|
            0 <= i < tools.len() && "mcp."@ + server + "."@ + (#[trigger] tools[i]).name == name,
        has_tool(tools, name) <==> exists|i: int| 0 <= i < tools.len() && (#[trigger] tools[i]).name == name,
{
    if exposes(server, tools, name) {
        let i = choose|i: int| 0 <= i < tools.len() && tools::exposed(server, (#[trigger] tools[i]).name) == name;
        assert("mcp."@ + server + "."@ + tools[i].name == name);
    }
    if exists|i: int| 0 <= i < tools.len() && "mcp."@ + server + "."@ + (#[trigger] tools[i]).name == name {
        let i = choose|i: int|
            0 <= i < tools.len() && "mcp."@ + server + "."@ + (#[trigger] tools[i]).name == name;
        assert(tools::exposed(server, tools[i].name) == name);
    }
}

/// A loaded server is reached through its handle and has the tools that it was loaded with.
pub proof fn entries_are_what_they_hold<S>(entry: ServerEntry<S>)
    ensures
        entry@.server == entry.server,
        entry@.tools == tools::tool_views(entry.tools@),
{
}

} // verus!
