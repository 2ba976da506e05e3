//! What a caller configures: the servers to start, and what may be shown of them.

use crate::error::{ErrorView, FrameworkError};
use crate::json;
use crate::json::JsonView;
use crate::table;
use crate::table::Table;
use crate::text;
use vstd::prelude::*;

verus! {

/// How a server is started.
pub struct McpServerConfig {
    pub command: String,
    pub args: Vec<String>,
    pub env: Table<String>,
}

/// What a server's configuration is.
#[verifier::ext_equal]
pub struct ServerConfigView {
    pub command: Seq<char>,
    pub args: Seq<Seq<char>>,
    pub env: Seq<(Seq<char>, Seq<char>)>,
}

impl View for McpServerConfig {
    type V = ServerConfigView;

    open spec fn view(&self) -> ServerConfigView {
        ServerConfigView { command: self.command@, args: text::texts(self.args@), env: self.env@ }
    }
}

impl ServerConfigView {
    /// No variable is set twice.
    pub open spec fn well_formed(self) -> bool {
        table::names(self.env).no_duplicates()
    }

    /// What may be shown of the configuration: everything but the values of the variables.
    pub open spec fn sanitized(self) -> JsonView {
        JsonView::Object(
            map![
                "command"@ => JsonView::Text(self.command),
                "args"@ => json::text_array(self.args),
                "env"@ => JsonView::Object(masked(table::names(self.env))),
                "envKeys"@ => json::text_array(text::sorted_texts(table::names(self.env))),
                "envCount"@ => JsonView::Integer(self.env.len() as int),
            ],
        )
    }
}

/// The names of the variables, each with a mask for its value.
pub open spec fn masked(names: Seq<Seq<char>>) -> Map<Seq<char>, JsonView> {
    Map::new(|name: Seq<char>| names.contains(name), |name: Seq<char>| JsonView::Text("***masked***"@))
}

/// The servers to start, by name.
pub struct ConfigEnvelope {
    pub mcp_servers: Table<McpServerConfig>,
}

impl View for ConfigEnvelope {
    type V = Seq<(Seq<char>, ServerConfigView)>;

    open spec fn view(&self) -> Seq<(Seq<char>, ServerConfigView)> {
        self.mcp_servers@
    }
}

/// No server is named twice, and none sets a variable twice.
pub open spec fn well_formed_servers(servers: Seq<(Seq<char>, ServerConfigView)>) -> bool {
    &&& table::names(servers).no_duplicates()
    &&& forall|i: int| 0 <= i < servers.len() ==> (#[trigger] servers[i]).1.well_formed()
}

/// What may be shown of each server's configuration.
pub open spec fn sanitized_servers(servers: Seq<(Seq<char>, ServerConfigView)>) -> Map<Seq<char>, JsonView> {
    Map::new(
        |name: Seq<char>| table::names(servers).contains(name),
        |name: Seq<char>| table::lookup(servers, name)->0.sanitized(),
    )
}

/// What may be shown of a configuration.
pub open spec fn sanitized_envelope(servers: Seq<(Seq<char>, ServerConfigView)>) -> JsonView {
    JsonView::Object(map!["mcpServers"@ => JsonView::Object(sanitized_servers(servers))])
}

impl McpServerConfig {
    pub open spec fn well_formed(&self) -> bool {
        self@.well_formed()
    }

    /// A configuration that sets no variables.
    pub fn new(command: String, args: Vec<String>) -> (r: McpServerConfig)
        ensures
            r.well_formed(),
            r@.command == command@,
            r@.args == text::texts(args@),
            r@.env.len() == 0,
    {
        McpServerConfig { command, args, env: Table::new() }
    }

    /// Sets a variable.
    pub fn set_env(&mut self, name: String, value: String)
        requires
            old(self).well_formed(),
        ensures
            final(self).well_formed(),
            final(self)@ == (ServerConfigView {
                env: table::inserted(old(self)@.env, name@, value@),
                ..old(self)@
            }),
    {
        self.env.insert(name, value);
    }
}

impl ConfigEnvelope {
    pub open spec fn well_formed(&self) -> bool {
        well_formed_servers(self@)
    }

    /// A configuration without servers.
    pub fn new() -> (r: ConfigEnvelope)
        ensures
            r.well_formed(),
            r@.len() == 0,
    {
        ConfigEnvelope { mcp_servers: Table::new() }
    }

    /// Adds a server, in the place of one of the same name.
    pub fn add_server(&mut self, name: String, config: McpServerConfig)
        requires
            old(self).well_formed(),
            config.well_formed(),
        ensures
            final(self).well_formed(),
            final(self)@ == table::inserted(old(self)@, name@, config@),
    {
        self.mcp_servers.insert(name, config);
    }
}

/// A request to load servers: a configuration, or the path of a file that holds one.
pub struct LoadConfigRequest {
    pub config: Option<ConfigEnvelope>,
    pub config_path: Option<String>,
}

/// What a load request asks for.
pub struct LoadRequestView {
    pub config: Option<Seq<(Seq<char>, ServerConfigView)>>,
    pub config_path: Option<Seq<char>>,
}

impl View for LoadConfigRequest {
    type V = LoadRequestView;

    open spec fn view(&self) -> LoadRequestView {
        LoadRequestView {
            config: match self.config {
                Some(config) => Some(config@),
                None => None,
            },
            config_path: match self.config_path {
                Some(path) => Some(path@),
                None => None,
            },
        }
    }
}

impl LoadRequestView {
    pub open spec fn well_formed(self) -> bool {
        self.config matches Some(servers) ==> well_formed_servers(servers)
    }

    /// What may be shown of the request.
    pub open spec fn sanitized(self) -> JsonView {
        JsonView::Object(
            map![
                "configPath"@ => json::optional_text(self.config_path),
                "config"@ => match self.config {
                    Some(servers) => sanitized_envelope(servers),
                    None => JsonView::Null,
                },
            ],
        )
    }
}

/// Lists the variables of a server with their values masked.
pub fn masked_env(env: &Table<String>) -> (r: serde_json::Value)
    ensures
        json::document(r) == JsonView::Object(masked(table::names(env@))),
{
    let keys = env.sorted_names();
    let ghost sorted = text::texts(keys@);
    let mut fields = json::new_map();
    let mut i: usize = 0;
    assert(json::members(fields) =~= masked(sorted.take(0)));
    while i < keys.len()
        invariant
            i <= keys.len(),
            sorted == text::texts(keys@),
            json::members(fields) == masked(sorted.take(i as int)),
        decreases keys.len() - i,
    {
        json::insert_member(&mut fields, keys[i].clone(), json::text_value("***masked***"));
        proof {
            assert(sorted.take(i + 1) =~= sorted.take(i as int).push(sorted[i as int]));
            assert(json::members(fields) =~= masked(sorted.take(i + 1))) by {
                lemma_contains_after_push(sorted.take(i as int), sorted[i as int]);
            }
        }
        i = i + 1;
    }
    proof {
        assert(sorted.take(i as int) =~= sorted);
        lemma_sorted_has_the_same(table::names(env@));
        assert(masked(sorted) =~= masked(table::names(env@)));
    }
    json::object_value(fields)
}

proof fn lemma_contains_after_push(s: Seq<Seq<char>>, x: Seq<char>)
    ensures
        forall|y: Seq<char>| #[trigger] s.push(x).contains(y) <==> s.contains(y) || y == x,
{
    assert forall|y: Seq<char>| #[trigger] s.push(x).contains(y) <==> s.contains(y) || y == x by {
        if s.contains(y) {
            let i = choose|i: int| 0 <= i < s.len() && s[i] == y;
            assert(s.push(x)[i] == y);
        }
        if y == x {
            assert(s.push(x)[s.len() as int] == y);
        }
    }
}

proof fn lemma_sorted_has_the_same(items: Seq<Seq<char>>)
    ensures
        forall|y: Seq<char>| #[trigger] text::sorted_texts(items).contains(y) <==> items.contains(y),
{
    text::sorting_orders_and_keeps(items);
    let sorted = text::sorted_texts(items);
    items.to_multiset_ensures();
    sorted.to_multiset_ensures();
    assert forall|y: Seq<char>| #[trigger] sorted.contains(y) <==> items.contains(y) by {
        assert(sorted.to_multiset().count(y) == items.to_multiset().count(y));
    }
}

/// Shows a server's configuration without the values of its variables.
pub fn sanitized_server_config(config: &McpServerConfig) -> (r: serde_json::Value)
    ensures
        json::document(r) == config@.sanitized(),
{
    let env_keys = config.env.sorted_names();
    let mut fields = json::new_map();
    json::put(&mut fields, "command", json::text_value(config.command.as_str()));
    json::put(&mut fields, "args", json::text_array_value(&config.args));
    json::put(&mut fields, "env", masked_env(&config.env));
    json::put(&mut fields, "envKeys", json::text_array_value(&env_keys));
    json::put(&mut fields, "envCount", json::count_value(config.env.len()));
    json::object_value(fields)
}

/// Shows a configuration without the values of the servers' variables.
pub fn sanitized_config_envelope(config: &ConfigEnvelope) -> (r: serde_json::Value)
    requires
        config.well_formed(),
    ensures
        json::document(r) == sanitized_envelope(config@),
{
    let keys = config.mcp_servers.sorted_names();
    let ghost sorted = text::texts(keys@);
    let ghost servers = config@;
    let ghost all = sanitized_servers(servers);
    let mut fields = json::new_map();
    let mut i: usize = 0;
    proof {
        lemma_sorted_has_the_same(table::names(servers));
        assert(json::members(fields) =~= all.restrict(sorted.take(0).to_set()));
    }
    while i < keys.len()
        invariant
            i <= keys.len(),
            sorted == text::texts(keys@),
            servers == config@,
            config.well_formed(),
            all == sanitized_servers(servers),
            forall|name: Seq<char>| #[trigger] sorted.contains(name) <==> table::names(servers).contains(name),
            json::members(fields) == all.restrict(sorted.take(i as int).to_set()),
        decreases keys.len() - i,
    {
        let ghost name = sorted[i as int];
        assert(sorted.contains(name));
        if let Some(server) = config.mcp_servers.get(keys[i].as_str()) {
            json::insert_member(&mut fields, keys[i].clone(), sanitized_server_config(server));
        }
        proof {
            assert(sorted.take(i + 1) =~= sorted.take(i as int).push(name));
            lemma_contains_after_push(sorted.take(i as int), name);
            assert(json::members(fields) =~= all.restrict(sorted.take(i + 1).to_set()));
        }
        i = i + 1;
    }
    proof {
        assert(sorted.take(i as int) =~= sorted);
        assert(json::members(fields) =~= all);
    }
    let mut outer = json::new_map();
    json::put(&mut outer, "mcpServers", json::object_value(fields));
    json::object_value(outer)
}

/// Shows a load request without the values of the servers' variables.
pub fn sanitized_load_request(req: &LoadConfigRequest) -> (r: serde_json::Value)
    requires
        req@.well_formed(),
    ensures
        json::document(r) == req@.sanitized(),
{
    let path = match &req.config_path {
        Some(path) => json::text_value(path.as_str()),
        None => json::null_value(),
    };
    let config = match &req.config {
        Some(config) => sanitized_config_envelope(config),
        None => json::null_value(),
    };
    let mut fields = json::new_map();
    json::put(&mut fields, "configPath", path);
    json::put(&mut fields, "config", config);
    json::object_value(fields)
}

/// Where a configuration comes from.
pub enum ConfigSource {
    Inline(ConfigEnvelope),
    File(String),
}

/// Why a load request with neither a configuration nor a path is refused.
pub open spec fn nothing_to_load() -> ErrorView {
    ErrorView::InvalidRequest("config or configPath is required"@)
}

/// Tells where the configuration of a load request comes from. An inline configuration goes before
/// a path; a request with neither is refused.
pub fn config_source(req: LoadConfigRequest) -> (r: Result<ConfigSource, FrameworkError>)
    ensures
        match r {
            Ok(ConfigSource::Inline(config)) => req.config == Some(config),
            Ok(ConfigSource::File(path)) => req.config is None && req.config_path == Some(path),
            Err(error) => req.config is None && req.config_path is None && error@ == nothing_to_load(),
        },
{
    match req.config {
        Some(config) => Ok(ConfigSource::Inline(config)),
        None => match req.config_path {
            Some(path) => Ok(ConfigSource::File(path)),
            None => Err(FrameworkError::InvalidRequest("config or configPath is required".to_owned())),
        },
    }
}

/// Takes the configuration from a file, by what came of reading it and of parsing what was read.
pub fn file_config(read: Result<Result<ConfigEnvelope, serde_json::Error>, String>) -> (r: Result<
    ConfigEnvelope,
    FrameworkError,
>)
    ensures
        match read {
            Ok(Ok(config)) => r == Ok::<ConfigEnvelope, FrameworkError>(config),
            Ok(Err(error)) => r matches Err(failure) && failure@ == ErrorView::Json(json::error_text(error)),
            Err(message) => r matches Err(failure) && failure@ == ErrorView::Io(message@),
        },
{
    match read {
        Ok(Ok(config)) => Ok(config),
        Ok(Err(error)) => Err(FrameworkError::from(error)),
        Err(message) => Err(FrameworkError::Io(message)),
    }
}

impl ServerConfigView {
    /// The two start the same program with the same arguments, and set the same variables: in some
    /// order, to some values.
    pub open spec fn differs_in_values_only(self, other: ServerConfigView) -> bool {
        &&& self.command == other.command
        &&& self.args == other.args
        &&& table::names(self.env).to_multiset() == table::names(other.env).to_multiset()
    }
}

/// What is shown of a server's configuration tells nothing of the values of its variables, nor of
/// the order in which they are set.
pub proof fn values_are_not_shown(a: ServerConfigView, b: ServerConfigView)
    requires
        a.differs_in_values_only(b),
    ensures
        a.sanitized() == b.sanitized(),
{
    let left = table::names(a.env);
    let right = table::names(b.env);
    text::sorting_forgets_the_order(left, right);
    lemma_sorted_has_the_same(left);
    lemma_sorted_has_the_same(right);
    assert(masked(left) =~= masked(right)) by {
        assert forall|name: Seq<char>| left.contains(name) == right.contains(name) by {
            assert(text::sorted_texts(left).contains(name) <==> left.contains(name));
            assert(text::sorted_texts(right).contains(name) <==> right.contains(name));
        }
    }
    left.to_multiset_ensures();
    right.to_multiset_ensures();
    assert(left.len() == left.to_multiset().len());
    assert(right.len() == right.to_multiset().len());
}

/// What is shown of a configuration tells nothing of the values of the servers' variables, nor of
/// the order of the servers.
pub proof fn values_in_configurations_are_not_shown(
    a: Seq<(Seq<char>, ServerConfigView)>,
    b: Seq<(Seq<char>, ServerConfigView)>,
)
    requires
        forall|name: Seq<char>| #[trigger] table::names(a).contains(name) <==> table::names(b).contains(name),
        forall|name: Seq<char>| #[trigger]
            table::names(a).contains(name) ==> table::lookup(a, name)->0.differs_in_values_only(
                table::lookup(b, name)->0,
            ),
    ensures
        sanitized_envelope(a) == sanitized_envelope(b),
{
    assert(sanitized_servers(a) =~= sanitized_servers(b)) by {
        assert forall|name: Seq<char>| #[trigger] table::names(a).contains(name) implies table::lookup(
            a,
            name,
        )->0.sanitized() == table::lookup(b, name)->0.sanitized() by {
            values_are_not_shown(table::lookup(a, name)->0, table::lookup(b, name)->0);
        }
    }
}

impl ServerConfigView {
    /// The two start the same program with the same arguments, and the one sets the variables that
    /// the other sets.
    pub open spec fn sets_the_same(self, other: ServerConfigView) -> bool {
        &&& self.command == other.command
        &&& self.args == other.args
        &&& table::names(self.env).to_set() == table::names(other.env).to_set()
    }
}

/// The two name the same servers, and each server in the one sets what it sets in the other.
pub open spec fn configures_the_same(
    a: Seq<(Seq<char>, ServerConfigView)>,
    b: Seq<(Seq<char>, ServerConfigView)>,
) -> bool {
    &&& table::names(a).to_set() == table::names(b).to_set()
    &&& forall|name: Seq<char>| #[trigger]
        table::names(a).contains(name) ==> table::lookup(a, name)->0.sets_the_same(
            table::lookup(b, name)->0,
        )
}

impl LoadRequestView {
    /// The two ask for the same, but for the values of the servers' variables: they have the same
    /// path, and both or neither a configuration.
    pub open spec fn asks_the_same(self, other: LoadRequestView) -> bool {
        &&& self.config_path == other.config_path
        &&& match (self.config, other.config) {
            (Some(a), Some(b)) => configures_the_same(a, b),
            (None, None) => true,
            _ => false,
        }
    }
}

proof fn lemma_names_once(a: Seq<Seq<char>>, b: Seq<Seq<char>>)
    requires
        a.no_duplicates(),
        b.no_duplicates(),
        a.to_set() == b.to_set(),
    ensures
        a.to_multiset() == b.to_multiset(),
{
    a.lemma_multiset_has_no_duplicates();
    b.lemma_multiset_has_no_duplicates();
    a.to_multiset_ensures();
    b.to_multiset_ensures();
    assert forall|name: Seq<char>| a.to_multiset().count(name) == b.to_multiset().count(name) by {
        assert(a.contains(name) <==> a.to_set().contains(name));
        assert(b.contains(name) <==> b.to_set().contains(name));
        assert(a.contains(name) <==> a.to_multiset().contains(name));
        assert(b.contains(name) <==> b.to_multiset().contains(name));
    }
    assert(a.to_multiset() =~= b.to_multiset());
}

/// What is shown of a load request tells nothing of the values of the servers' variables.
pub proof fn values_in_requests_are_not_shown(a: LoadRequestView, b: LoadRequestView)
    requires
        a.well_formed(),
        b.well_formed(),
        a.asks_the_same(b),
    ensures
        a.sanitized() == b.sanitized(),
{
    if let (Some(left), Some(right)) = (a.config, b.config) {
        assert forall|name: Seq<char>| #[trigger] table::names(left).contains(name) <==> table::names(
            right,
        ).contains(name) by {
            assert(table::names(left).to_set().contains(name) == table::names(right).to_set().contains(name));
        }
        assert forall|name: Seq<char>| #[trigger] table::names(left).contains(name) implies table::lookup(
            left,
            name,
        )->0.differs_in_values_only(table::lookup(right, name)->0) by {
            assert(table::names(right).contains(name));
            let i = table::names(left).index_of(name);
            let j = table::names(right).index_of(name);
            assert(left[i].1.well_formed());
            assert(right[j].1.well_formed());
            lemma_names_once(table::names(left[i].1.env), table::names(right[j].1.env));
        }
        values_in_configurations_are_not_shown(left, right);
    }
}

/// What is shown of a server's configuration is its command, its arguments and the number of its
/// variables as they are; and nothing is shown but these, the variables masked and their names.
pub proof fn commands_and_arguments_are_shown(config: McpServerConfig)
    ensures
        json::member(config@.sanitized(), "command"@) == Some(JsonView::Text(config.command@)),
        json::member(config@.sanitized(), "args"@) matches Some(JsonView::Array(shown)) && shown.len()
            == config.args@.len() && (forall|i: int|
            0 <= i < shown.len() ==> #[trigger] shown[i] == JsonView::Text(config.args@[i]@)),
        json::member(config@.sanitized(), "envCount"@) == Some(JsonView::Integer(config.env@.len() as int)),
        forall|key: Seq<char>| #[trigger]
            json::member(config@.sanitized(), key) is Some ==> key == "command"@ || key == "args"@ || key
                == "env"@ || key == "envKeys"@ || key == "envCount"@,
{
    lemma_sanitized_keys();
}

proof fn lemma_sanitized_keys()
    ensures
        "command"@.len() == 7,
        "args"@.len() == 4,
        "env"@.len() == 3,
        "envKeys"@.len() == 7,
        "envCount"@.len() == 8,
        "command"@ != "envKeys"@,
{
    reveal_strlit("command");
    reveal_strlit("args");
    reveal_strlit("env");
    reveal_strlit("envKeys");
    reveal_strlit("envCount");
    assert("command"@[0] != "envKeys"@[0]);
}

/// Every variable of a server is shown, and no other, each with the mask for its value and never
/// with the value.
pub proof fn variables_are_shown_masked(config: ServerConfigView)
    ensures
        json::member(config.sanitized(), "env"@) matches Some(JsonView::Object(shown)) && (forall|name: Seq<char>| #[trigger]
            shown.contains_key(name) <==> exists|i: int|
                0 <= i < config.env.len() && (#[trigger] config.env[i]).0 == name) && (forall|name: Seq<char>|
            shown.contains_key(name) ==> #[trigger] shown[name] == JsonView::Text("***masked***"@)),
{
    lemma_sanitized_keys();
    let names = table::names(config.env);
    let shown = json::member(config.sanitized(), "env"@)->0->Object_0;
    assert forall|name: Seq<char>| #[trigger] shown.contains_key(name) <==> exists|i: int|
        0 <= i < config.env.len() && (#[trigger] config.env[i]).0 == name by {
        if names.contains(name) {
            let i = names.index_of(name);
            assert(names[i] == name);
            assert(config.env[i].0 == name);
        }
        if exists|i: int| 0 <= i < config.env.len() && (#[trigger] config.env[i]).0 == name {
            let i = choose|i: int| 0 <= i < config.env.len() && (#[trigger] config.env[i]).0 == name;
            assert(names[i] == name);
        }
    }
}

/// The names of the variables are shown in the order of texts, each as often as it is set.
pub proof fn names_of_variables_are_shown_in_order(config: ServerConfigView)
    ensures
        json::member(config.sanitized(), "envKeys"@) matches Some(JsonView::Array(shown)) && shown.len()
            == config.env.len() && (forall|i: int, j: int|
            0 <= i < j < shown.len() ==> (#[trigger] shown[i] matches JsonView::Text(a) && (
            #[trigger] shown[j] matches JsonView::Text(b) && text::text_le(a, b)))) && (forall|i: int|
            0 <= i < config.env.len() ==> shown.contains(JsonView::Text((#[trigger] config.env[i]).0))),
{
    lemma_sanitized_keys();
    let names = table::names(config.env);
    let sorted = text::sorted_texts(names);
    let shown = json::member(config.sanitized(), "envKeys"@)->0->Array_0;
    text::sorting_orders_and_keeps(names);
    lemma_sorted_has_the_same(names);
    names.to_multiset_ensures();
    sorted.to_multiset_ensures();
    assert(names.len() == names.to_multiset().len());
    assert(sorted.len() == sorted.to_multiset().len());
    let order = text::text_order();
    assert forall|i: int, j: int| 0 <= i < j < shown.len() implies (#[trigger] shown[i] matches JsonView::Text(a) && (
    #[trigger] shown[j] matches JsonView::Text(b) && text::text_le(a, b))) by {
        assert(order(sorted[i], sorted[j]));
    }
    assert forall|i: int| 0 <= i < config.env.len() implies shown.contains(
        JsonView::Text((#[trigger] config.env[i]).0),
    ) by {
        assert(names[i] == config.env[i].0);
        assert(names.contains(names[i]));
        assert(sorted.contains(names[i]));
        let k = sorted.index_of(names[i]);
        assert(shown[k] == JsonView::Text(names[i]));
    }
}

/// A configuration is shown with every server that it names and no other, each as it is shown by
/// itself.
pub proof fn every_server_is_shown(servers: Seq<(Seq<char>, ServerConfigView)>)
    requires
        table::names(servers).no_duplicates(),
    ensures
        json::member(sanitized_envelope(servers), "mcpServers"@) matches Some(JsonView::Object(shown)) && (forall|
            name: Seq<char>,
        | #[trigger]
            shown.contains_key(name) ==> exists|i: int| 0 <= i < servers.len() && (#[trigger] servers[i]).0 == name)
            && (forall|i: int|
            0 <= i < servers.len() ==> shown.contains_key((#[trigger] servers[i]).0) && shown[servers[i].0]
                == servers[i].1.sanitized()),
        forall|key: Seq<char>| #[trigger]
            json::member(sanitized_envelope(servers), key) is Some ==> key == "mcpServers"@,
{
    let names = table::names(servers);
    let shown = json::member(sanitized_envelope(servers), "mcpServers"@)->0->Object_0;
    assert forall|name: Seq<char>| #[trigger] shown.contains_key(name) implies exists|i: int|
        0 <= i < servers.len() && (#[trigger] servers[i]).0 == name by {
        let i = names.index_of(name);
        assert(names[i] == name);
        assert(servers[i].0 == name);
    }
    assert forall|i: int| 0 <= i < servers.len() implies shown.contains_key((#[trigger] servers[i]).0)
        && shown[servers[i].0] == servers[i].1.sanitized() by {
        assert(names[i] == servers[i].0);
        table::lemma_lookup_row(servers, i);
    }
}

/// A load request is shown with its path, and with its configuration as that is shown by itself;
/// what it does not have is shown as null, and nothing else is shown.
pub proof fn requests_are_shown_with_what_they_have(req: LoadConfigRequest)
    ensures
        json::member(req@.sanitized(), "configPath"@) == Some(
            match req.config_path {
                Some(path) => JsonView::Text(path@),
                None => JsonView::Null,
            },
        ),
        json::member(req@.sanitized(), "config"@) == Some(
            match req.config {
                Some(config) => sanitized_envelope(config@),
                None => JsonView::Null,
            },
        ),
        forall|key: Seq<char>| #[trigger]
            json::member(req@.sanitized(), key) is Some ==> key == "configPath"@ || key == "config"@,
{
    reveal_strlit("configPath");
    reveal_strlit("config");
    assert("configPath"@.len() != "config"@.len());
}

/// A configuration is what it holds: the command, the arguments and the variables of a server, and
/// the servers by name.
pub proof fn configurations_are_what_they_hold(config: McpServerConfig, envelope: ConfigEnvelope, i: int)
    ensures
        config@.command == config.command@,
        config@.args.len() == config.args@.len(),
        0 <= i < config.args@.len() ==> config@.args[i] == config.args@[i]@,
        config@.env == config.env@,
        envelope@ == envelope.mcp_servers@,
{
}

/// A configuration is well formed where no two servers have one name and no server sets one variable
/// twice, and a request where its configuration is, if it has one. Nothing more is asked of them.
pub proof fn well_formed_requests_name_everything_once(
    servers: Seq<(Seq<char>, ServerConfigView)>,
    config_path: Option<Seq<char>>,
)
    requires
        forall|i: int, j: int|
            0 <= i < j < servers.len() ==> (#[trigger] servers[i]).0 != (#[trigger] servers[j]).0,
        forall|k: int, i: int, j: int|
            0 <= k < servers.len() && 0 <= i < j < servers[k].1.env.len() ==> (#[trigger] servers[k].1.env[i]).0
                != (#[trigger] servers[k].1.env[j]).0,
    ensures
        well_formed_servers(servers),
        (LoadRequestView { config: Some(servers), config_path }).well_formed(),
        (LoadRequestView { config: None, config_path }).well_formed(),
{
    let names = table::names(servers);
    assert forall|i: int, j: int| 0 <= i < names.len() && 0 <= j < names.len() && i != j implies names[i]
        != names[j] by {
        assert(servers[i].0 != servers[j].0);
    }
    assert forall|k: int| 0 <= k < servers.len() implies (#[trigger] servers[k]).1.well_formed() by {
        let env = servers[k].1.env;
        let set = table::names(env);
        assert forall|i: int, j: int| 0 <= i < set.len() && 0 <= j < set.len() && i != j implies set[i]
            != set[j] by {
            assert(servers[k].1.env[i].0 != servers[k].1.env[j].0);
        }
    }
}

} // verus!
