//! The command line and the environment: where to listen, how long to wait, what to log.

use crate::text;
use vstd::prelude::*;
use vstd::string::*;

verus! {

pub const DEFAULT_HOST: &'static str = "127.0.0.1";

pub const DEFAULT_PORT: &'static str = "9528";

pub const DEFAULT_LOG_DIR_NAME: &'static str = "临时日志";

pub const DEFAULT_LOG_LEVEL: &'static str = "info";

pub const DEFAULT_INIT_TIMEOUT_MS: u64 = 10_000;

pub const DEFAULT_LIST_TOOLS_TIMEOUT_MS: u64 = 10_000;

pub const DEFAULT_TOOL_CALL_TIMEOUT_MS: u64 = 300_000;

/// The argument that follows the first occurrence of a flag.
pub open spec fn flag_value(args: Seq<Seq<char>>, flag: Seq<char>) -> Option<Seq<char>>
    decreases args.len(),
{
    if args.len() == 0 {
        None
    } else if args[0] == flag {
        if args.len() > 1 {
            Some(args[1])
        } else {
            None
        }
    } else {
        flag_value(args.drop_first(), flag)
    }
}

/// The text of an optional string.
pub open spec fn optional(value: Option<String>) -> Option<Seq<char>> {
    match value {
        Some(v) => Some(v@),
        None => None,
    }
}

/// What was set on the command line, or else in the environment.
pub open spec fn setting(
    args: Seq<Seq<char>>,
    flag: Seq<char>,
    env_value: Option<Seq<char>>,
) -> Option<Seq<char>> {
    match flag_value(args, flag) {
        Some(value) => Some(value),
        None => env_value,
    }
}

/// The milliseconds to wait: what was set, where that is a number above zero.
pub open spec fn timeout_setting(set: Option<Seq<char>>, default_ms: u64) -> u64 {
    match set {
        Some(raw) => match text::parsed_number(raw) {
            Some(ms) => if ms > 0 {
                ms
            } else {
                default_ms
            },
            None => default_ms,
        },
        None => default_ms,
    }
}

/// Looks up the value of a flag on the command line.
pub fn arg_value(args: &[String], key: &str) -> (r: Option<String>)
    ensures
        optional(r) == flag_value(text::texts(args@), key@),
{
    let wanted = key.to_owned();
    let ghost all = text::texts(args@);
    let mut i: usize = 0;
    assert(all.skip(0) =~= all);
    while i < args.len()
        invariant
            i <= args.len(),
            wanted@ == key@,
            all == text::texts(args@),
            flag_value(all, key@) == flag_value(all.skip(i as int), key@),
        decreases args.len() - i,
    {
        assert(all.skip(i as int)[0] == args@[i as int]@);
        if args[i] == wanted {
            if i + 1 < args.len() {
                assert(all.skip(i as int)[1] == args@[i + 1]@);
                return Some(args[i + 1].clone());
            }
            return None;
        }
        assert(all.skip(i as int).drop_first() =~= all.skip(i + 1));
        i = i + 1;
    }
    None
}

/// Takes a setting from the command line, or else from the environment.
fn arg_or_env(args: &[String], flag: &str, env_value: Option<String>) -> (r: Option<String>)
    ensures
        optional(r) == setting(text::texts(args@), flag@, optional(env_value)),
{
    match arg_value(args, flag) {
        Some(value) => Some(value),
        None => env_value,
    }
}

/// Tells how many milliseconds to wait, from the value that a flag or a variable has.
pub fn timeout_from_args_env(
    args: &[String],
    flag: &str,
    env_value: Option<String>,
    default_ms: u64,
) -> (r: u64)
    ensures
        r == timeout_setting(setting(text::texts(args@), flag@, optional(env_value)), default_ms),
{
    match arg_or_env(args, flag, env_value) {
        Some(raw) => match text::parse_number(raw.as_str()) {
            Some(ms) => if ms > 0 {
                ms
            } else {
                default_ms
            },
            None => default_ms,
        },
        None => default_ms,
    }
}

/// How long to wait for a server, in milliseconds.
#[derive(Clone, Copy)]
pub struct TimeoutConfig {
    pub initialize: u64,
    pub list_tools: u64,
    pub tool_call: u64,
}

/// What is waited for.
#[derive(Debug, Clone, Copy, PartialEq, Eq, Structural)]
pub enum Wait {
    Initialize,
    ListTools,
    ToolCall,
}

/// The variables that set how long to wait.
pub struct TimeoutEnv {
    pub initialize: Option<String>,
    pub list_tools: Option<String>,
    pub tool_call: Option<String>,
}

impl TimeoutConfig {
    /// Tells how long to wait for each kind of answer.
    pub fn from_args_env(args: &[String], env: TimeoutEnv) -> (r: TimeoutConfig)
        ensures
            r.initialize == timeout_setting(
                setting(text::texts(args@), "--init-timeout-ms"@, optional(env.initialize)),
                DEFAULT_INIT_TIMEOUT_MS,
            ),
            r.list_tools == timeout_setting(
                setting(text::texts(args@), "--list-tools-timeout-ms"@, optional(env.list_tools)),
                DEFAULT_LIST_TOOLS_TIMEOUT_MS,
            ),
            r.tool_call == timeout_setting(
                setting(text::texts(args@), "--call-timeout-ms"@, optional(env.tool_call)),
                DEFAULT_TOOL_CALL_TIMEOUT_MS,
            ),
    {
        TimeoutConfig {
            initialize: timeout_from_args_env(
                args,
                "--init-timeout-ms",
                env.initialize,
                DEFAULT_INIT_TIMEOUT_MS,
            ),
            list_tools: timeout_from_args_env(
                args,
                "--list-tools-timeout-ms",
                env.list_tools,
                DEFAULT_LIST_TOOLS_TIMEOUT_MS,
            ),
            tool_call: timeout_from_args_env(
                args,
                "--call-timeout-ms",
                env.tool_call,
                DEFAULT_TOOL_CALL_TIMEOUT_MS,
            ),
        }
    }

    /// Tells how many milliseconds to wait for an answer.
    pub fn limit(&self, wait: Wait) -> (r: u64)
        ensures
            r == match wait {
                Wait::Initialize => self.initialize,
                Wait::ListTools => self.list_tools,
                Wait::ToolCall => self.tool_call,
            },
    {
        match wait {
            Wait::Initialize => self.initialize,
            Wait::ListTools => self.list_tools,
            Wait::ToolCall => self.tool_call,
        }
    }
}

/// A setting, or else a default.
pub open spec fn or_default(set: Option<Seq<char>>, default: Seq<char>) -> Seq<char> {
    match set {
        Some(value) => value,
        None => default,
    }
}

/// Tells how much to log.
pub fn log_level(args: &[String], env_value: Option<String>) -> (r: String)
    ensures
        r@ == or_default(
            setting(text::texts(args@), "--log-level"@, optional(env_value)),
            DEFAULT_LOG_LEVEL@,
        ),
{
    match arg_or_env(args, "--log-level", env_value) {
        Some(level) => level,
        None => DEFAULT_LOG_LEVEL.to_owned(),
    }
}

/// The directory that was set to log to.
pub fn log_dir_setting(args: &[String], env_value: Option<String>) -> (r: Option<String>)
    ensures
        optional(r) == setting(text::texts(args@), "--log-dir"@, optional(env_value)),
{
    arg_or_env(args, "--log-dir", env_value)
}

/// A directory to log to.
pub enum LogDir {
    /// The path as it is.
    Absolute(String),
    /// A path that counts from the current directory.
    InCurrentDir(String),
}

/// Tells the directory to log to, from what was set and whether that is an absolute path.
pub fn resolve_log_dir(set: Option<String>, is_absolute: bool) -> (r: LogDir)
    ensures
        match (set, r) {
            (Some(dir), LogDir::Absolute(path)) => is_absolute && path == dir,
            (Some(dir), LogDir::InCurrentDir(path)) => !is_absolute && path == dir,
            (None, LogDir::Absolute(_)) => false,
            (None, LogDir::InCurrentDir(path)) => path@ == DEFAULT_LOG_DIR_NAME@,
        },
{
    match set {
        Some(dir) => if is_absolute {
            LogDir::Absolute(dir)
        } else {
            LogDir::InCurrentDir(dir)
        },
        None => LogDir::InCurrentDir(DEFAULT_LOG_DIR_NAME.to_owned()),
    }
}

/// Tells the address to listen on.
pub fn listen_address(args: &[String]) -> (r: String)
    ensures
        r@ == or_default(flag_value(text::texts(args@), "--host"@), DEFAULT_HOST@) + ":"@ + or_default(
            flag_value(text::texts(args@), "--port"@),
            DEFAULT_PORT@,
        ),
{
    let mut r = match arg_value(args, "--host") {
        Some(host) => host,
        None => DEFAULT_HOST.to_owned(),
    };
    r.append(":");
    match arg_value(args, "--port") {
        Some(port) => r.append(port.as_str()),
        None => r.append(DEFAULT_PORT),
    }
    r
}

/// Whatever was set, some time is waited, where the default waits.
pub proof fn some_time_is_waited(set: Option<Seq<char>>, default_ms: u64)
    requires
        default_ms > 0,
    ensures
        timeout_setting(set, default_ms) > 0,
{
}

/// A flag on the command line goes before the environment.
pub proof fn the_command_line_goes_first(
    args: Seq<Seq<char>>,
    flag: Seq<char>,
    env_value: Option<Seq<char>>,
    other: Option<Seq<char>>,
)
    requires
        flag_value(args, flag) is Some,
    ensures
        setting(args, flag, env_value) == setting(args, flag, other),
{
}

/// A flag has the argument that follows its first occurrence: none where it is the last, and none
/// where it does not occur.
pub proof fn flags_have_the_next_argument(args: Seq<Seq<char>>, flag: Seq<char>, at: int)
    requires
        0 <= at <= args.len(),
        forall|i: int| 0 <= i < at ==> #[trigger] args[i] != flag,
        at < args.len() ==> args[at] == flag,
    ensures
        at + 1 < args.len() ==> flag_value(args, flag) == Some(args[at + 1]),
        at + 1 >= args.len() ==> flag_value(args, flag) is None,
    decreases args.len(),
{
    if at > 0 {
        let rest = args.drop_first();
        assert(args[0] != flag);
        assert forall|i: int| 0 <= i < at - 1 implies #[trigger] rest[i] != flag by {
            assert(rest[i] == args[i + 1]);
        }
        assert(at < args.len() ==> rest[at - 1] == args[at]);
        assert(at + 1 < args.len() ==> rest[at] == args[at + 1]);
        flags_have_the_next_argument(rest, flag, at - 1);
    }
}

/// What is set is the value of the flag where it has one, and else what the environment says.
pub proof fn the_environment_goes_second(args: Seq<Seq<char>>, flag: Seq<char>, env_value: Option<String>)
    ensures
        flag_value(args, flag) is Some ==> setting(args, flag, optional(env_value)) == flag_value(args, flag),
        flag_value(args, flag) is None && env_value is Some ==> setting(args, flag, optional(env_value)) == Some(
            env_value->0@,
        ),
        flag_value(args, flag) is None && env_value is None ==> setting(args, flag, optional(env_value)) is None,
{
}

/// A number above zero that is set is the time that is waited; whatever else is set, and where
/// nothing is, the default is.
pub proof fn set_times_are_waited(set: Option<Seq<char>>, ms: u64, default_ms: u64)
    ensures
        ms > 0 ==> timeout_setting(Some(text::decimal(ms as nat)), default_ms) == ms,
        timeout_setting(Some(text::decimal(0)), default_ms) == default_ms,
        set is Some && text::parsed_number(set->0) is Some && text::parsed_number(set->0)->0 > 0 ==> timeout_setting(
            set,
            default_ms,
        ) == text::parsed_number(set->0)->0,
        set is Some && text::parsed_number(set->0) == Some(0u64) ==> timeout_setting(set, default_ms)
            == default_ms,
        set is Some && text::parsed_number(set->0) is None ==> timeout_setting(set, default_ms) == default_ms,
        set is None ==> timeout_setting(set, default_ms) == default_ms,
{
    text::numbers_are_read_back(ms);
    text::numbers_are_read_back(0);
}

/// A default stands only where nothing is set.
pub proof fn defaults_stand_where_nothing_is_set(set: Seq<char>, default: Seq<char>)
    ensures
        or_default(Some(set), default) == set,
        or_default(None, default) == default,
{
}

} // verus!
