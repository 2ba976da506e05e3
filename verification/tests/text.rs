use mcp_framework::args::{
    arg_value, listen_address, log_dir_setting, log_level, resolve_log_dir, timeout_from_args_env,
    LogDir, TimeoutConfig, TimeoutEnv,
};
use mcp_framework::logs::{
    log_debug_json, log_error_text, log_json, log_text, log_warn_text, log_written, LogLevel,
    LOG_PREVIEW_LIMIT,
};
use mcp_framework::text::{decimal_text, is_white_space, parse_number, sort_texts, trim, truncate_text};

fn strings(items: &[&str]) -> Vec<String> {
    items.iter().map(|s| s.to_string()).collect()
}

#[test]
fn numbers_are_written_in_decimal() {
    for n in [0, 7, 10, 305, 9_876_543_210, u64::MAX as u128, u128::MAX] {
        assert_eq!(decimal_text(n), format!("{}", n));
    }
}

#[test]
fn numbers_are_read_as_written() {
    for n in [0, 9, 10, 300_000, u64::MAX] {
        assert_eq!(parse_number(&decimal_text(n as u128)), Some(n));
    }
}

#[test]
fn number_texts_are_read_as_std_reads_them() {
    let cases = [
        "", "+", "-", "+5", "-5", "0", "007", " 5", "5 ", "5x", "++5", "18446744073709551615",
        "18446744073709551616", "99999999999999999999999", "1_000", "٣",
    ];
    for case in cases {
        assert_eq!(parse_number(case), case.parse::<u64>().ok(), "{case:?}");
    }
}

#[test]
fn white_space_goes_at_both_ends_only() {
    for case in ["", "  ", "a", " a b \n", "\r\n\t{}\u{3000}", "\u{a0}x\u{85}", "日 志 "] {
        assert_eq!(trim(case), case.trim(), "{case:?}");
        assert_eq!(trim(trim(case)), trim(case));
    }
}

#[test]
fn white_space_is_what_std_says_of_every_character() {
    for c in '\u{0}'..=char::MAX {
        assert_eq!(is_white_space(c), c.is_whitespace(), "{c:?}");
    }
}

#[test]
fn cutting_further_is_cutting_at_once() {
    for text in ["", "abc", "abcdefgh", "临时日志目录"] {
        for larger in 0..9 {
            for smaller in 0..=larger {
                assert_eq!(truncate_text(&truncate_text(text, larger), smaller), truncate_text(text, smaller));
            }
        }
    }
}

#[test]
fn short_texts_are_kept() {
    assert_eq!(truncate_text("", 0), "");
    assert_eq!(truncate_text("abc", 3), "abc");
    assert_eq!(truncate_text("日志", 2), "日志");
}

#[test]
fn long_texts_are_cut_by_characters() {
    assert_eq!(truncate_text("abcd", 3), "abc...(truncated)");
    assert_eq!(truncate_text("临时日志", 2), "临时...(truncated)");
    assert_eq!(truncate_text("a", 0), "...(truncated)");
}

#[test]
fn cutting_again_changes_nothing() {
    let once = truncate_text("abcdefgh", 5);
    assert_eq!(truncate_text(&once, 5), once);
}

#[test]
fn texts_are_sorted_as_std_sorts_them() {
    let items = strings(&["b", "", "ab", "é", "a", "a", "Z", "日", "\u{10000}", "\u{ffff}"]);
    let mut expected = items.clone();
    expected.sort();
    assert_eq!(sort_texts(&items), expected);
}

#[test]
fn sorting_does_not_depend_on_the_order() {
    assert_eq!(sort_texts(&strings(&["c", "a", "b"])), sort_texts(&strings(&["b", "c", "a"])));
}

#[test]
fn a_flag_has_the_argument_after_it() {
    let args = strings(&["prog", "--host", "0.0.0.0", "--port", "1", "--port", "2", "--last"]);
    assert_eq!(arg_value(&args, "--host"), Some("0.0.0.0".to_string()));
    assert_eq!(arg_value(&args, "--port"), Some("1".to_string()));
    assert_eq!(arg_value(&args, "--last"), None);
    assert_eq!(arg_value(&args, "--none"), None);
    assert_eq!(arg_value(&[], "--host"), None);
}

#[test]
fn a_flag_at_the_end_hides_nothing_later() {
    let args = strings(&["--a", "--a"]);
    assert_eq!(arg_value(&args, "--a"), Some("--a".to_string()));
}

#[test]
fn timeouts_come_from_flag_then_environment_then_default() {
    let args = strings(&["prog", "--t", "250"]);
    let env = || Some("70".to_string());
    assert_eq!(timeout_from_args_env(&args, "--t", env(), 9), 250);
    assert_eq!(timeout_from_args_env(&args, "--u", env(), 9), 70);
    assert_eq!(timeout_from_args_env(&args, "--u", None, 9), 9);
}

#[test]
fn bad_timeouts_fall_back_to_the_default() {
    for bad in ["0", "-3", "soon", "", "18446744073709551616"] {
        let args = strings(&["--t", bad]);
        assert_eq!(timeout_from_args_env(&args, "--t", Some("70".to_string()), 9), 9);
    }
}

#[test]
fn timeouts_have_their_flags_and_defaults() {
    let none = || TimeoutEnv { initialize: None, list_tools: None, tool_call: None };
    let r = TimeoutConfig::from_args_env(&[], none());
    assert_eq!((r.initialize, r.list_tools, r.tool_call), (10_000, 10_000, 300_000));
    let args = strings(&[
        "--init-timeout-ms", "1", "--list-tools-timeout-ms", "2", "--call-timeout-ms", "3",
    ]);
    let r = TimeoutConfig::from_args_env(&args, none());
    assert_eq!((r.initialize, r.list_tools, r.tool_call), (1, 2, 3));
    let env = TimeoutEnv {
        initialize: Some("4".to_string()),
        list_tools: Some("5".to_string()),
        tool_call: Some("6".to_string()),
    };
    let r = TimeoutConfig::from_args_env(&[], env);
    assert_eq!((r.initialize, r.list_tools, r.tool_call), (4, 5, 6));
}

#[test]
fn log_settings() {
    let args = strings(&["--log-level", "debug", "--log-dir", "/var/log"]);
    assert_eq!(log_level(&args, Some("warn".to_string())), "debug");
    assert_eq!(log_level(&[], Some("warn".to_string())), "warn");
    assert_eq!(log_level(&[], None), "info");
    assert_eq!(log_dir_setting(&args, None), Some("/var/log".to_string()));
    assert_eq!(log_dir_setting(&[], None), None);
    assert!(matches!(resolve_log_dir(Some("/x".to_string()), true), LogDir::Absolute(p) if p == "/x"));
    assert!(matches!(resolve_log_dir(Some("x".to_string()), false), LogDir::InCurrentDir(p) if p == "x"));
    assert!(matches!(resolve_log_dir(None, false), LogDir::InCurrentDir(p) if p == "临时日志"));
}

#[test]
fn the_address_has_defaults() {
    assert_eq!(listen_address(&[]), "127.0.0.1:9528");
    let args = strings(&["--host", "127.0.0.1", "--port", "19528"]);
    assert_eq!(listen_address(&args), "127.0.0.1:19528");
}

#[test]
fn records_have_level_kind_scope_and_text() {
    let r = log_text("启动", "main", "text");
    assert_eq!((r.level, r.kind.as_str(), r.scope.as_str(), r.message.as_str()), (LogLevel::Info, "启动", "main", "text"));
    assert_eq!(log_warn_text("k", "s", "t").level, LogLevel::Warn);
    assert_eq!(log_error_text("k", "s", "t").level, LogLevel::Error);
}

#[test]
fn records_are_cut() {
    let long = "x".repeat(LOG_PREVIEW_LIMIT + 1);
    let r = log_text("k", "s", &long);
    assert_eq!(r.message, format!("{}...(truncated)", "x".repeat(4000)));
}

#[test]
fn records_of_documents_hold_their_text() {
    let value: serde_json::Value = serde_json::from_str("{ \"b\": [1, null],\n \"a\": \"x\\ny\" }").unwrap();
    let r = log_json("k", "s", &value);
    assert_eq!(r.level, LogLevel::Info);
    assert_eq!(r.message, "{\"a\":\"x\\ny\",\"b\":[1,null]}");
    let r = log_debug_json("k", "s", &value);
    assert_eq!(r.level, LogLevel::Debug);
}

#[test]
fn records_tell_of_documents_that_cannot_be_written() {
    let r = log_written(LogLevel::Info, "k", "s", Err("bad".to_string()));
    assert_eq!(r.level, LogLevel::Error);
    assert_eq!((r.kind.as_str(), r.scope.as_str(), r.message.as_str()), ("日志错误", "s", "日志序列化失败: bad"));
}
