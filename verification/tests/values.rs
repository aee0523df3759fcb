use codex_a2a::json::{parse, render, render_pretty, to_text, write_line, Json};
use codex_a2a::locks::WriteLocks;
use codex_a2a::order::newest_order;
use codex_a2a::registry::Registry;
use codex_a2a::state::TaskOptions;
use codex_a2a::task::{
    annotate_task, extract_text, git_capture, git_failure, git_output, inside_worktree,
    is_terminal_state, says_true, task_in_state, task_updated_at, trace_after, trace_before,
    GitOutcome,
};
use codex_a2a::text::{
    decimal_text, hexadecimal_text, is_blank, join, lowercase, parse_number, replace, split,
    split_once, strip_prefix, take_chars, text_lines, trim,
};

fn json(text: &str) -> Json {
    parse(text.as_bytes()).expect("a JSON document")
}

#[test]
fn values_are_written_as_they_were_read() {
    let text = r#"{"a":[1,-2,true,null,"x\n"],"b":{"c":18446744073709551615}}"#;
    let value = json(text);
    assert_eq!(to_text(&value), text);
    assert_eq!(String::from_utf8(render(&value)).expect("text"), text);
    let pretty = render_pretty(&value).expect("a document");
    assert!(pretty.len() > text.len());
    assert_eq!(to_text(&parse(&pretty).expect("a document")), text);
    assert_eq!(to_text(&json("[1.5]").clone()), "[1.5]");
    assert!(parse(b"{").is_none());
    assert!(parse(b"").is_none());
}

#[test]
fn numbers_that_hold_integers_are_integers() {
    let number = Json::Number(serde_json::Number::from(7u64));
    assert_eq!(number.as_u64(), Some(7));
    assert_eq!(to_text(&number), "7");
    assert_eq!(json("1.5").as_u64(), None);
    assert_eq!(json("-7").as_u64(), None);
    assert_eq!(Json::Signed(7).as_u64(), Some(7));
}

#[test]
fn fields_are_set_and_read() {
    let value = json(r#"{"a":1,"a":2,"n":-1,"t":"x"}"#);
    assert_eq!(value.u64_at("a"), Some(2));
    assert_eq!(value.u64_at("n"), None);
    assert_eq!(value.text_at("t"), Some("x"));
    assert_eq!(value.text_at("a"), None);
    assert!(value.get("b").is_none());
    assert!(value.at("b").is_null());
    let value = value.with("a", Json::Null).with("b", Json::Bool(true));
    assert_eq!(to_text(&value), r#"{"a":null,"b":true,"n":-1,"t":"x"}"#);
    assert_eq!(to_text(&Json::text("x").with("a", Json::Null)), "\"x\"");
}

#[test]
fn registries_keep_one_value_per_name() {
    let mut registry: Registry<String> = Registry::new();
    registry.insert("a", "1".to_string());
    registry.insert("b", "2".to_string());
    registry.insert("a", "3".to_string());
    assert_eq!(registry.len(), 2);
    assert_eq!(registry.get("a"), Some(&"3".to_string()));
    assert!(!registry.contains_key("c"));
    assert_eq!(registry.remove("a"), Some("3".to_string()));
    assert_eq!(registry.remove("a"), None);
    assert_eq!(registry.len(), 1);
}

#[test]
fn orders_keep_equal_times_in_place() {
    assert_eq!(newest_order(&vec![1, 3, 2, 3]), vec![1, 3, 2, 0]);
    assert_eq!(newest_order(&Vec::new()), Vec::<usize>::new());
}

#[test]
fn texts_are_cut_and_joined() {
    assert_eq!(trim(" \u{2003}a b\n"), "a b");
    assert!(is_blank("\t\u{a0}"));
    assert_eq!(split("a\r\nb\r\n", "\r\n"), vec!["a", "b", ""]);
    assert_eq!(text_lines("a\r\nb\n\nc\r"), vec!["a", "b", "", "c\r"]);
    assert_eq!(text_lines(""), Vec::<String>::new());
    assert_eq!(split_once("a:b:c", ':'), Some(("a".to_string(), "b:c".to_string())));
    assert_eq!(split_once("a", ':'), None);
    assert_eq!(strip_prefix("Bearer x", "Bearer "), Some("x".to_string()));
    assert_eq!(strip_prefix("Beare", "Bearer "), None);
    assert_eq!(join(&vec!["a".to_string(), "b".to_string()], ", "), "a, b");
    assert_eq!(replace("a/b/c", '/', "--"), "a--b--c");
    assert_eq!(lowercase("Content-LENGTH \u{c4}"), "content-length \u{c4}");
    assert_eq!(take_chars("h\u{e9}llo", 2), "h\u{e9}");
}

#[test]
fn numbers_are_written_and_read() {
    assert_eq!(decimal_text(0), "0");
    assert_eq!(decimal_text(u128::MAX), "340282366920938463463374607431768211455");
    assert_eq!(hexadecimal_text(0), "0");
    assert_eq!(hexadecimal_text(0xdead), "dead");
    assert_eq!(parse_number("0012"), Some(12));
    assert_eq!(parse_number("+7"), Some(7));
    assert_eq!(parse_number("-7"), None);
    assert_eq!(parse_number(""), None);
    assert_eq!(parse_number("18446744073709551615"), Some(usize::MAX));
    assert_eq!(parse_number("18446744073709551616"), None);
}

#[test]
fn messages_join_their_texts() {
    let message = json(r#"{"parts":[{"text":"a"},{"data":1},{"text":"b"}]}"#);
    assert_eq!(extract_text(&message), "a\nb");
    assert_eq!(extract_text(&Json::Null), "");
    assert_eq!(extract_text(&json(r#"{"parts":"a"}"#)), "");
}

#[test]
fn annotations_keep_the_time_of_creation() {
    let task = annotate_task(json(r#"{"metadata":{"createdAt":1}}"#), "t", "c", true, false, 9);
    assert_eq!(
        to_text(&task),
        r#"{"metadata":{"contextId":"c","createdAt":1,"deprecatedSessionIdAliasUsed":false,"deprecatedTasksSendAliasUsed":true,"taskId":"t","updatedAt":9}}"#
    );
    assert_eq!(task_updated_at(&task), 9);
    assert_eq!(task_updated_at(&Json::Null), 0);
    assert!(is_terminal_state("completed"));
    assert!(is_terminal_state("failed"));
    assert!(is_terminal_state("canceled"));
    assert!(!is_terminal_state("working"));
}

#[test]
fn git_tells_its_output_or_its_error() {
    assert_eq!(to_text(&git_capture(&GitOutcome::Success(b" abc\n".to_vec()))), "\"abc\"");
    assert_eq!(
        to_text(&git_capture(&GitOutcome::Failure(b"bad \n".to_vec(), Some(128)))),
        r#"{"error":"bad","exitCode":128}"#
    );
    assert_eq!(
        to_text(&git_capture(&GitOutcome::Failure(Vec::new(), None))),
        r#"{"error":"","exitCode":null}"#
    );
    assert_eq!(to_text(&git_output(" a ")), "\"a\"");
    assert_eq!(to_text(&git_failure(" a ", Some(-1))), r#"{"error":"a","exitCode":-1}"#);
    assert_eq!(
        to_text(&git_capture(&GitOutcome::Error("no git".to_string()))),
        r#"{"error":"no git"}"#
    );
}

fn options(write_enabled: bool, directory: &str) -> TaskOptions {
    TaskOptions {
        sandbox_mode: "workspace-write".to_string(),
        working_directory: directory.to_string(),
        write_enabled,
    }
}

#[test]
fn a_directory_has_one_lock() {
    let mut locks = WriteLocks::new();
    assert_eq!(locks.place("/a"), 0);
    assert_eq!(locks.place("/b"), 1);
    assert_eq!(locks.place("/a"), 0);
    assert_eq!(locks.place("/a/"), 2);
    assert_eq!(locks.place("/b"), 1);
    assert_eq!(locks.directories, vec!["/a", "/b", "/a/"]);
}

#[test]
fn only_runs_that_write_wait_for_one_another() {
    let mut locks = WriteLocks::new();
    assert_eq!(locks.place_for(&options(false, "/a")), None);
    assert!(locks.directories.is_empty());
    assert_eq!(locks.place_for(&options(true, "/a")), Some(0));
    assert_eq!(locks.place_for(&options(true, "/b")), Some(1));
    assert_eq!(locks.place_for(&options(true, "/a")), Some(0));
    assert_eq!(locks.place_for(&options(false, "/b")), None);
}

#[test]
fn numbers_that_are_no_integers_are_written_too() {
    let value = json("[0.5,{\"a\":-1}]");
    assert_eq!(write_line(&value), Some(b"[0.5,{\"a\":-1}]".to_vec()));
    assert!(render_pretty(&value).is_some());
}

#[test]
fn a_worktree_is_more_than_a_repository() {
    assert!(inside_worktree(true, b"true\n"));
    assert!(!inside_worktree(true, b"false\n"));
    assert!(!inside_worktree(false, b"true\n"));
    assert!(!inside_worktree(true, b""));
    assert!(!inside_worktree(true, b"true\xff"));
    assert!(says_true(" true\r\n"));
    assert!(!says_true("true true"));
}

#[test]
fn a_task_is_in_the_state_that_it_says() {
    assert!(task_in_state(&json(r#"{"status":{"state":"working"}}"#), "working"));
    assert!(!task_in_state(&json(r#"{"status":{"state":"completed"}}"#), "working"));
    assert!(!task_in_state(&json(r#"{"status":"working"}"#), "working"));
    assert!(!task_in_state(&json("{}"), "working"));
}

#[test]
fn traces_hold_what_was_before_and_after() {
    let options = TaskOptions {
        sandbox_mode: "workspace-write".to_string(),
        working_directory: "/w".to_string(),
        write_enabled: true,
    };
    let before = trace_before(&options, Json::text("h"), Json::text("s"));
    assert_eq!(
        to_text(&before),
        r#"{"gitHeadBefore":"h","gitStatusBefore":"s","sandboxMode":"workspace-write","workingDirectory":"/w","writeEnabled":true}"#
    );
    let trace = trace_after(
        Json::text("before"),
        Json::text("h"),
        Json::text("s"),
        Json::text("d"),
        Json::text("ds"),
    );
    assert_eq!(
        to_text(&trace),
        r#"{"after":{"gitDiffAfter":"d","gitDiffStatAfter":"ds","gitHeadAfter":"h","gitStatusAfter":"s"},"before":"before"}"#
    );
}
