use codex_a2a::config::{Config, RawConfig};
use codex_a2a::json::{parse, to_text, Json};
use codex_a2a::registry::Registry;
use codex_a2a::rpc::call_from_json;
use codex_a2a::service::Moment;
use codex_a2a::state::AppState;
use codex_a2a::stream::{open_stream, stream_step, Opening};
use std::sync::Arc;

fn json(text: &str) -> Json {
    parse(text.as_bytes()).expect("a JSON document")
}

fn state() -> AppState {
    let raw = RawConfig {
        backend: None,
        host: None,
        port: None,
        public_url: "http://agent".to_string(),
        sessions_dir: "/s".to_string(),
        default_working_directory: "/work".to_string(),
        codex_bin: None,
        auth_token_env: None,
        auth_token_file: None,
        auth_token_keychain_service: None,
        write_roots: None,
        write_mode_sandbox_permissions: None,
        allowed_sources: None,
        max_body_bytes: None,
        max_concurrent_tasks: None,
        read_timeout_secs: None,
        expose_local_sessions: None,
    };
    AppState {
        config: Arc::new(Config::from_raw(raw).expect("a configuration")),
        tasks: Registry::new(),
        sessions: Registry::new(),
        running: Registry::new(),
    }
}

#[test]
fn a_stream_opens_with_the_task() {
    let mut state = state();
    let text = r#"{"id":4,"method":"message/stream","params":{"id":"t","contextId":"c","message":{"parts":[{"text":"x"}]}}}"#;
    let moment = Moment { now: 1, nanos: 1, seq: 1 };
    let (reply, opening) = state.start_stream(call_from_json(&json(text)), &moment, &None);
    assert!(reply.start.is_some());
    match opening {
        Opening::Opened(task_id, event) => {
            assert_eq!(task_id, "t");
            assert_eq!(to_text(&event.at("id")), "4");
            assert_eq!(event.at("result").text_at("kind"), Some("task"));
            assert_eq!(
                to_text(&event.at("result").at("task")),
                to_text(state.tasks.get("t").expect("a task"))
            );
        }
        Opening::Refused(_) => panic!("refused"),
    }
    let (reply, opening) = state.start_stream(call_from_json(&json(text)), &moment, &None);
    assert!(reply.start.is_none());
    match opening {
        Opening::Refused(answer) => assert_eq!(
            to_text(&answer),
            r#"{"error":{"code":-32602,"message":"Duplicate task id: t"},"id":4,"jsonrpc":"2.0"}"#
        ),
        Opening::Opened(_, _) => panic!("opened"),
    }
}

#[test]
fn an_answer_without_a_task_stands_for_a_failed_one() {
    match open_stream(Json::Null, Json::object()) {
        Opening::Opened(task_id, event) => {
            assert_eq!(task_id, "");
            assert_eq!(
                to_text(&event.at("result").at("task")),
                r#"{"status":{"state":"failed"}}"#
            );
        }
        Opening::Refused(_) => panic!("refused"),
    }
}

#[test]
fn a_stream_tells_changes_and_ends_with_the_task() {
    let mut state = state();
    state.persist_task("t", json(r#"{"contextId":"c","status":{"state":"working"}}"#));
    let first = state.stream_look("t", "");
    assert_eq!(
        to_text(first.status.as_ref().expect("an event")),
        r#"{"jsonrpc":"2.0","method":"tasks/status-update","params":{"contextId":"c","final":false,"status":{"state":"working"},"taskId":"t"}}"#
    );
    assert!(first.last.is_none() && !first.done);
    let second = state.stream_look("t", &first.state);
    assert!(second.status.is_none() && second.last.is_none() && !second.done);
    state.persist_task("t", json(r#"{"contextId":"c","status":{"state":"completed"}}"#));
    let third = state.stream_look("t", &second.state);
    assert_eq!(
        to_text(third.status.as_ref().expect("an event")),
        r#"{"jsonrpc":"2.0","method":"tasks/status-update","params":{"contextId":"c","final":true,"status":{"state":"completed"},"taskId":"t"}}"#
    );
    assert_eq!(
        to_text(third.last.as_ref().expect("an event")),
        r#"{"jsonrpc":"2.0","method":"tasks/final","params":{"task":{"contextId":"c","status":{"state":"completed"}}}}"#
    );
    assert!(third.done);
}

#[test]
fn a_stream_ends_without_its_task() {
    let step = stream_step("t", "working", None);
    assert!(step.status.is_none() && step.last.is_none() && step.done);
    let task = json("{}");
    let step = stream_step("t", "", Some(&task));
    assert_eq!(step.state, "unknown");
    assert!(!step.done);
}
