use codex_a2a::backend::{BackendExecutionResult, BackendSessionSummary};
use codex_a2a::config::{Config, RawConfig};
use codex_a2a::json::{parse, to_text, Json};
use codex_a2a::net::Address;
use codex_a2a::registry::Registry;
use codex_a2a::rpc::{
    agent_card, call_from_json, directory_wanted, health, oversized_answer, plan_request, route,
    Call, Plan, Request,
};
use codex_a2a::service::{new_id, Moment, Reply, SubmitTaskError};
use codex_a2a::sessions::sessions_wanted;
use codex_a2a::state::{
    load_context_registry, load_task_registry, save_context_registry, save_task_registry, AppState,
    ContextRecord, RunningTask,
};
use codex_a2a::task::{Directory, PathParts};
use std::sync::Arc;

fn raw(limit: usize, expose: bool) -> RawConfig {
    RawConfig {
        backend: None,
        host: None,
        port: None,
        public_url: "http://agent".to_string(),
        sessions_dir: "/s".to_string(),
        default_working_directory: "/work".to_string(),
        codex_bin: None,
        auth_token_env: None,
        auth_token_file: None,
        auth_token_keychain_service: None,
        write_roots: None,
        write_mode_sandbox_permissions: None,
        allowed_sources: Some(vec!["10.0.0.0/8".to_string()]),
        max_body_bytes: None,
        max_concurrent_tasks: Some(limit),
        read_timeout_secs: None,
        expose_local_sessions: Some(expose),
    }
}

fn state(limit: usize) -> AppState {
    AppState {
        config: Arc::new(Config::from_raw(raw(limit, false)).expect("a configuration")),
        tasks: Registry::new(),
        sessions: Registry::new(),
        running: Registry::new(),
    }
}

fn json(text: &str) -> Json {
    parse(text.as_bytes()).expect("a JSON document")
}

fn call(text: &str) -> Call {
    call_from_json(&json(text))
}

fn at(now: u64, seq: u64) -> Moment {
    Moment { now, nanos: 1000 + now as u128, seq }
}

fn ask(state: &mut AppState, text: &str, now: u64) -> Reply {
    state.handle_jsonrpc(call(text), &at(now, now), &None, &Vec::new())
}

fn text_of(reply: &Reply) -> String {
    to_text(&reply.payload)
}

fn error_of(reply: &Reply) -> (String, String) {
    let error = reply.payload.at("error");
    (
        to_text(&error.at("code")),
        error.text_at("message").expect("a message").to_string(),
    )
}

const SEND: &str = r#"{"id":1,"method":"message/send","params":{"id":"t1","contextId":"c","message":{"parts":[{"type":"text","text":"hello"}]}}}"#;

#[test]
fn a_message_becomes_a_task() {
    let mut state = state(4);
    let reply = ask(&mut state, SEND, 7);
    assert_eq!(reply.status, 200);
    assert_eq!(
        text_of(&reply),
        r#"{"id":1,"jsonrpc":"2.0","result":{"artifacts":[{"index":0,"parts":[{"text":"(processing - poll with tasks/get)","type":"text"}]}],"contextId":"c","id":"t1","metadata":{"contextId":"c","createdAt":7,"deprecatedSessionIdAliasUsed":false,"deprecatedTasksSendAliasUsed":false,"taskId":"t1","updatedAt":7},"status":{"state":"working"}}}"#
    );
    assert!(reply.save_tasks);
    assert!(!reply.save_contexts);
    let run = reply.start.expect("a run");
    assert_eq!(run.task_id, "t1");
    assert_eq!(run.context_id, "c");
    assert_eq!(run.text, "hello");
    assert_eq!(run.options.sandbox_mode, "read-only");
    assert_eq!(run.options.working_directory, "/work");
    assert!(!run.options.write_enabled);
}

#[test]
fn a_task_that_was_sent_can_be_got() {
    let mut state = state(4);
    let sent = ask(&mut state, SEND, 7);
    let got = ask(&mut state, r#"{"id":1,"method":"tasks/get","params":{"id":"t1"}}"#, 8);
    assert_eq!(text_of(&got), text_of(&sent));
    let missing = ask(&mut state, r#"{"method":"tasks/get","params":{"id":"t2"}}"#, 8);
    assert_eq!(error_of(&missing), ("-32001".to_string(), "Task not found".to_string()));
    let nameless = ask(&mut state, r#"{"method":"tasks/get"}"#, 8);
    assert_eq!(error_of(&nameless), ("-32602".to_string(), "Missing task id".to_string()));
}

#[test]
fn names_come_from_the_message_or_the_clock() {
    let mut state = state(4);
    let reply = ask(
        &mut state,
        r#"{"method":"message/send","params":{"contextId":"c","message":{"messageId":"m","parts":[{"text":"x"}]}}}"#,
        1,
    );
    assert_eq!(reply.payload.at("result").text_at("id"), Some("m"));
    let reply = ask(
        &mut state,
        r#"{"method":"message/send","params":{"contextId":"c","message":{"parts":[{"text":"x"}]}}}"#,
        2,
    );
    assert_eq!(reply.payload.at("result").text_at("id"), Some("task-1002-2"));
    assert_eq!(new_id(12, 3), "task-12-3");
    assert_ne!(new_id(12, 3), new_id(1, 23));
}

#[test]
fn a_known_name_is_refused() {
    let mut state = state(4);
    ask(&mut state, SEND, 1);
    let before = save_task_registry(&state.tasks).expect("a document");
    let again = ask(&mut state, SEND, 2);
    assert_eq!(
        error_of(&again),
        ("-32602".to_string(), "Duplicate task id: t1".to_string())
    );
    assert!(!again.save_tasks);
    assert!(again.start.is_none());
    assert_eq!(save_task_registry(&state.tasks).expect("a document"), before);
    assert_eq!(
        state.persist_new_working_task("t1", Json::object()),
        Err(SubmitTaskError::Duplicate)
    );
}

#[test]
fn one_task_too_many_is_refused() {
    let mut state = state(1);
    ask(&mut state, SEND, 1);
    let busy = ask(
        &mut state,
        r#"{"id":"x","method":"message/send","params":{"id":"t2","contextId":"c","message":{"parts":[{"text":"x"}]}}}"#,
        2,
    );
    assert_eq!(error_of(&busy), ("-32004".to_string(), "Server busy".to_string()));
    assert_eq!(state.active_count(), 1);
    assert_eq!(
        state.persist_new_working_task("t3", Json::object()),
        Err(SubmitTaskError::Busy)
    );
}

#[test]
fn an_empty_message_fails_at_once() {
    let mut state = state(4);
    let reply = ask(
        &mut state,
        r#"{"method":"message/send","params":{"id":"t","contextId":"c","message":{"parts":[{"text":" \n"}]}}}"#,
        1,
    );
    let result = reply.payload.at("result");
    assert_eq!(result.at("status").text_at("state"), Some("failed"));
    assert!(to_text(&result).contains("Empty message"));
    assert!(reply.start.is_none());
    assert_eq!(state.active_count(), 0);
}

fn directory(path: &[&str], roots: &[&[&str]], in_git: bool) -> Option<Directory> {
    let parts = |names: &[&str]| PathParts {
        parts: names.iter().map(|n| n.as_bytes().to_vec()).collect(),
    };
    Some(Directory {
        path: format!("/{}", path.join("/")),
        parts: parts(path),
        roots: roots.iter().map(|r| Some(parts(r))).collect(),
        in_git,
    })
}

const WRITE: &str = r#"{"method":"message/send","params":{"id":"t","contextId":"c","message":{"parts":[{"text":"x"}]},"metadata":{"writeMode":"workspace-write","workingDirectory":"/roots/repo"}}}"#;

fn write_with(text: &str, directory: &Option<Directory>) -> (Reply, String) {
    let mut state = state(4);
    let reply = state.handle_jsonrpc(call(text), &at(1, 1), directory, &Vec::new());
    let said = to_text(&reply.payload);
    (reply, said)
}

#[test]
fn writing_needs_a_root_and_a_repository() {
    let (reply, _) = write_with(WRITE, &directory(&["roots", "repo"], &[&["roots"]], true));
    let run = reply.start.expect("a run");
    assert!(run.options.write_enabled);
    assert_eq!(run.options.sandbox_mode, "workspace-write");
    assert_eq!(run.options.working_directory, "/roots/repo");

    let (reply, said) = write_with(WRITE, &directory(&["roots2", "repo"], &[&["roots"]], true));
    assert!(reply.start.is_none());
    assert!(said.contains("workingDirectory is outside configured write_roots: /roots2/repo"));

    let (reply, said) = write_with(WRITE, &directory(&["roots", "repo"], &[], true));
    assert!(reply.start.is_none());
    assert!(said.contains("outside configured write_roots"));

    let (reply, said) = write_with(WRITE, &directory(&["roots", "repo"], &[&["roots"]], false));
    assert!(reply.start.is_none());
    assert!(said.contains(
        "workingDirectory must be inside a git repo for traceable writes: /roots/repo"
    ));

    let (reply, said) = write_with(WRITE, &None);
    assert!(reply.start.is_none());
    assert!(said.contains("workingDirectory does not exist: /roots/repo"));

    let (reply, said) = write_with(
        r#"{"method":"message/send","params":{"id":"t","contextId":"c","message":{"parts":[{"text":"x"}]},"metadata":{"writeMode":"workspace-write"}}}"#,
        &None,
    );
    assert!(reply.start.is_none());
    assert!(said.contains("writeMode requires metadata.workingDirectory"));
}

#[test]
fn a_context_that_is_left_out_is_fresh() {
    let mut state = state(4);
    let text = r#"{"method":"message/send","params":{"message":{"parts":[{"text":"x"}]}}}"#;
    let reply = ask(&mut state, text, 5);
    assert_eq!(
        reply.payload.at("result").text_at("contextId"),
        Some("context-1005-5")
    );
    state.upsert_context_record("context-1006-6", "s", "message-send", 1);
    let reply = ask(&mut state, text, 6);
    assert_eq!(
        reply.payload.at("result").text_at("contextId"),
        Some("context-1006-6+")
    );
    let run = reply.start.expect("a run");
    assert_eq!(state.backend_request(&run).resume_session_id, None);

    let taken = r#"{"method":"message/send","params":{"id":"t","contextId":"context-1007-7","message":{"parts":[{"text":"x"}]}}}"#;
    ask(&mut state, taken, 1);
    let reply = ask(&mut state, text, 7);
    assert_eq!(
        reply.payload.at("result").text_at("contextId"),
        Some("context-1007-7+")
    );

    state.running.insert(
        "other",
        RunningTask { pid: 1, context_id: "context-1008-8".to_string(), started_at: 1 },
    );
    state.tasks = Registry::new();
    let reply = ask(&mut state, text, 8);
    assert_eq!(
        reply.payload.at("result").text_at("contextId"),
        Some("context-1008-8+")
    );
}

#[test]
fn the_old_names_still_work() {
    let mut state = state(4);
    let reply = ask(
        &mut state,
        r#"{"method":"tasks/send","params":{"id":"t","sessionId":"c","message":{"parts":[{"text":"x"}]}}}"#,
        1,
    );
    let metadata = reply.payload.at("result").at("metadata");
    assert_eq!(reply.payload.at("result").text_at("contextId"), Some("c"));
    assert_eq!(to_text(&metadata.at("deprecatedTasksSendAliasUsed")), "true");
    assert_eq!(to_text(&metadata.at("deprecatedSessionIdAliasUsed")), "true");
}

#[test]
fn a_message_can_name_its_session() {
    let mut state = state(4);
    let reply = ask(
        &mut state,
        r#"{"method":"message/send","params":{"contextId":"c","metadata":{"resumeSessionId":"s1"},"resumeSessionId":"s2","message":{"parts":[{"text":"x"}]}}}"#,
        3,
    );
    assert!(reply.save_contexts);
    let request = state.backend_request(&reply.start.expect("a run"));
    assert_eq!(request.resume_session_id, Some("s1".to_string()));
    let record = state.sessions.get("c").expect("a record");
    assert_eq!(record.resume_source, "message-send");
    assert_eq!(record.backend_kind, "codex-cli");
    assert_eq!((record.created_at, record.updated_at), (3, 3));
}

#[test]
fn sessions_are_resumed() {
    let mut state = state(4);
    let reply = ask(
        &mut state,
        r#"{"id":9,"method":"sessions/resume","params":{"contextId":"c","resumeSessionId":"s1"}}"#,
        3,
    );
    assert_eq!(
        text_of(&reply),
        r#"{"id":9,"jsonrpc":"2.0","result":{"contextId":"c","metadata":{"deprecatedSessionIdAliasUsed":false},"resumeSessionId":"s1","status":"bound"}}"#
    );
    assert!(reply.save_contexts);
    let reply = ask(
        &mut state,
        r#"{"method":"sessions/resume","params":{"id":"t","sessionId":"c","codexSessionId":"s2","message":{"parts":[{"text":"go on"}]}}}"#,
        8,
    );
    let run = reply.start.expect("a run");
    assert_eq!(run.text, "go on");
    assert_eq!(
        state.backend_request(&run).resume_session_id,
        Some("s2".to_string())
    );
    let record = state.sessions.get("c").expect("a record");
    assert_eq!(record.resume_source, "deprecated-sessionId-alias");
    assert_eq!((record.created_at, record.updated_at), (3, 8));
    let missing = ask(&mut state, r#"{"method":"sessions/resume","params":{"contextId":"c"}}"#, 9);
    assert_eq!(
        error_of(&missing),
        ("-32602".to_string(), "Missing resumeSessionId".to_string())
    );
    let again = ask(
        &mut state,
        r#"{"method":"sessions/resume","params":{"id":"t","contextId":"c","resumeSessionId":"s3","message":{"parts":[{"text":"x"}]}}}"#,
        9,
    );
    assert_eq!(
        error_of(&again),
        ("-32602".to_string(), "Duplicate task id: t".to_string())
    );
}

#[test]
fn a_resumed_session_may_not_write_as_it_likes() {
    let mut state = state(1);
    let text = r#"{"method":"sessions/resume","params":{"id":"t","contextId":"c","resumeSessionId":"s","message":{"parts":[{"text":"x"}]},"metadata":{"writeMode":"workspace-write"}}}"#;
    let reply = ask(&mut state, text, 1);
    assert!(reply.start.is_none());
    assert!(text_of(&reply).contains("writeMode requires metadata.workingDirectory"));
    assert_eq!(state.active_count(), 0);
    ask(&mut state, SEND, 2);
    let busy = ask(&mut state, &text.replace("\"t\"", "\"u\""), 3);
    assert_eq!(error_of(&busy), ("-32004".to_string(), "Server busy".to_string()));
}

fn result(success: bool, message: &str, session: Option<&str>) -> BackendExecutionResult {
    BackendExecutionResult {
        success,
        message: message.to_string(),
        resume_session_id: session.map(|s| s.to_string()),
    }
}

#[test]
fn a_run_completes_its_task() {
    let mut state = state(4);
    let run = ask(&mut state, SEND, 1).start.expect("a run");
    state.task_started(&run, 42, 2);
    assert!(state.running.get("t1").is_some());
    let saves = state.task_finished(&run, &result(true, "done", Some("s")), Json::Null, 9);
    assert!(saves.tasks && saves.contexts);
    assert!(state.running.get("t1").is_none());
    assert_eq!(
        to_text(state.tasks.get("t1").expect("a task")),
        r#"{"artifacts":[{"index":0,"parts":[{"text":"done","type":"text"}]}],"contextId":"c","id":"t1","metadata":{"contextId":"c","createdAt":9,"deprecatedSessionIdAliasUsed":false,"deprecatedTasksSendAliasUsed":false,"sandboxMode":"read-only","taskId":"t1","updatedAt":9,"workingDirectory":"/work","writeEnabled":false},"status":{"state":"completed"}}"#
    );
    assert_eq!(
        state.backend_request(&run).resume_session_id,
        Some("s".to_string())
    );
}

#[test]
fn a_run_can_say_nothing_or_fail() {
    let mut state = state(4);
    let run = ask(&mut state, SEND, 1).start.expect("a run");
    state.task_finished(&run, &result(true, " \n", None), Json::Null, 9);
    assert!(to_text(state.tasks.get("t1").expect("a task")).contains("(empty response)"));
    let saves = state.task_finished(&run, &result(false, "broken", None), Json::Null, 9);
    assert!(saves.tasks && !saves.contexts);
    let task = state.tasks.get("t1").expect("a task");
    assert_eq!(task.at("status").text_at("state"), Some("failed"));
    assert!(to_text(task).contains("broken"));
    state.task_start_failed(&run, "no codex", Json::Null, 9);
    assert!(to_text(state.tasks.get("t1").expect("a task")).contains("no codex"));
}

#[test]
fn a_task_that_may_write_has_its_trace() {
    let mut state = state(4);
    let directory = directory(&["roots", "repo"], &[&["roots"]], true);
    let reply = state.handle_jsonrpc(call(WRITE), &at(1, 1), &directory, &Vec::new());
    let run = reply.start.expect("a run");
    state.task_finished(&run, &result(true, "done", None), Json::text("the trace"), 9);
    let artifacts = state.tasks.get("t").expect("a task").at("artifacts");
    assert_eq!(
        to_text(&artifacts),
        r#"[{"index":0,"parts":[{"text":"done","type":"text"}]},{"index":1,"parts":[{"data":"the trace","type":"data"}]}]"#
    );
}

#[test]
fn a_canceled_task_stays_canceled() {
    let mut state = state(4);
    let run = ask(&mut state, SEND, 1).start.expect("a run");
    assert!(state.may_start(&run));
    assert!(state.task_started(&run, 42, 2).is_none());
    let reply = ask(&mut state, r#"{"id":5,"method":"tasks/cancel","params":{"taskId":"t1"}}"#, 3);
    assert_eq!(reply.cancel.as_ref().map(|c| c.pid), Some(42));
    assert!(reply.save_tasks);
    assert_eq!(
        text_of(&reply),
        r#"{"id":5,"jsonrpc":"2.0","result":{"artifacts":[{"index":0,"parts":[{"text":"Task canceled by tasks/cancel","type":"text"}]}],"contextId":"c","id":"t1","metadata":{"canceledAt":3,"canceledPid":42,"contextId":"c","createdAt":3,"deprecatedSessionIdAliasUsed":false,"deprecatedTasksSendAliasUsed":false,"startedAt":2,"taskId":"t1","updatedAt":3},"status":{"state":"canceled"}}}"#
    );
    let saves = state.task_finished(&run, &result(false, "killed", Some("s")), Json::Null, 4);
    assert!(!saves.tasks && !saves.contexts);
    assert!(state.task_is_canceled("t1"));
    assert!(state.sessions.get("c").is_none());
    let again = ask(&mut state, r#"{"id":5,"method":"tasks/cancel","params":{"id":"t1"}}"#, 9);
    assert_eq!(text_of(&again), text_of(&reply));
    assert!(again.cancel.is_none());
    let unknown = ask(&mut state, r#"{"method":"tasks/cancel","params":{"id":"u"}}"#, 9);
    assert_eq!(
        error_of(&unknown),
        ("-32001".to_string(), "Task not found or already finished".to_string())
    );
    let nameless = ask(&mut state, r#"{"method":"tasks/cancel","params":{"id":3,"taskId":"t1"}}"#, 9);
    assert_eq!(error_of(&nameless), ("-32602".to_string(), "Missing task id".to_string()));
}

#[test]
fn a_task_that_waits_is_canceled_before_it_runs() {
    let mut state = state(4);
    let run = ask(&mut state, SEND, 1).start.expect("a run");
    assert!(state.may_start(&run));
    let reply = ask(&mut state, r#"{"id":5,"method":"tasks/cancel","params":{"id":"t1"}}"#, 2);
    assert!(reply.cancel.is_none());
    assert!(reply.save_tasks);
    assert_eq!(
        text_of(&reply),
        r#"{"id":5,"jsonrpc":"2.0","result":{"artifacts":[{"index":0,"parts":[{"text":"Task canceled by tasks/cancel","type":"text"}]}],"contextId":"c","id":"t1","metadata":{"canceledAt":2,"contextId":"c","createdAt":2,"deprecatedSessionIdAliasUsed":false,"deprecatedTasksSendAliasUsed":false,"taskId":"t1","updatedAt":2},"status":{"state":"canceled"}}}"#
    );
    assert!(!state.may_start(&run));

    let ended = state.task_started(&run, 42, 3);
    assert_eq!(ended.map(|request| request.pid), Some(42));
    assert!(state.running.get("t1").is_none());
    let saves = state.task_start_failed(&run, "no codex", Json::Null, 4);
    assert!(!saves.tasks && !saves.contexts);
    let saves = state.task_finished(&run, &result(true, "done", Some("s")), Json::Null, 5);
    assert!(!saves.tasks && !saves.contexts);
    assert!(state.task_is_canceled("t1"));
    let again = ask(&mut state, r#"{"id":5,"method":"tasks/get","params":{"id":"t1"}}"#, 9);
    assert_eq!(text_of(&again), text_of(&reply));
}

#[test]
fn a_task_left_over_is_canceled_and_one_that_ended_is_not() {
    let mut state = state(4);
    let left = r#"{"left":{"id":"left","contextId":"c","status":{"state":"working"}},"over":{"id":"over","contextId":"c","status":{"state":"completed"}},"odd":{"artifacts":[1],"id":"odd","status":{"state":"input-required"}},"bare":{"id":"bare"}}"#;
    state.tasks = load_task_registry(Some(left.as_bytes()));
    let reply = ask(&mut state, r#"{"method":"tasks/cancel","params":{"id":"left"}}"#, 2);
    assert!(reply.save_tasks && reply.cancel.is_none());
    assert_eq!(reply.payload.at("result").text_at("contextId"), Some("c"));
    assert!(state.task_is_canceled("left"));
    let reply = ask(&mut state, r#"{"method":"tasks/cancel","params":{"id":"over"}}"#, 3);
    assert!(!reply.save_tasks && reply.cancel.is_none());
    assert_eq!(
        to_text(&reply.payload.at("result")),
        r#"{"contextId":"c","id":"over","status":{"state":"completed"}}"#
    );
    let reply = ask(&mut state, r#"{"method":"tasks/cancel","params":{"id":"odd"}}"#, 4);
    assert!(!reply.save_tasks && reply.cancel.is_none());
    assert_eq!(
        to_text(&reply.payload.at("result")),
        r#"{"artifacts":[1],"id":"odd","status":{"state":"input-required"}}"#
    );
    let reply = ask(&mut state, r#"{"method":"tasks/cancel","params":{"id":"bare"}}"#, 5);
    assert!(!reply.save_tasks);
    assert_eq!(to_text(&reply.payload.at("result")), r#"{"id":"bare"}"#);
    assert_eq!(to_text(state.tasks.get("bare").expect("a task")), r#"{"id":"bare"}"#);
}

#[test]
fn the_backend_is_asked_only_where_sessions_are_wanted() {
    let exposed = Config::from_raw(raw(4, true)).expect("a configuration");
    let hidden = Config::from_raw(raw(4, false)).expect("a configuration");
    let list = call(r#"{"method":"sessions/list","params":{"limit":7}}"#);
    assert_eq!(sessions_wanted(&exposed, &list), Some(7));
    assert_eq!(sessions_wanted(&hidden, &list), None);
    let many = call(r#"{"method":"sessions/list","params":{"limit":700}}"#);
    assert_eq!(sessions_wanted(&exposed.clone(), &many), Some(50));
    assert_eq!(sessions_wanted(&exposed, &call(r#"{"method":"tasks/list"}"#)), None);
}

#[test]
fn a_stream_takes_its_task_on_as_a_message_does() {
    let mut one = state(1);
    let mut two = state(1);
    let sent = ask(&mut one, SEND, 1);
    let (reply, _) = two.start_stream(call(SEND), &at(1, 1), &None);
    assert_eq!(text_of(&reply), text_of(&sent));
    assert!(reply.start.is_some() && reply.save_tasks);
    assert_eq!(
        to_text(two.tasks.get("t1").expect("a task")),
        to_text(one.tasks.get("t1").expect("a task"))
    );
    let next = SEND.replace("t1", "t2");
    let (reply, _) = two.start_stream(call(&next), &at(2, 2), &None);
    assert_eq!(error_of(&reply), error_of(&ask(&mut one, &next, 2)));
    assert!(two.tasks.get("t2").is_none());
    ask(&mut two, r#"{"method":"tasks/cancel","params":{"id":"t1"}}"#, 3);
    let (reply, _) = two.start_stream(call(SEND), &at(4, 4), &None);
    assert!(reply.start.is_none());
    assert!(two.task_is_canceled("t1"));
}

#[test]
fn the_disk_is_asked_only_where_a_call_would_write() {
    for method in ["message/send", "message/stream", "tasks/send", "sessions/resume"] {
        let text = format!(
            r#"{{"method":"{method}","params":{{"metadata":{{"writeMode":"workspace-write","workingDirectory":"/d"}}}}}}"#
        );
        assert_eq!(directory_wanted(&call(&text)), Some("/d".to_string()));
        let text = format!(
            r#"{{"method":"{method}","params":{{"metadata":{{"workingDirectory":"/d"}}}}}}"#
        );
        assert_eq!(directory_wanted(&call(&text)), None);
    }
    let text = r#"{"method":"tasks/get","params":{"metadata":{"writeMode":"workspace-write","workingDirectory":"/d"}}}"#;
    assert_eq!(directory_wanted(&call(text)), None);
}

#[test]
fn the_old_method_differs_only_in_its_note() {
    let mut one = state(4);
    let mut two = state(4);
    let first = ask(&mut one, SEND, 1);
    let second = ask(&mut two, &SEND.replace("message/send", "tasks/send"), 1);
    let noted = r#""deprecatedTasksSendAliasUsed":true"#;
    assert!(text_of(&second).contains(noted));
    assert_eq!(
        text_of(&second).replace(noted, r#""deprecatedTasksSendAliasUsed":false"#),
        text_of(&first)
    );
}

fn send_many(state: &mut AppState, count: u64) {
    for i in 0..count {
        let context = if i % 2 == 0 { "even" } else { "odd" };
        let text = format!(
            r#"{{"method":"message/send","params":{{"id":"t{i}","contextId":"{context}","message":{{"parts":[{{"text":"x"}}]}}}}}}"#
        );
        ask(state, &text, 10 + i);
    }
}

fn listed(reply: &Reply) -> Vec<String> {
    reply
        .payload
        .at("result")
        .at("tasks")
        .as_array()
        .expect("tasks")
        .iter()
        .map(|t| t.text_at("id").expect("a name").to_string())
        .collect()
}

#[test]
fn tasks_are_listed_newest_first() {
    let mut state = state(100);
    send_many(&mut state, 4);
    let reply = ask(&mut state, r#"{"method":"tasks/list"}"#, 99);
    assert_eq!(listed(&reply), vec!["t3", "t2", "t1", "t0"]);
    assert_eq!(to_text(&reply.payload.at("result").at("nextCursor")), "null");
    let reply = ask(&mut state, r#"{"method":"tasks/list","params":{"contextId":"even"}}"#, 99);
    assert_eq!(listed(&reply), vec!["t2", "t0"]);
    let reply = ask(&mut state, r#"{"method":"tasks/list","params":{"sessionId":"odd"}}"#, 99);
    assert_eq!(listed(&reply), vec!["t3", "t1"]);
    assert_eq!(
        to_text(&reply.payload.at("result").at("metadata")),
        r#"{"deprecatedSessionIdAliasUsed":true}"#
    );
}

#[test]
fn following_the_cursors_gives_each_task_once() {
    let mut state = state(100);
    send_many(&mut state, 5);
    let mut cursor = 0;
    let mut all = Vec::new();
    loop {
        let text = format!(r#"{{"method":"tasks/list","params":{{"limit":2,"cursor":{cursor}}}}}"#);
        let reply = ask(&mut state, &text, 99);
        all.extend(listed(&reply));
        match reply.payload.at("result").u64_at("nextCursor") {
            Some(next) => cursor = next,
            None => break,
        }
    }
    assert_eq!(all, vec!["t4", "t3", "t2", "t1", "t0"]);
    let reply = ask(&mut state, r#"{"method":"tasks/list","params":{"cursor":18446744073709551615}}"#, 99);
    assert!(listed(&reply).is_empty());
    assert_eq!(to_text(&reply.payload.at("result").at("nextCursor")), "null");
    let reply = ask(&mut state, r#"{"method":"tasks/list","params":{"limit":0,"cursor":3}}"#, 99);
    assert_eq!(reply.payload.at("result").u64_at("nextCursor"), Some(3));
}

#[test]
fn lists_have_limits() {
    let mut state = state(1000);
    send_many(&mut state, 210);
    let reply = ask(&mut state, r#"{"method":"tasks/list"}"#, 999);
    assert_eq!(listed(&reply).len(), 50);
    let reply = ask(&mut state, r#"{"method":"tasks/list","params":{"limit":1000}}"#, 999);
    assert_eq!(listed(&reply).len(), 200);
    for i in 0..60 {
        state.upsert_context_record(&format!("c{i}"), "s", "message-send", i);
    }
    let count = |reply: &Reply| {
        reply.payload.at("result").at("sessions").as_array().expect("sessions").len()
    };
    assert_eq!(count(&ask(&mut state, r#"{"method":"sessions/list"}"#, 1)), 10);
    assert_eq!(
        count(&ask(&mut state, r#"{"method":"sessions/list","params":{"limit":100}}"#, 1)),
        50
    );
}

fn summary() -> BackendSessionSummary {
    BackendSessionSummary {
        id: "local".to_string(),
        path: "/p".to_string(),
        modified_unix: 5,
        cwd: Json::text("/w"),
        last_message_preview: Json::Null,
    }
}

#[test]
fn local_sessions_stay_hidden() {
    let mut state = state(4);
    state.upsert_context_record("old", "s1", "message-send", 1);
    state.upsert_context_record("new", "s2", "sessions-resume", 2);
    let text = r#"{"id":1,"method":"sessions/list","params":{"limit":1}}"#;
    let hidden = state.handle_jsonrpc(call(text), &at(1, 1), &None, &vec![summary()]);
    assert_eq!(
        text_of(&hidden),
        r#"{"id":1,"jsonrpc":"2.0","result":{"sessions":[{"contextId":"new","cwd":null,"id":"s2","lastMessagePreview":null,"metadata":{"backendKind":"codex-cli","createdAt":2,"resumeSource":"sessions-resume","updatedAt":2},"modifiedUnix":2,"path":""}]}}"#
    );
    state.config = Arc::new(Config::from_raw(raw(4, true)).expect("a configuration"));
    let shown = state.handle_jsonrpc(call(text), &at(1, 1), &None, &vec![summary()]);
    assert_eq!(
        text_of(&shown),
        r#"{"id":1,"jsonrpc":"2.0","result":{"sessions":[{"cwd":"/w","id":"local","lastMessagePreview":null,"modifiedUnix":5,"path":"/p"}]}}"#
    );
}

#[test]
fn unknown_methods_are_errors() {
    let mut state = state(4);
    let reply = ask(&mut state, r#"{"method":"tasks/run"}"#, 1);
    assert_eq!(
        error_of(&reply),
        ("-32601".to_string(), "Method not found: tasks/run".to_string())
    );
    let reply = ask(&mut state, "[]", 1);
    assert_eq!(
        error_of(&reply),
        ("-32601".to_string(), "Method not found: ".to_string())
    );
    let reply = ask(&mut state, r#"{"method":"message/stream"}"#, 1);
    assert_eq!(
        error_of(&reply),
        (
            "-32003".to_string(),
            "message/stream requires the streaming HTTP response path".to_string()
        )
    );
}

#[test]
fn registries_are_read_back() {
    let mut state = state(4);
    ask(&mut state, SEND, 1);
    state.upsert_context_record("c", "s", "message-send", 2);
    let tasks = save_task_registry(&state.tasks).expect("a document");
    assert!(String::from_utf8(tasks.clone()).expect("text").starts_with("{\n  \"t1\": {\n"));
    let loaded = load_task_registry(Some(tasks.as_slice()));
    assert_eq!(
        to_text(loaded.get("t1").expect("a task")),
        to_text(state.tasks.get("t1").expect("a task"))
    );
    assert_eq!(loaded.len(), 1);
    let contexts = save_context_registry(&state.sessions);
    assert_eq!(contexts.len(), 1);
    assert_eq!(contexts[0].0, "c");
    let loaded = load_context_registry(Some(contexts));
    assert_eq!(loaded.len(), 1);
    let record = loaded.get("c").expect("a record");
    assert_eq!(record.codex_session_id, "s");
    assert_eq!((record.created_at, record.updated_at), (2, 2));
    assert_eq!(record.backend_kind, "codex-cli");
    assert_eq!(record.resume_source, "message-send");
}

#[test]
fn a_context_has_one_record() {
    let record = |session: &str| ContextRecord {
        codex_session_id: session.to_string(),
        created_at: 1,
        updated_at: 2,
        backend_kind: "codex-cli".to_string(),
        resume_source: "message-send".to_string(),
    };
    let loaded = load_context_registry(Some(vec![
        ("c".to_string(), record("one")),
        ("d".to_string(), record("two")),
        ("c".to_string(), record("three")),
    ]));
    assert_eq!(loaded.len(), 2);
    assert_eq!(loaded.get("c").expect("a record").codex_session_id, "three");
    assert_eq!(loaded.get("d").expect("a record").codex_session_id, "two");
}

#[test]
fn registries_that_cannot_be_read_are_empty() {
    assert_eq!(load_task_registry(None).len(), 0);
    assert_eq!(load_task_registry(Some(b"nonsense")).len(), 0);
    assert_eq!(load_task_registry(Some(b"[1]")).len(), 0);
    assert_eq!(load_context_registry(None).len(), 0);
}

fn request(method: &str, path: &str, token: Option<&str>, body: &str, peer: u32) -> Request {
    let mut headers = Registry::new();
    if let Some(token) = token {
        headers.insert("authorization", format!("Bearer {token}"));
    }
    Request {
        method: method.to_string(),
        path: path.to_string(),
        headers,
        body: body.as_bytes().to_vec(),
        peer_ip: Address::V4(peer),
    }
}

fn answer(request: &Request, expected: Option<&str>) -> (u16, String) {
    match route(&state(4).config, request, expected) {
        Plan::Answer(status, payload) => (status, to_text(&payload)),
        Plan::Call(call) => (0, format!("call {}", call.method)),
        Plan::Stream(call) => (0, format!("stream {}", call.method)),
    }
}

const NEAR: u32 = 0x0a00_0001;
const FAR: u32 = 0x0b00_0001;
const REFUSED: &str =
    r#"{"error":{"code":-32000,"message":"Unauthorized"},"id":null,"jsonrpc":"2.0"}"#;

#[test]
fn foreign_sources_are_forbidden() {
    let forbidden = (403, r#"{"error":"forbidden source"}"#.to_string());
    assert_eq!(answer(&request("GET", "/health", Some("x"), "", FAR), Some("x")), forbidden);
    assert_eq!(answer(&request("POST", "/", Some("x"), SEND, FAR), Some("x")), forbidden);
    assert_eq!(answer(&request("GET", "/nowhere", None, "", FAR), None), forbidden);
}

#[test]
fn all_requests_need_the_token() {
    let refused = (401, REFUSED.to_string());
    assert_eq!(answer(&request("GET", "/health", None, "", NEAR), Some("x")), refused);
    assert_eq!(answer(&request("GET", "/nowhere", Some("y"), "", NEAR), Some("x")), refused);
    assert_eq!(answer(&request("POST", "/", Some("x"), SEND, NEAR), None), refused);
    assert_eq!(answer(&request("POST", "/", None, "nonsense", NEAR), Some("x")), refused);
    assert_eq!(
        answer(
            &request("POST", "/", None, r#"{"id":8,"method":"message/stream"}"#, NEAR),
            Some("x")
        ),
        (
            401,
            r#"{"error":{"code":-32000,"message":"Unauthorized"},"id":8,"jsonrpc":"2.0"}"#
                .to_string()
        )
    );
}

#[test]
fn requests_are_routed() {
    let ask = |method: &str, path: &str, body: &str| {
        answer(&request(method, path, Some("x"), body, NEAR), Some("x"))
    };
    assert_eq!(
        ask("GET", "/health", ""),
        (
            200,
            r#"{"agent":"codex-a2a-rs","status":"ok","version":"0.1.0"}"#.to_string()
        )
    );
    assert_eq!(ask("GET", "/health", "").1, to_text(&health()));
    assert_eq!(ask("GET", "/", ""), (404, r#"{"error":"not found"}"#.to_string()));
    assert_eq!(ask("POST", "/health", ""), (404, r#"{"error":"not found"}"#.to_string()));
    assert_eq!(
        ask("POST", "/", "nonsense"),
        (
            400,
            r#"{"error":{"code":-32700,"message":"Parse error"},"id":null,"jsonrpc":"2.0"}"#
                .to_string()
        )
    );
    assert_eq!(ask("POST", "/", SEND), (0, "call message/send".to_string()));
    assert_eq!(ask("POST", "/a2a/jsonrpc", SEND), (0, "call message/send".to_string()));
    assert_eq!(
        ask("POST", "/", r#"{"method":"message/stream"}"#),
        (0, "stream message/stream".to_string())
    );
}

#[test]
fn the_card_has_two_names() {
    let one = answer(&request("GET", "/.well-known/agent.json", Some("x"), "", NEAR), Some("x"));
    let two = answer(
        &request("GET", "/.well-known/agent-card.json", Some("x"), "", NEAR),
        Some("x"),
    );
    assert_eq!(one, two);
    assert_eq!(one.0, 200);
    let card = agent_card("http://agent");
    assert_eq!(one.1, to_text(&card));
    assert_eq!(card.text_at("url"), Some("http://agent"));
    assert_eq!(card.text_at("protocolVersion"), Some("1.0.0"));
    assert_eq!(to_text(&card.at("security")), r#"[{"bearerAuth":[]}]"#);
    assert_eq!(
        to_text(&card.at("capabilities").at("extensions")),
        r#"[{"description":"Codex session continuity extension for sessions/list and sessions/resume.","methods":["sessions/list","sessions/resume"],"required":false,"uri":"urn:codex-a2a:extensions:codex-sessions:v1"}]"#
    );
}

#[test]
fn bodies_that_are_too_long_are_refused() {
    assert!(oversized_answer(10, 10).is_none());
    let (status, payload) = oversized_answer(11, 10).expect("an answer");
    assert_eq!(status, 413);
    assert_eq!(to_text(&payload), r#"{"error":"request body too large"}"#);
}

#[test]
fn calls_have_defaults() {
    let call = call_from_json(&json(r#"{"method":3}"#));
    assert_eq!(call.method, "");
    assert_eq!(to_text(&call.id), "null");
    assert_eq!(to_text(&call.params), "{}");
}

#[test]
fn the_body_decides_the_call() {
    let config = state(4).config;
    let request = request("POST", "/", Some("x"), "unread", NEAR);
    let stream = json(r#"{"id":2,"method":"message/stream"}"#);
    assert!(matches!(
        plan_request(&config, &request, Some("x"), Some(&stream)),
        Plan::Stream(call) if to_text(&call.id) == "2"
    ));
    assert!(matches!(
        plan_request(&config, &request, Some("x"), Some(&Json::Null)),
        Plan::Call(call) if call.method.is_empty()
    ));
    assert!(matches!(
        plan_request(&config, &request, Some("x"), None),
        Plan::Answer(400, _)
    ));
}
