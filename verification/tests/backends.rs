use codex_a2a::backend::cli::{
    append_write_mode_sandbox_permissions, conclude, event_cwd, event_preview, hear_event,
    interpret_output, interpret_text, is_session_file, newest_files, session_id_from_filename,
    session_summary, shell_double_quoted_toml_string_array, toml_string_array, CliBackend,
};
use codex_a2a::backend::native::{
    agent_message_text, attempt_message, attempts, call_event, call_failure_message, call_step,
    cancel_step, closed_message, finish_step, format_stderr_suffix, initialize_params, json_line,
    native_config_overrides, next_request_id, notification_json, request_json,
    start_failure_message, start_step, status_failure_message, thread_list_params,
    thread_summaries, turn_event, turn_step, with_stderr, AttemptError, CallStep, CancelStep,
    FinishStep, NativeBackend, NativeRun, NativeWire, RunAction, RunEvent, StartStep, TurnStep,
};
use codex_a2a::backend::{failed, from_config, wrap_prompt, BackendRequest};
use codex_a2a::config::{BackendKind, Config, RawConfig};
use codex_a2a::json::{parse, to_text, Json};
use codex_a2a::process::{
    kill_arguments, kill_step, taskkill_arguments, taskkill_failure, taskkill_step, CommandOutcome,
    EndEvent, EndStep,
};
use codex_a2a::state::TaskOptions;
use std::sync::Arc;

fn json(text: &str) -> Json {
    parse(text.as_bytes()).expect("a JSON document")
}

fn config(backend: BackendKind, permissions: Vec<String>) -> Arc<Config> {
    let raw = RawConfig {
        backend: Some(backend),
        host: None,
        port: None,
        public_url: "http://agent".to_string(),
        sessions_dir: "/s".to_string(),
        default_working_directory: "/work".to_string(),
        codex_bin: None,
        auth_token_env: None,
        auth_token_file: None,
        auth_token_keychain_service: None,
        write_roots: None,
        write_mode_sandbox_permissions: Some(permissions),
        allowed_sources: None,
        max_body_bytes: None,
        max_concurrent_tasks: None,
        read_timeout_secs: None,
        expose_local_sessions: None,
    };
    Arc::new(Config::from_raw(raw).expect("a configuration"))
}

fn request(write: bool, session: Option<&str>) -> BackendRequest {
    BackendRequest {
        prompt: "do it".to_string(),
        options: TaskOptions {
            sandbox_mode: if write { "workspace-write" } else { "read-only" }.to_string(),
            working_directory: "/w".to_string(),
            write_enabled: write,
        },
        resume_session_id: session.map(|s| s.to_string()),
    }
}

#[test]
fn the_configured_backend_is_used() {
    assert_eq!(from_config(config(BackendKind::Cli, vec![])).kind(), "codex-cli");
    assert_eq!(from_config(config(BackendKind::Native, vec![])).kind(), "codex-native");
    assert_eq!(NativeBackend::new(config(BackendKind::Native, vec![])).kind(), "codex-native");
}

#[test]
fn prompts_say_what_is_allowed() {
    let read = wrap_prompt("hello", &request(false, None).options);
    assert_eq!(
        read,
        "You are Codex answering an A2A request from Hermes. Be direct and concise. You are running in read-only mode for this service. Preserve context across this session.\n\nRequest:\nhello"
    );
    let write = wrap_prompt("hello", &request(true, None).options);
    assert!(write.starts_with("You are Codex answering an A2A request from Hermes."));
    assert!(write.ends_with("report changed files.\n\nRequest:\nhello"));
}

#[test]
fn codex_gets_its_arguments() {
    let backend = CliBackend::new(config(BackendKind::Cli, vec!["disk-full-read-access".to_string()]));
    let plain = request(false, None);
    let mut arguments = backend.arguments(&plain);
    assert_eq!(arguments.pop(), Some(wrap_prompt("do it", &plain.options)));
    assert_eq!(
        arguments,
        vec![
            "exec",
            "--json",
            "--skip-git-repo-check",
            "-c",
            "approval_policy=\"never\"",
            "-c",
            "sandbox_mode=\"read-only\"",
            "-C",
            "/w"
        ]
    );
    let mut arguments = backend.arguments(&request(true, Some("s")));
    arguments.pop();
    assert_eq!(
        arguments,
        vec![
            "exec",
            "resume",
            "--json",
            "--skip-git-repo-check",
            "-c",
            "approval_policy=\"never\"",
            "-c",
            "sandbox_mode=\"workspace-write\"",
            "-c",
            "sandbox_permissions=\"[\\\"disk-full-read-access\\\"]\"",
            "s"
        ]
    );
}

#[test]
fn permissions_are_quoted() {
    let values = vec!["a\"b\\c".to_string(), "d".to_string()];
    assert_eq!(toml_string_array(&values), r#"["a\"b\\c","d"]"#);
    let table = toml::from_str::<toml::Table>(&format!("x = {}", toml_string_array(&values)))
        .expect("a TOML document");
    assert_eq!(table["x"][0].as_str(), Some("a\"b\\c"));
    assert_eq!(toml_string_array(&Vec::new()), "[]");
    assert_eq!(
        shell_double_quoted_toml_string_array(&vec!["d".to_string()]),
        r#""[\"d\"]""#
    );
    let mut arguments = vec!["x".to_string()];
    append_write_mode_sandbox_permissions(&mut arguments, false, &values);
    append_write_mode_sandbox_permissions(&mut arguments, true, &Vec::new());
    assert_eq!(arguments, vec!["x"]);
}

#[test]
fn the_last_message_of_a_run_counts() {
    let stdout = b"{\"type\":\"thread.started\",\"thread_id\":\"th\"}\r\nnoise\n{\"type\":\"item.completed\",\"item\":{\"type\":\"agent_message\",\"text\":\"one\"}}\n{\"type\":\"item.completed\",\"item\":{\"type\":\"agent_message\",\"text\":\"two\"}}\n{\"type\":\"item.completed\",\"item\":{\"type\":\"reasoning\",\"text\":\"three\"}}\n";
    let result = interpret_output(true, stdout, b"");
    assert!(result.success);
    assert_eq!(result.message, "two");
    assert_eq!(result.resume_session_id, Some("th".to_string()));
    let result = interpret_output(true, b"", b"warning");
    assert_eq!(result.message, "");
    assert_eq!(result.resume_session_id, None);
}

#[test]
fn a_failed_run_says_why() {
    let result = interpret_output(false, b" out \n", b" err\xff \n");
    assert!(!result.success);
    assert_eq!(result.message, "err\u{fffd}");
    let result = interpret_output(false, b" out \n", b" \n");
    assert_eq!(result.message, "out");
    let result = failed("gone".to_string());
    assert_eq!((result.success, result.message.as_str()), (false, "gone"));
    assert_eq!(result.resume_session_id, None);
}

#[test]
fn files_come_newest_first() {
    assert_eq!(newest_files(&vec![5, 9, 5, 7], 10), vec![1, 3, 2, 0]);
    assert_eq!(newest_files(&vec![5, 9, 5, 7], 3), vec![1, 3, 2]);
    assert_eq!(newest_files(&vec![5, 9], 0), Vec::<usize>::new());
}

#[test]
fn session_files_are_known_by_their_names() {
    assert!(is_session_file("rollout.jsonl"));
    assert!(!is_session_file(".jsonl"));
    assert!(!is_session_file("rollout.json"));
    assert!(!is_session_file("jsonl"));
    let uuid = "01234567-89ab-cdef-0123-456789ABCDEF";
    assert_eq!(session_id_from_filename(&format!("rollout-{uuid}.jsonl")), uuid);
    assert_eq!(session_id_from_filename(&format!("{uuid}.jsonl.jsonl")), uuid);
    assert_eq!(session_id_from_filename("short.jsonl"), "short");
    let other = "rollout-01234567-89ab-cdef-0123+456789abcdef";
    assert_eq!(session_id_from_filename(&format!("{other}.jsonl")), other);
    assert_eq!(session_id_from_filename(""), "");
}

#[test]
fn session_files_tell_where_and_what() {
    let long = "x".repeat(300);
    let content = format!(
        "{{\"type\":\"turn_context\",\"payload\":{{\"cwd\":\"/old\"}}}}\n{{\"type\":\"turn_context\",\"payload\":{{\"cwd\":\"/new\"}}}}\n{{\"type\":\"response_item\",\"payload\":{{\"content\":[{{\"type\":\"image\"}},{{\"text\":\"{long}\"}}]}}}}\n{{\"type\":\"turn_context\",\"payload\":{{}}}}\nnoise\n"
    );
    let summary = session_summary("/s/a.jsonl", "a.jsonl", 7, Some(&content));
    assert_eq!(summary.id, "a");
    assert_eq!(summary.path, "/s/a.jsonl");
    assert_eq!(summary.modified_unix, 7);
    assert_eq!(summary.cwd.as_str(), Some("/new"));
    assert_eq!(summary.last_message_preview.as_str(), Some("x".repeat(240).as_str()));
    let summary = session_summary("/s/a.jsonl", "a.jsonl", 7, None);
    assert!(summary.cwd.is_null() && summary.last_message_preview.is_null());
    let old = format!(
        "{{\"type\":\"turn_context\",\"payload\":{{\"cwd\":\"/old\"}}}}\n{}",
        "noise\n".repeat(400)
    );
    assert!(session_summary("/s/a.jsonl", "a.jsonl", 7, Some(&old)).cwd.is_null());
}

const PLAIN: NativeWire = NativeWire { include_jsonrpc: false };
const VERSIONED: NativeWire = NativeWire { include_jsonrpc: true };

#[test]
fn messages_to_the_app_server_are_lines() {
    assert_eq!(next_request_id("thread/start", 7), "native-thread-start-7");
    let message = request_json(PLAIN, "i", "m", Json::object());
    assert_eq!(
        String::from_utf8(json_line(&message).expect("a line")).expect("text"),
        "{\"id\":\"i\",\"method\":\"m\",\"params\":{}}\n"
    );
    assert_eq!(
        to_text(&request_json(VERSIONED, "i", "m", Json::Null)),
        r#"{"id":"i","jsonrpc":"2.0","method":"m","params":null}"#
    );
    assert_eq!(
        to_text(&notification_json(PLAIN, "initialized", Json::Null)),
        r#"{"method":"initialized"}"#
    );
    assert_eq!(
        to_text(&notification_json(VERSIONED, "n", Json::text("p"))),
        r#"{"jsonrpc":"2.0","method":"n","params":"p"}"#
    );
    assert_eq!(
        to_text(&initialize_params()),
        r#"{"capabilities":{"experimentalApi":true,"optOutNotificationMethods":["command/exec/outputDelta","item/agentMessage/delta","item/plan/delta","item/fileChange/outputDelta","item/reasoning/summaryTextDelta","item/reasoning/textDelta"]},"clientInfo":{"name":"codex-a2a-rs","title":"Codex A2A RS","version":"0.1.0"}}"#
    );
    assert_eq!(
        to_text(&thread_list_params(5)),
        r#"{"archived":false,"limit":5,"sortDirection":"desc","sortKey":"updated_at","sourceKinds":["appServer","exec","cli"],"useStateDbOnly":false}"#
    );
}

#[test]
fn permissions_override_the_settings_of_a_thread() {
    let permissions = vec!["p".to_string()];
    assert!(native_config_overrides(false, &permissions).is_none());
    assert!(native_config_overrides(true, &Vec::new()).is_none());
    assert_eq!(
        to_text(&native_config_overrides(true, &permissions).expect("settings")),
        r#"{"sandbox_permissions":["p"]}"#
    );
}

#[test]
fn answers_are_known_by_their_names() {
    assert!(matches!(call_step("noise", "i", "m"), CallStep::Waiting));
    assert!(matches!(call_step(r#"{"id":"j","result":1}"#, "i", "m"), CallStep::Waiting));
    match call_step(r#"{"id":"i","result":{"a":1}}"#, "i", "m") {
        CallStep::Done(result) => assert_eq!(to_text(&result), r#"{"a":1}"#),
        _ => panic!("no answer"),
    }
    match call_step(r#"{"id":"i"}"#, "i", "m") {
        CallStep::Done(result) => assert!(result.is_null()),
        _ => panic!("no answer"),
    }
    match call_step(r#"{"id":"i","error":{"code":1}}"#, "i", "thread/start") {
        CallStep::Failed(message) => {
            assert_eq!(message, "native thread/start failed: {\"code\":1}")
        }
        _ => panic!("no error"),
    }
    assert_eq!(
        closed_message("thread/list"),
        "native app-server closed before thread/list response"
    );
}

#[test]
fn turns_end_with_their_own_end() {
    let more = |line: &str| match turn_step("t1", "said".to_string(), line) {
        TurnStep::Running(message) => message,
        _ => panic!("an end"),
    };
    assert_eq!(more("noise"), "said");
    assert_eq!(
        more(r#"{"method":"item/completed","params":{"item":{"type":"agentMessage","text":"new"}}}"#),
        "new"
    );
    assert_eq!(
        more(r#"{"method":"turn/completed","params":{"turn":{"id":"t2","status":"completed"}}}"#),
        "said"
    );
    match turn_step(
        "t1",
        "said".to_string(),
        r#"{"method":"turn/completed","params":{"turn":{"id":"t1","status":"completed"}}}"#,
    ) {
        TurnStep::Completed(message) => assert_eq!(message, "said"),
        _ => panic!("no end"),
    }
    let fails = |line: &str| match turn_step("t1", "said".to_string(), line) {
        TurnStep::Failed(message) => message,
        _ => panic!("no failure"),
    };
    assert_eq!(fails(r#"{"error":{"message":"bad"}}"#), r#"{"message":"bad"}"#);
    assert_eq!(
        fails(r#"{"method":"turn/completed","params":{"turn":{"id":"t1","status":"failed","error":"why"}}}"#),
        "\"why\""
    );
    assert_eq!(
        fails(r#"{"method":"turn/completed","params":{"turn":{"id":"t1","status":"interrupted"}}}"#),
        "native turn ended with status Some(\"interrupted\")"
    );
    assert_eq!(
        fails(r#"{"method":"turn/completed","params":{"turn":{"id":"t1"}}}"#),
        "native turn ended with status None"
    );
}

#[test]
fn messages_of_the_agent_have_texts() {
    assert_eq!(
        agent_message_text(&json(r#"{"item":{"type":"agentMessage","content":[{},{"text":"a"}]}}"#)),
        Some("a".to_string())
    );
    assert_eq!(agent_message_text(&json(r#"{"item":{"type":"agentMessage"}}"#)), None);
    assert_eq!(agent_message_text(&json(r#"{"item":{"type":"plan","text":"a"}}"#)), None);
    assert_eq!(agent_message_text(&json("{}")), None);
}

fn sent(action: RunAction) -> String {
    match action {
        RunAction::Send(message) => to_text(&message),
        _ => panic!("nothing to send"),
    }
}

#[test]
fn a_run_goes_from_thread_to_turn_to_end() {
    let (mut run, action) =
        NativeRun::start(request(true, None), vec!["p".to_string()], VERSIONED, 1);
    assert_eq!(
        sent(action),
        r#"{"id":"native-thread-start-1","jsonrpc":"2.0","method":"thread/start","params":{"approvalPolicy":"never","config":{"sandbox_permissions":["p"]},"cwd":"/w","experimentalRawEvents":false,"persistExtendedHistory":true,"sandbox":"workspace-write"}}"#
    );
    assert!(matches!(run.step(RunEvent::Line("{}".to_string()), 2), RunAction::Read));
    assert_eq!(run.thread_id(), None);
    let action = run.step(
        RunEvent::Line(r#"{"id":"native-thread-start-1","result":{"thread":{"id":"th"}}}"#.to_string()),
        2,
    );
    let message = json(&sent(action));
    assert_eq!(message.text_at("method"), Some("turn/start"));
    assert_eq!(message.at("params").text_at("threadId"), Some("th"));
    assert_eq!(message.at("params").text_at("cwd"), Some("/w"));
    assert!(to_text(&message.at("params").at("input")).contains("\"text_elements\":[]"));
    assert_eq!(run.thread_id(), Some("th".to_string()));
    assert_eq!(run.turn_id(), None);
    assert!(run.result("").is_none());
    assert!(matches!(
        run.step(
            RunEvent::Line(r#"{"id":"native-turn-start-2","result":{"turn":{"id":"tu"}}}"#.to_string()),
            3
        ),
        RunAction::Read
    ));
    assert_eq!(run.turn_id(), Some("tu".to_string()));
    run.step(
        RunEvent::Line(
            r#"{"method":"item/completed","params":{"item":{"type":"agentMessage","text":"hi"}}}"#
                .to_string(),
        ),
        3,
    );
    assert!(matches!(
        run.step(
            RunEvent::Line(
                r#"{"method":"turn/completed","params":{"turn":{"id":"tu","status":"completed"}}}"#
                    .to_string()
            ),
            3
        ),
        RunAction::Finish(false)
    ));
    assert!(matches!(run.step(RunEvent::Closed, 4), RunAction::Finish(false)));
    let result = run.result("ignored").expect("a result");
    assert!(result.success);
    assert_eq!(result.message, "hi");
    assert_eq!(result.resume_session_id, Some("th".to_string()));
}

#[test]
fn a_run_goes_on_with_its_session() {
    let (_, action) = NativeRun::start(request(false, Some("s")), Vec::new(), PLAIN, 3);
    assert_eq!(
        sent(action),
        r#"{"id":"native-thread-resume-3","method":"thread/resume","params":{"approvalPolicy":"never","cwd":"/w","excludeTurns":true,"persistExtendedHistory":true,"sandbox":"read-only","threadId":"s"}}"#
    );
}

fn ended(events: Vec<RunEvent>) -> (String, Option<String>) {
    let (mut run, _) = NativeRun::start(request(false, None), Vec::new(), PLAIN, 1);
    let mut seq = 2;
    for event in events {
        run.step(event, seq);
        seq += 1;
    }
    let result = run.result(" trouble \n").expect("a result");
    assert!(!result.success);
    (result.message, result.resume_session_id)
}

#[test]
fn a_run_can_fail_anywhere() {
    let thread = || {
        RunEvent::Line(r#"{"id":"native-thread-start-1","result":{"thread":{"id":"th"}}}"#.to_string())
    };
    let turn = || {
        RunEvent::Line(r#"{"id":"native-turn-start-2","result":{"turn":{"id":"tu"}}}"#.to_string())
    };
    assert_eq!(
        ended(vec![RunEvent::Closed]),
        (
            "native app-server closed before thread/start response | stderr: trouble".to_string(),
            None
        )
    );
    assert_eq!(
        ended(vec![RunEvent::SendFailed("pipe".to_string())]),
        ("pipe | stderr: trouble".to_string(), None)
    );
    assert_eq!(
        ended(vec![RunEvent::Line(r#"{"id":"native-thread-start-1","result":{}}"#.to_string())]),
        (
            "native thread/start response did not include thread.id | stderr: trouble".to_string(),
            None
        )
    );
    assert_eq!(
        ended(vec![thread(), RunEvent::ReadFailed("io".to_string())]),
        ("io | stderr: trouble".to_string(), None)
    );
    assert_eq!(
        ended(vec![
            thread(),
            RunEvent::Line(r#"{"id":"native-turn-start-2","result":{}}"#.to_string())
        ]),
        (
            "native turn/start response did not include turn.id | stderr: trouble".to_string(),
            None
        )
    );
    assert_eq!(
        ended(vec![thread(), turn(), RunEvent::Closed]),
        (
            "native child closed stdout before turn/completed | stderr: trouble".to_string(),
            Some("th".to_string())
        )
    );
    assert_eq!(
        ended(vec![thread(), turn(), RunEvent::ReadFailed("io".to_string())]),
        (
            "native child stdout read failed: io | stderr: trouble".to_string(),
            Some("th".to_string())
        )
    );
}

#[test]
fn error_output_follows_the_message() {
    assert_eq!(with_stderr("m".to_string(), " \n"), "m");
    assert_eq!(with_stderr("m".to_string(), " e\n"), "m | stderr: e");
    assert_eq!(format_stderr_suffix(""), "");
    assert_eq!(format_stderr_suffix("e"), " | stderr: e");
}

#[test]
fn threads_are_listed_as_sessions() {
    let response = json(
        r#"{"data":[{"id":"a","path":"/p","updatedAt":3,"cwd":"/w","preview":"hello"},{"path":"/q"},{"id":"b"},{"id":"c"}]}"#,
    );
    let list = thread_summaries(&response, 2);
    assert_eq!(list.len(), 2);
    assert_eq!(list[0].id, "a");
    assert_eq!(list[0].path, "/p");
    assert_eq!(list[0].modified_unix, 3);
    assert_eq!(list[0].cwd.as_str(), Some("/w"));
    assert_eq!(list[0].last_message_preview.as_str(), Some("hello"));
    assert_eq!(list[1].id, "b");
    assert_eq!(list[1].path, "");
    assert!(list[1].cwd.is_null() && list[1].last_message_preview.is_null());
    assert!(thread_summaries(&json("{}"), 2).is_empty());
}

#[test]
fn the_app_server_is_tried_three_ways() {
    let list = attempts();
    assert_eq!(list.len(), 3);
    assert_eq!(list[0].arguments, vec!["app-server", "--listen", "stdio://"]);
    assert!(!list[0].wire.include_jsonrpc);
    assert_eq!(list[1].arguments, list[0].arguments);
    assert!(list[1].wire.include_jsonrpc);
    assert_eq!(list[2].arguments, vec!["remote-control"]);
    assert!(!list[2].wire.include_jsonrpc);
    let errors = vec![
        attempt_message(&list[0].arguments, &AttemptError::Refused("no".to_string())),
        attempt_message(&list[1].arguments, &AttemptError::TimedOut),
        attempt_message(&list[2].arguments, &AttemptError::Disconnected),
    ];
    assert_eq!(
        start_failure_message(&errors),
        "failed to start native backend: app-server --listen stdio://: no | app-server --listen stdio://: timed out waiting for native initialize response | remote-control: initialize worker disconnected"
    );
}

#[test]
fn each_way_to_start_is_tried_once() {
    let mut errors = Vec::new();
    let mut tried = Vec::new();
    let message = loop {
        match start_step(&errors) {
            StartStep::Try(attempt) => {
                tried.push((attempt.arguments.join(" "), attempt.wire.include_jsonrpc));
                errors.push(attempt_message(&attempt.arguments, &AttemptError::TimedOut));
            }
            StartStep::Failed(message) => break message,
        }
    };
    assert_eq!(
        tried,
        vec![
            ("app-server --listen stdio://".to_string(), false),
            ("app-server --listen stdio://".to_string(), true),
            ("remote-control".to_string(), false),
        ]
    );
    assert_eq!(message, start_failure_message(&errors));
}

#[test]
fn a_turn_that_is_over_gives_the_process_time() {
    assert!(matches!(finish_step(true, 0, None), FinishStep::Terminate));
    assert!(matches!(finish_step(false, 0, None), FinishStep::Look));
    assert!(matches!(finish_step(false, 0, Some(true)), FinishStep::Collect));
    assert!(matches!(finish_step(false, 19, Some(false)), FinishStep::Wait(100)));
    assert!(matches!(finish_step(false, 19, Some(true)), FinishStep::Collect));
    assert!(matches!(finish_step(false, 20, None), FinishStep::Terminate));
}

#[test]
fn cancellation_interrupts_first() {
    let thread = Some("th".to_string());
    let turn = Some("tu".to_string());
    match cancel_step(&thread, &turn, None) {
        CancelStep::Interrupt(params) => {
            assert_eq!(to_text(&params), r#"{"threadId":"th","turnId":"tu"}"#)
        }
        _ => panic!("no interrupt"),
    }
    assert!(matches!(cancel_step(&thread, &turn, Some(true)), CancelStep::Done));
    assert!(matches!(cancel_step(&thread, &turn, Some(false)), CancelStep::Terminate));
    assert!(matches!(cancel_step(&thread, &None, None), CancelStep::Terminate));
    assert!(matches!(cancel_step(&None, &None, None), CancelStep::Terminate));
}

#[test]
fn processes_are_ended_in_groups() {
    assert_eq!(kill_arguments(42, false), vec!["-TERM", "--", "-42"]);
    assert_eq!(kill_arguments(42, true), vec!["-KILL", "--", "-42"]);
    assert_eq!(taskkill_arguments(42, false), vec!["/PID", "42", "/T"]);
    assert_eq!(taskkill_arguments(42, true), vec!["/PID", "42", "/T", "/F"]);
    assert_eq!(
        taskkill_failure(42, "exit code: 1"),
        "taskkill failed for pid 42: exit code: 1"
    );
}

fn exited(success: bool) -> CommandOutcome {
    CommandOutcome::Ended(success, "exit code: 1".to_string())
}

fn not_started() -> CommandOutcome {
    CommandOutcome::NotStarted("no such file".to_string())
}

fn outcome(step: EndStep) -> Result<(), String> {
    match step {
        EndStep::Done(result) => result,
        _ => panic!("a command is left"),
    }
}

#[test]
fn kill_asks_and_then_forces() {
    assert!(matches!(
        kill_step(42, EndEvent::Nothing),
        EndStep::Ask(arguments) if arguments == ["-TERM", "--", "-42"]
    ));
    for success in [true, false] {
        assert!(matches!(
            kill_step(42, EndEvent::Asked(exited(success))),
            EndStep::Force(150, arguments) if arguments == ["-KILL", "--", "-42"]
        ));
        assert_eq!(outcome(kill_step(42, EndEvent::Forced(exited(success)))), Ok(()));
    }
    let error = Err("no such file".to_string());
    assert_eq!(outcome(kill_step(42, EndEvent::Asked(not_started()))), error);
    assert_eq!(outcome(kill_step(42, EndEvent::Forced(not_started()))), error);
}

#[test]
fn taskkill_forces_in_any_case() {
    assert!(matches!(
        taskkill_step(42, EndEvent::Nothing),
        EndStep::Ask(arguments) if arguments == ["/PID", "42", "/T"]
    ));
    for asked in [exited(true), exited(false), not_started()] {
        assert!(matches!(
            taskkill_step(42, EndEvent::Asked(asked)),
            EndStep::Force(150, arguments) if arguments == ["/PID", "42", "/T", "/F"]
        ));
    }
    assert_eq!(outcome(taskkill_step(42, EndEvent::Forced(exited(true)))), Ok(()));
    assert_eq!(
        outcome(taskkill_step(42, EndEvent::Forced(exited(false)))),
        Err("taskkill failed for pid 42: exit code: 1".to_string())
    );
    assert_eq!(
        outcome(taskkill_step(42, EndEvent::Forced(not_started()))),
        Err("no such file".to_string())
    );
}

#[test]
fn events_change_what_was_heard() {
    let started = json(r#"{"type":"thread.started","thread_id":"th"}"#);
    let heard = hear_event("m".to_string(), None, Some(&started));
    assert_eq!(heard, ("m".to_string(), Some("th".to_string())));
    let nameless = json(r#"{"type":"thread.started"}"#);
    let heard = hear_event("m".to_string(), Some("th".to_string()), Some(&nameless));
    assert_eq!(heard, ("m".to_string(), None));
    let heard = hear_event("m".to_string(), Some("th".to_string()), None);
    assert_eq!(heard, ("m".to_string(), Some("th".to_string())));
    let result = conclude(true, "m".to_string(), None, "out", "err");
    assert_eq!(result.message, "m");
    let result = interpret_text(false, "out", "");
    assert_eq!(result.message, "out");
}

#[test]
fn events_tell_directories_and_texts() {
    let context = json(r#"{"type":"turn_context","payload":{"cwd":"/w"}}"#);
    assert_eq!(event_cwd(Some(&context)).as_str(), Some("/w"));
    assert!(event_preview(Some(&context)).is_null());
    let item = json(r#"{"type":"response_item","payload":{"content":[{"text":"t"}],"cwd":"/w"}}"#);
    assert!(event_cwd(Some(&item)).is_null());
    assert_eq!(event_preview(Some(&item)).as_str(), Some("t"));
    assert!(event_cwd(None).is_null() && event_preview(None).is_null());
}

#[test]
fn events_answer_calls_and_end_turns() {
    assert!(matches!(call_event(None, "i", "m"), CallStep::Waiting));
    let answer = json(r#"{"id":"i","result":7}"#);
    assert!(matches!(call_event(Some(&answer), "i", "m"), CallStep::Done(result) if to_text(&result) == "7"));
    assert_eq!(call_failure_message("m", "e"), "native m failed: e");
    assert!(matches!(turn_event("t", "m".to_string(), None), TurnStep::Running(m) if m == "m"));
    assert_eq!(status_failure_message("None"), "native turn ended with status None");
}
