//! Runs through `codex app-server`.

use crate::backend::cli::{event_on, find_text, first_text, read_event};
use crate::backend::{
    summaries, wrap_prompt, wrapped_prompt, BackendExecutionResult, BackendRequest,
    BackendSessionSummary, ExecutionModel, SummaryModel,
};
use crate::config::Config;
use crate::json::{
    compact_bytes, compact_text, is_one_line, opt_bytes, opt_str, opt_tree, text_list, to_text,
    trees, write_line, Json, JsonTree,
};
use crate::rpc::VERSION;
use crate::sessions::first_items;
use crate::state::OptionsModel;
use crate::text::{
    decimal, decimal_text, first_chars, is_blank, join, joined, opt_text, replace, replaced,
    same_text, take_chars, trim, trimmed, views,
};
use std::sync::Arc;
use vstd::prelude::*;
use vstd::string::*;

verus! {

/// The backend that runs `codex app-server`.
pub struct NativeBackend {
    pub config: Arc<Config>,
}

impl NativeBackend {
    /// The backend with a configuration.
    pub fn new(config: Arc<Config>) -> (backend: NativeBackend)
        ensures
            backend.config == config,
    {
        NativeBackend { config }
    }

    /// The name of the backend in context records.
    pub fn kind(&self) -> (name: &'static str)
        ensures
            name@ == "codex-native"@,
    {
        "codex-native"
    }
}

/// How messages to the app server are written.
#[derive(Clone, Copy)]
pub struct NativeWire {
    /// Each message says which version of JSON-RPC it is.
    pub include_jsonrpc: bool,
}

/// The message with the version of JSON-RPC, where it is to say it.
pub open spec fn versioned(wire: NativeWire, message: JsonTree) -> JsonTree {
    if wire.include_jsonrpc {
        message.with("jsonrpc"@, JsonTree::Text("2.0"@))
    } else {
        message
    }
}

/// The message with the version of JSON-RPC, where it is to say it.
fn with_version(wire: NativeWire, message: Json) -> (json: Json)
    ensures
        json@ == versioned(wire, message@),
{
    if wire.include_jsonrpc {
        message.with("jsonrpc", Json::text("2.0"))
    } else {
        message
    }
}

/// What the answer to a request is named by.
pub open spec fn request_id(method: Seq<char>, seq: u64) -> Seq<char> {
    "native-"@ + replaced(method, '/', "-"@) + "-"@ + decimal(seq as nat)
}

/// What the answer to a request is named by. `seq` is a number that no other request has.
pub fn next_request_id(method: &str, seq: u64) -> (id: String)
    ensures
        id@ == request_id(method@, seq),
{
    let mut id = "native-".to_owned();
    id.append(replace(method, '/', "-").as_str());
    id.append("-");
    id.append(decimal_text(seq as u128).as_str());
    id
}

/// A request to the app server.
pub open spec fn request_tree(
    wire: NativeWire,
    id: Seq<char>,
    method: Seq<char>,
    params: JsonTree,
) -> JsonTree {
    versioned(
        wire,
        JsonTree::object().with("id"@, JsonTree::Text(id)).with(
            "method"@,
            JsonTree::Text(method),
        ).with("params"@, params),
    )
}

/// A request to the app server.
pub fn request_json(wire: NativeWire, id: &str, method: &str, params: Json) -> (json: Json)
    ensures
        json@ == request_tree(wire, id@, method@, params@),
{
    with_version(
        wire,
        Json::object().with("id", Json::text(id)).with("method", Json::text(method)).with(
            "params",
            params,
        ),
    )
}

/// A notification to the app server.
pub open spec fn notification_tree(wire: NativeWire, method: Seq<char>, params: JsonTree)
    -> JsonTree {
    let plain = JsonTree::object().with("method"@, JsonTree::Text(method));
    versioned(
        wire,
        if params is Null {
            plain
        } else {
            plain.with("params"@, params)
        },
    )
}

/// A notification to the app server; without parameters where they are null.
pub fn notification_json(wire: NativeWire, method: &str, params: Json) -> (json: Json)
    ensures
        json@ == notification_tree(wire, method@, params@),
{
    let plain = Json::object().with("method", Json::text(method));
    let message = if params.is_null() {
        plain
    } else {
        plain.with("params", params)
    };
    with_version(wire, message)
}

/// A message as a line.
pub open spec fn line_of(message: JsonTree) -> Option<Seq<u8>> {
    match compact_bytes(message) {
        Some(bytes) => Some(bytes.push(10u8)),
        None => None,
    }
}

/// A message as a line: the line feed at its end is the only one.
pub fn json_line(message: &Json) -> (line: Option<Vec<u8>>)
    ensures
        line is Some,
        opt_bytes(line) == line_of(message@),
        line->0.len() > 0 && is_one_line(line->0@.drop_last()),
{
    match write_line(message) {
        Some(bytes) => {
            let ghost message_bytes = bytes@;
            let mut line = bytes;
            line.push(10);
            assert(line@.drop_last() =~= message_bytes);
            Some(line)
        },
        None => None,
    }
}

/// The notifications that the app server is not to send.
pub open spec fn unwanted_notifications() -> Seq<Seq<char>> {
    seq![
        "command/exec/outputDelta"@,
        "item/agentMessage/delta"@,
        "item/plan/delta"@,
        "item/fileChange/outputDelta"@,
        "item/reasoning/summaryTextDelta"@,
        "item/reasoning/textDelta"@,
    ]
}

/// The parameters of `initialize`.
pub open spec fn initialize_tree() -> JsonTree {
    JsonTree::object().with(
        "clientInfo"@,
        JsonTree::object().with("name"@, JsonTree::Text("codex-a2a-rs"@)).with(
            "title"@,
            JsonTree::Text("Codex A2A RS"@),
        ).with("version"@, JsonTree::Text(VERSION@)),
    ).with(
        "capabilities"@,
        JsonTree::object().with("experimentalApi"@, JsonTree::Bool(true)).with(
            "optOutNotificationMethods"@,
            text_list(unwanted_notifications()),
        ),
    )
}

/// The parameters of `initialize`.
pub fn initialize_params() -> (json: Json)
    ensures
        json@ == initialize_tree(),
{
    let unwanted: Vec<String> = vec![
        "command/exec/outputDelta".to_owned(),
        "item/agentMessage/delta".to_owned(),
        "item/plan/delta".to_owned(),
        "item/fileChange/outputDelta".to_owned(),
        "item/reasoning/summaryTextDelta".to_owned(),
        "item/reasoning/textDelta".to_owned(),
    ];
    assert(views(unwanted@) =~= unwanted_notifications());
    Json::object().with(
        "clientInfo",
        Json::object().with("name", Json::text("codex-a2a-rs")).with(
            "title",
            Json::text("Codex A2A RS"),
        ).with("version", Json::text(VERSION)),
    ).with(
        "capabilities",
        Json::object().with("experimentalApi", Json::Bool(true)).with(
            "optOutNotificationMethods",
            Json::texts(&unwanted),
        ),
    )
}

/// The settings that grant permissions to a task that may write.
pub open spec fn overrides_tree(write_enabled: bool, permissions: Seq<Seq<char>>) -> Option<
    JsonTree,
> {
    if !write_enabled || permissions.len() == 0 {
        None
    } else {
        Some(JsonTree::object().with("sandbox_permissions"@, text_list(permissions)))
    }
}

/// The settings that grant permissions to a task that may write.
pub fn native_config_overrides(write_enabled: bool, permissions: &Vec<String>) -> (overrides:
    Option<Json>)
    ensures
        match overrides {
            Some(json) => overrides_tree(write_enabled, views(permissions@)) == Some(json@),
            None => overrides_tree(write_enabled, views(permissions@)) is None,
        },
{
    if !write_enabled || permissions.len() == 0 {
        return None;
    }
    Some(Json::object().with("sandbox_permissions", Json::texts(permissions)))
}

/// The method that opens the thread of a run.
pub open spec fn thread_method_for(session: Option<Seq<char>>) -> Seq<char> {
    match session {
        Some(_) => "thread/resume"@,
        None => "thread/start"@,
    }
}

/// The method that opens the thread of a run.
pub fn thread_method(session: &Option<String>) -> (method: &'static str)
    ensures
        method@ == thread_method_for(opt_text(*session)),
{
    match session {
        Some(_) => "thread/resume",
        None => "thread/start",
    }
}

/// The parameters that open the thread of a run: it goes on with the session, or begins a new one.
pub open spec fn thread_tree(
    session: Option<Seq<char>>,
    options: OptionsModel,
    permissions: Seq<Seq<char>>,
) -> JsonTree {
    let common = match session {
        Some(id) => JsonTree::object().with("threadId"@, JsonTree::Text(id)),
        None => JsonTree::object(),
    }.with("cwd"@, JsonTree::Text(options.working_directory)).with(
        "approvalPolicy"@,
        JsonTree::Text("never"@),
    ).with("sandbox"@, JsonTree::Text(options.sandbox_mode));
    let plain = match session {
        Some(_) => common.with("excludeTurns"@, JsonTree::Bool(true)),
        None => common.with("experimentalRawEvents"@, JsonTree::Bool(false)),
    }.with("persistExtendedHistory"@, JsonTree::Bool(true));
    match overrides_tree(options.write_enabled, permissions) {
        Some(overrides) => plain.with("config"@, overrides),
        None => plain,
    }
}

/// The parameters that open the thread of a run.
pub fn thread_params(request: &BackendRequest, permissions: &Vec<String>) -> (json: Json)
    ensures
        json@ == thread_tree(
            opt_text(request.resume_session_id),
            request.options@,
            views(permissions@),
        ),
{
    let options = &request.options;
    let start = match &request.resume_session_id {
        Some(id) => Json::object().with("threadId", Json::text(id.as_str())),
        None => Json::object(),
    };
    let common = start.with("cwd", Json::text(options.working_directory.as_str())).with(
        "approvalPolicy",
        Json::text("never"),
    ).with("sandbox", Json::text(options.sandbox_mode.as_str()));
    let plain = match &request.resume_session_id {
        Some(_) => common.with("excludeTurns", Json::Bool(true)),
        None => common.with("experimentalRawEvents", Json::Bool(false)),
    };
    let plain = plain.with("persistExtendedHistory", Json::Bool(true));
    match native_config_overrides(options.write_enabled, permissions) {
        Some(overrides) => plain.with("config", overrides),
        None => plain,
    }
}

/// The parameters that start the turn of a run.
pub open spec fn turn_tree(thread_id: Seq<char>, options: OptionsModel, prompt: Seq<char>)
    -> JsonTree {
    JsonTree::object().with("threadId"@, JsonTree::Text(thread_id)).with(
        "input"@,
        JsonTree::Array(
            seq![
                JsonTree::object().with("type"@, JsonTree::Text("text"@)).with(
                    "text"@,
                    JsonTree::Text(wrapped_prompt(prompt, options.write_enabled)),
                ).with("text_elements"@, JsonTree::Array(Seq::empty())),
            ],
        ),
    ).with("cwd"@, JsonTree::Text(options.working_directory)).with(
        "approvalPolicy"@,
        JsonTree::Text("never"@),
    )
}

/// The parameters that start the turn of a run.
pub fn turn_params(thread_id: &str, request: &BackendRequest) -> (json: Json)
    ensures
        json@ == turn_tree(thread_id@, request.options@, request.prompt@),
{
    let none: Vec<Json> = Vec::new();
    let elements = Json::list(none);
    assert(elements@ == JsonTree::Array(Seq::empty())) by {
        assert(elements@->Array_0 =~= Seq::<JsonTree>::empty());
    }
    let prompt = wrap_prompt(request.prompt.as_str(), &request.options);
    Json::object().with("threadId", Json::text(thread_id)).with(
        "input",
        Json::single(
            Json::object().with("type", Json::text("text")).with("text", Json::Text(prompt)).with(
                "text_elements",
                elements,
            ),
        ),
    ).with("cwd", Json::text(request.options.working_directory.as_str())).with(
        "approvalPolicy",
        Json::text("never"),
    )
}

/// The parameters of `thread/list`.
pub open spec fn list_tree(limit: u64) -> JsonTree {
    JsonTree::object().with("limit"@, JsonTree::Integer(limit as int)).with(
        "sortKey"@,
        JsonTree::Text("updated_at"@),
    ).with("sortDirection"@, JsonTree::Text("desc"@)).with(
        "sourceKinds"@,
        text_list(seq!["appServer"@, "exec"@, "cli"@]),
    ).with("archived"@, JsonTree::Bool(false)).with("useStateDbOnly"@, JsonTree::Bool(false))
}

/// The parameters of `thread/list`.
pub fn thread_list_params(limit: u64) -> (json: Json)
    ensures
        json@ == list_tree(limit),
{
    let kinds: Vec<String> = vec!["appServer".to_owned(), "exec".to_owned(), "cli".to_owned()];
    assert(views(kinds@) =~= seq!["appServer"@, "exec"@, "cli"@]);
    Json::object().with("limit", Json::Unsigned(limit)).with(
        "sortKey",
        Json::text("updated_at"),
    ).with("sortDirection", Json::text("desc")).with("sourceKinds", Json::texts(&kinds)).with(
        "archived",
        Json::Bool(false),
    ).with("useStateDbOnly", Json::Bool(false))
}

/// What a line is to the one who waits for an answer.
pub enum CallStep {
    /// It is not the answer.
    Waiting,
    /// It is the answer, and says why the request failed.
    Failed(String),
    /// It is the answer, with the result.
    Done(Json),
}

/// What a line is to the one who waits for an answer.
pub enum CallModel {
    Waiting,
    Failed(Seq<char>),
    Done(JsonTree),
}

impl View for CallStep {
    type V = CallModel;

    open spec fn view(&self) -> CallModel {
        match self {
            CallStep::Waiting => CallModel::Waiting,
            CallStep::Failed(message) => CallModel::Failed(message@),
            CallStep::Done(result) => CallModel::Done(result@),
        }
    }
}

/// What is said of a request that failed with the error.
pub open spec fn call_failure(method: Seq<char>, error: Seq<char>) -> Seq<char> {
    "native "@ + method + " failed: "@ + error
}

/// What is said of a request that failed with the error.
pub fn call_failure_message(method: &str, error: &str) -> (message: String)
    ensures
        message@ == call_failure(method@, error@),
{
    let mut message = "native ".to_owned();
    message.append(method);
    message.append(" failed: ");
    message.append(error);
    message
}

/// What an event, or a line that is none, is to the one who waits for the answer named `id`.
pub open spec fn call_told(event: Option<JsonTree>, id: Seq<char>, method: Seq<char>) -> CallModel {
    match event {
        None => CallModel::Waiting,
        Some(event) => if event.text_at("id"@) != Some(id) {
            CallModel::Waiting
        } else {
            match event.get("error"@) {
                Some(error) => CallModel::Failed(call_failure(method, compact_text(error))),
                None => CallModel::Done(event.at("result"@)),
            }
        },
    }
}

/// Decides what an event is to the one who waits for the answer named `id`.
pub fn call_event(event: Option<&Json>, id: &str, method: &str) -> (step: CallStep)
    ensures
        step@ == call_told(opt_tree(event), id@, method@),
{
    let event = match event {
        Some(event) => event,
        None => return CallStep::Waiting,
    };
    let ours = match event.text_at("id") {
        Some(text) => same_text(text, id),
        None => false,
    };
    if !ours {
        return CallStep::Waiting;
    }
    match event.get("error") {
        Some(error) => CallStep::Failed(call_failure_message(method, to_text(error).as_str())),
        None => CallStep::Done(event.at("result")),
    }
}

/// What a line is to the one who waits for the answer named `id`.
pub open spec fn call_stepped(line: Seq<char>, id: Seq<char>, method: Seq<char>) -> CallModel {
    call_told(event_on(line), id, method)
}

/// Decides what a line is to the one who waits for the answer named `id`.
pub fn call_step(line: &str, id: &str, method: &str) -> (step: CallStep)
    ensures
        step@ == call_stepped(line@, id@, method@),
{
    let event = read_event(line);
    call_event(event.as_ref(), id, method)
}

/// What is said where the app server closed its output before the answer.
pub fn closed_message(method: &str) -> (message: String)
    ensures
        message@ == closed_before(method@),
{
    let mut message = "native app-server closed before ".to_owned();
    message.append(method);
    message.append(" response");
    message
}

/// The `id` of the object in the field `kind` of an answer.
pub open spec fn answered_id(response: JsonTree, kind: Seq<char>) -> Option<Seq<char>> {
    response.at(kind).text_at("id"@)
}

/// The `id` of the object in the field `kind` of an answer, or what is said where there is none.
fn id_in(response: &Json, kind: &str, method: &str) -> (id: Result<String, String>)
    ensures
        match id {
            Ok(text) => answered_id(response@, kind@) == Some(text@),
            Err(message) => answered_id(response@, kind@) is None && message@ == nameless(
                method@,
                kind@,
            ),
        },
{
    match response.at(kind).text_at("id") {
        Some(text) => Ok(text.to_owned()),
        None => {
            let mut message = "native ".to_owned();
            message.append(method);
            message.append(" response did not include ");
            message.append(kind);
            message.append(".id");
            Err(message)
        },
    }
}

/// The thread that the answer to `method` names.
pub fn thread_id_in(response: &Json, method: &str) -> (id: Result<String, String>)
    ensures
        match id {
            Ok(text) => answered_id(response@, "thread"@) == Some(text@),
            Err(message) => answered_id(response@, "thread"@) is None && message@ == nameless(
                method@,
                "thread"@,
            ),
        },
{
    id_in(response, "thread", method)
}

/// The turn that the answer to `turn/start` names.
pub fn turn_id_in(response: &Json) -> (id: Result<String, String>)
    ensures
        match id {
            Ok(text) => answered_id(response@, "turn"@) == Some(text@),
            Err(message) => answered_id(response@, "turn"@) is None && message@ == nameless(
                "turn/start"@,
                "turn"@,
            ),
        },
{
    id_in(response, "turn", "turn/start")
}

/// The text of an item that is a message of the agent.
pub open spec fn agent_text(params: JsonTree) -> Option<Seq<char>> {
    let item = params.at("item"@);
    if item.text_at("type"@) != Some("agentMessage"@) {
        None
    } else {
        match item.text_at("text"@) {
            Some(text) => Some(text),
            None => match item.at("content"@).as_array() {
                Some(parts) => first_text(parts),
                None => None,
            },
        }
    }
}

/// The text of an item that is a message of the agent.
pub fn agent_message_text(params: &Json) -> (text: Option<String>)
    ensures
        opt_text(text) == agent_text(params@),
{
    let item = params.at("item");
    let ours = match item.text_at("type") {
        Some(name) => same_text(name, "agentMessage"),
        None => false,
    };
    if !ours {
        return None;
    }
    match item.text_at("text") {
        Some(text) => return Some(text.to_owned()),
        None => {},
    }
    let content = item.at("content");
    match content.as_array() {
        Some(parts) => find_text(parts),
        None => None,
    }
}

/// What `{:?}` writes for an optional text.
pub uninterp spec fn debug_text(text: Option<Seq<char>>) -> Seq<char>;

/// Calls `format!` with `{:?}` on an optional text. The text that it writes depends on the
/// argument alone, and is `None` where there is none. How characters are escaped is left unsaid.
#[verifier::external_body]
fn debug(text: Option<&str>) -> (written: String)
    ensures
        written@ == debug_text(opt_str(text)),
        text is None ==> written@ == "None"@,
{
    format!("{text:?}")
}

/// What is said of a turn that ended with the status and without an error.
pub open spec fn status_failure(status: Seq<char>) -> Seq<char> {
    "native turn ended with status "@ + status
}

/// What is said of a turn that ended with the status and without an error.
pub fn status_failure_message(status: &str) -> (message: String)
    ensures
        message@ == status_failure(status@),
{
    let mut message = "native turn ended with status ".to_owned();
    message.append(status);
    message
}

/// What is said of a turn that ended otherwise than completed.
pub open spec fn turn_failure(turn: JsonTree) -> Seq<char> {
    match turn.get("error"@) {
        Some(error) => compact_text(error),
        None => status_failure(debug_text(turn.text_at("status"@))),
    }
}

/// What a line is to the run of a turn.
pub enum TurnStep {
    /// The turn goes on, with this as the last message of the agent.
    Running(String),
    /// The turn is completed, with this message.
    Completed(String),
    /// The turn has failed, for this reason.
    Failed(String),
}

/// What a line is to the run of a turn.
pub enum TurnModel {
    Running(Seq<char>),
    Completed(Seq<char>),
    Failed(Seq<char>),
}

impl View for TurnStep {
    type V = TurnModel;

    open spec fn view(&self) -> TurnModel {
        match self {
            TurnStep::Running(message) => TurnModel::Running(message@),
            TurnStep::Completed(message) => TurnModel::Completed(message@),
            TurnStep::Failed(message) => TurnModel::Failed(message@),
        }
    }
}

/// The event is a notification of the method.
pub open spec fn notifies(event: JsonTree, method: Seq<char>) -> bool {
    event.text_at("method"@) == Some(method)
}

/// Tells whether the event is a notification of the method.
fn is_notification(event: &Json, method: &str) -> (yes: bool)
    ensures
        yes == notifies(event@, method@),
{
    match event.text_at("method") {
        Some(text) => same_text(text, method),
        None => false,
    }
}

/// The last message of the agent after an event.
pub open spec fn heard_message(message: Seq<char>, event: JsonTree) -> Seq<char> {
    if notifies(event, "item/completed"@) {
        match agent_text(event.at("params"@)) {
            Some(text) => text,
            None => message,
        }
    } else {
        message
    }
}

/// What an event, or a line that is none, is to the run of the turn `turn_id`, where `message` is
/// the last message of the agent: an error ends it, and so does the end of this turn and of no
/// other.
pub open spec fn turn_told(turn_id: Seq<char>, message: Seq<char>, event: Option<JsonTree>)
    -> TurnModel {
    match event {
        None => TurnModel::Running(message),
        Some(event) => match event.get("error"@) {
            Some(error) => TurnModel::Failed(compact_text(error)),
            None => {
                let heard = heard_message(message, event);
                let turn = event.at("params"@).at("turn"@);
                if !notifies(event, "turn/completed"@) || turn.text_at("id"@) != Some(turn_id) {
                    TurnModel::Running(heard)
                } else if turn.text_at("status"@) == Some("completed"@) {
                    TurnModel::Completed(heard)
                } else {
                    TurnModel::Failed(turn_failure(turn))
                }
            },
        },
    }
}

/// Decides what an event is to the run of a turn.
pub fn turn_event(turn_id: &str, message: String, event: Option<&Json>) -> (step: TurnStep)
    ensures
        step@ == turn_told(turn_id@, message@, opt_tree(event)),
{
    let event = match event {
        Some(event) => event,
        None => return TurnStep::Running(message),
    };
    match event.get("error") {
        Some(error) => return TurnStep::Failed(to_text(error)),
        None => {},
    }
    let mut heard = message;
    if is_notification(event, "item/completed") {
        match agent_message_text(&event.at("params")) {
            Some(text) => {
                heard = text;
            },
            None => {},
        }
    }
    if !is_notification(event, "turn/completed") {
        return TurnStep::Running(heard);
    }
    let turn = event.at("params").at("turn");
    let ours = match turn.text_at("id") {
        Some(text) => same_text(text, turn_id),
        None => false,
    };
    if !ours {
        return TurnStep::Running(heard);
    }
    let status = turn.text_at("status");
    let completed = match status {
        Some(text) => same_text(text, "completed"),
        None => false,
    };
    if completed {
        return TurnStep::Completed(heard);
    }
    match turn.get("error") {
        Some(error) => TurnStep::Failed(to_text(error)),
        None => TurnStep::Failed(status_failure_message(debug(status).as_str())),
    }
}

/// What a line is to the run of the turn `turn_id`.
pub open spec fn turn_stepped(turn_id: Seq<char>, message: Seq<char>, line: Seq<char>) -> TurnModel {
    turn_told(turn_id, message, event_on(line))
}

/// Decides what a line is to the run of a turn.
pub fn turn_step(turn_id: &str, message: String, line: &str) -> (step: TurnStep)
    ensures
        step@ == turn_stepped(turn_id@, message@, line@),
{
    let event = read_event(line);
    turn_event(turn_id, message, event.as_ref())
}

/// A message with what was written to the error output after it, where anything was.
pub open spec fn message_with_stderr(message: Seq<char>, stderr: Seq<char>) -> Seq<char> {
    if trimmed(stderr).len() == 0 {
        message
    } else {
        message + " | stderr: "@ + trimmed(stderr)
    }
}

/// A message with what was written to the error output after it, where anything was.
pub fn with_stderr(message: String, stderr: &str) -> (result: String)
    ensures
        result@ == message_with_stderr(message@, stderr@),
{
    if is_blank(stderr) {
        return message;
    }
    let mut result = message;
    result.append(" | stderr: ");
    result.append(trim(stderr).as_str());
    result
}

/// What follows a message of what was written to the error output.
pub fn format_stderr_suffix(stderr: &str) -> (suffix: String)
    ensures
        suffix@ == (if stderr@.len() == 0 {
            ""@
        } else {
            " | stderr: "@ + stderr@
        }),
{
    if stderr.unicode_len() == 0 {
        return "".to_owned();
    }
    let mut suffix = " | stderr: ".to_owned();
    suffix.append(stderr);
    suffix
}

/// How a run ended: with the last message of the agent, or with the reason for its failure and
/// what was written to the error output.
pub open spec fn run_ended(
    thread_id: Option<Seq<char>>,
    end: Result<Seq<char>, Seq<char>>,
    stderr: Seq<char>,
) -> ExecutionModel {
    ExecutionModel {
        success: end is Ok,
        message: match end {
            Ok(message) => message,
            Err(message) => message_with_stderr(message, stderr),
        },
        resume_session_id: thread_id,
    }
}

/// Where a run is.
pub enum Phase {
    /// It waits for the answer with this name, which opens its thread.
    Opening(String),
    /// It has a thread and waits for the answer with this name, which starts its turn.
    Starting(String, String),
    /// It has a thread and a turn, and this is the last message of the agent.
    Running(String, String, String),
    /// It has ended: with the thread that it had from its answers, and with the last message or
    /// the reason for its failure.
    Ended(Option<String>, Result<String, String>),
}

/// Where a run is.
pub enum PhaseModel {
    Opening(Seq<char>),
    Starting(Seq<char>, Seq<char>),
    Running(Seq<char>, Seq<char>, Seq<char>),
    Ended(Option<Seq<char>>, Result<Seq<char>, Seq<char>>),
}

impl PhaseModel {
    /// The thread of a run that has one and has not ended.
    pub open spec fn thread(self) -> Option<Seq<char>> {
        match self {
            PhaseModel::Starting(thread_id, _) => Some(thread_id),
            PhaseModel::Running(thread_id, _, _) => Some(thread_id),
            _ => None,
        }
    }

    /// The turn of a run that has one and has not ended.
    pub open spec fn turn(self) -> Option<Seq<char>> {
        match self {
            PhaseModel::Running(_, turn_id, _) => Some(turn_id),
            _ => None,
        }
    }
}

impl View for Phase {
    type V = PhaseModel;

    open spec fn view(&self) -> PhaseModel {
        match self {
            Phase::Opening(id) => PhaseModel::Opening(id@),
            Phase::Starting(thread, id) => PhaseModel::Starting(thread@, id@),
            Phase::Running(thread, turn, message) => PhaseModel::Running(
                thread@,
                turn@,
                message@,
            ),
            Phase::Ended(thread, end) => PhaseModel::Ended(
                opt_text(*thread),
                match *end {
                    Ok(message) => Ok(message@),
                    Err(message) => Err(message@),
                },
            ),
        }
    }
}

/// What the app server did.
pub enum RunEvent {
    /// It wrote a line.
    Line(String),
    /// It closed its output.
    Closed,
    /// Its output could not be read.
    ReadFailed(String),
    /// Nothing could be sent to it.
    SendFailed(String),
}

/// What is to be done next for a run.
pub enum RunAction {
    /// Send a message, and read a line after it.
    Send(Json),
    /// Read a line.
    Read,
    /// End the app server: at once where this is true, and else when it had time to end by itself.
    Finish(bool),
}

/// What is to be done next for a run.
pub enum ActionModel {
    Send(JsonTree),
    Read,
    Finish(bool),
}

impl View for RunAction {
    type V = ActionModel;

    open spec fn view(&self) -> ActionModel {
        match self {
            RunAction::Send(message) => ActionModel::Send(message@),
            RunAction::Read => ActionModel::Read,
            RunAction::Finish(force) => ActionModel::Finish(*force),
        }
    }
}

/// A run: what was asked for, and where it is.
pub struct NativeRun {
    pub request: BackendRequest,
    pub permissions: Vec<String>,
    pub wire: NativeWire,
    pub phase: Phase,
}

/// What a run was asked for.
pub struct RunTask {
    pub session: Option<Seq<char>>,
    pub options: OptionsModel,
    pub prompt: Seq<char>,
    pub permissions: Seq<Seq<char>>,
    pub wire: NativeWire,
}

/// A run that has failed before it had a turn.
pub open spec fn stopped(message: Seq<char>) -> (PhaseModel, ActionModel) {
    (PhaseModel::Ended(None, Err(message)), ActionModel::Finish(true))
}

/// What is said where an answer does not name what it should.
pub open spec fn nameless(method: Seq<char>, kind: Seq<char>) -> Seq<char> {
    "native "@ + method + " response did not include "@ + kind + ".id"@
}

/// What is said where the app server closed its output before the answer.
pub open spec fn closed_before(method: Seq<char>) -> Seq<char> {
    "native app-server closed before "@ + method + " response"@
}

/// A run begins: the request that opens its thread is sent.
pub open spec fn run_started(task: RunTask, seq: u64) -> (PhaseModel, ActionModel) {
    let method = thread_method_for(task.session);
    let id = request_id(method, seq);
    (
        PhaseModel::Opening(id),
        ActionModel::Send(
            request_tree(
                task.wire,
                id,
                method,
                thread_tree(task.session, task.options, task.permissions),
            ),
        ),
    )
}

/// What the app server did, to a run that waits for its thread.
pub open spec fn opening_stepped(task: RunTask, id: Seq<char>, event: RunEvent, seq: u64) -> (
    PhaseModel,
    ActionModel,
) {
    let method = thread_method_for(task.session);
    match event {
        RunEvent::Line(line) => match call_stepped(line@, id, method) {
            CallModel::Waiting => (PhaseModel::Opening(id), ActionModel::Read),
            CallModel::Failed(message) => stopped(message),
            CallModel::Done(response) => match answered_id(response, "thread"@) {
                None => stopped(nameless(method, "thread"@)),
                Some(thread_id) => {
                    let next = request_id("turn/start"@, seq);
                    (
                        PhaseModel::Starting(thread_id, next),
                        ActionModel::Send(
                            request_tree(
                                task.wire,
                                next,
                                "turn/start"@,
                                turn_tree(thread_id, task.options, task.prompt),
                            ),
                        ),
                    )
                },
            },
        },
        RunEvent::Closed => stopped(closed_before(method)),
        RunEvent::ReadFailed(error) => stopped(error@),
        RunEvent::SendFailed(error) => stopped(error@),
    }
}

/// What the app server did, to a run that waits for its turn.
pub open spec fn starting_stepped(thread_id: Seq<char>, id: Seq<char>, event: RunEvent) -> (
    PhaseModel,
    ActionModel,
) {
    match event {
        RunEvent::Line(line) => match call_stepped(line@, id, "turn/start"@) {
            CallModel::Waiting => (PhaseModel::Starting(thread_id, id), ActionModel::Read),
            CallModel::Failed(message) => stopped(message),
            CallModel::Done(response) => match answered_id(response, "turn"@) {
                None => stopped(nameless("turn/start"@, "turn"@)),
                Some(turn_id) => (
                    PhaseModel::Running(thread_id, turn_id, ""@),
                    ActionModel::Read,
                ),
            },
        },
        RunEvent::Closed => stopped(closed_before("turn/start"@)),
        RunEvent::ReadFailed(error) => stopped(error@),
        RunEvent::SendFailed(error) => stopped(error@),
    }
}

/// What the app server did, to a run whose turn runs.
pub open spec fn running_stepped(
    thread_id: Seq<char>,
    turn_id: Seq<char>,
    message: Seq<char>,
    event: RunEvent,
) -> (PhaseModel, ActionModel) {
    let ended = match event {
        RunEvent::Line(line) => turn_stepped(turn_id, message, line@),
        RunEvent::Closed => TurnModel::Failed(
            "native child closed stdout before turn/completed"@,
        ),
        RunEvent::ReadFailed(error) => TurnModel::Failed(
            "native child stdout read failed: "@ + error@,
        ),
        RunEvent::SendFailed(error) => TurnModel::Failed(error@),
    };
    match ended {
        TurnModel::Running(heard) => (
            PhaseModel::Running(thread_id, turn_id, heard),
            ActionModel::Read,
        ),
        TurnModel::Completed(heard) => (
            PhaseModel::Ended(Some(thread_id), Ok(heard)),
            ActionModel::Finish(false),
        ),
        TurnModel::Failed(reason) => (
            PhaseModel::Ended(Some(thread_id), Err(reason)),
            ActionModel::Finish(true),
        ),
    }
}

/// What the app server did, to a run wherever it is. `seq` is a number that no other request has.
pub open spec fn run_stepped(task: RunTask, phase: PhaseModel, event: RunEvent, seq: u64) -> (
    PhaseModel,
    ActionModel,
) {
    match phase {
        PhaseModel::Opening(id) => opening_stepped(task, id, event, seq),
        PhaseModel::Starting(thread_id, id) => starting_stepped(thread_id, id, event),
        PhaseModel::Running(thread_id, turn_id, message) => running_stepped(
            thread_id,
            turn_id,
            message,
            event,
        ),
        PhaseModel::Ended(_, end) => (phase, ActionModel::Finish(end is Err)),
    }
}

impl NativeRun {
    /// What the run was asked for.
    pub open spec fn task(&self) -> RunTask {
        RunTask {
            session: opt_text(self.request.resume_session_id),
            options: self.request.options@,
            prompt: self.request.prompt@,
            permissions: views(self.permissions@),
            wire: self.wire,
        }
    }

    /// Begins a run. `seq` is a number that no other request has.
    pub fn start(request: BackendRequest, permissions: Vec<String>, wire: NativeWire, seq: u64) -> (
        started: (NativeRun, RunAction))
        ensures
            started.0.request == request,
            started.0.permissions == permissions,
            started.0.wire == wire,
            started.0.phase@ == run_started(started.0.task(), seq).0,
            started.1@ == run_started(started.0.task(), seq).1,
    {
        let method = thread_method(&request.resume_session_id);
        let id = next_request_id(method, seq);
        let message = request_json(
            wire,
            id.as_str(),
            method,
            thread_params(&request, &permissions),
        );
        let run = NativeRun { request, permissions, wire, phase: Phase::Opening(id) };
        (run, RunAction::Send(message))
    }

    /// Ends the run before it had a turn.
    fn stop(&mut self, message: String) -> (action: RunAction)
        ensures
            final(self).request == old(self).request,
            final(self).permissions == old(self).permissions,
            final(self).wire == old(self).wire,
            final(self).phase@ == stopped(message@).0,
            action@ == stopped(message@).1,
    {
        self.phase = Phase::Ended(None, Err(message));
        RunAction::Finish(true)
    }

    /// Takes in what the app server did to a run that waits for its thread.
    fn step_opening(&mut self, id: String, event: RunEvent, seq: u64) -> (action: RunAction)
        requires
            old(self).phase@ == PhaseModel::Opening(id@),
        ensures
            final(self).request == old(self).request,
            final(self).permissions == old(self).permissions,
            final(self).wire == old(self).wire,
            final(self).phase@ == opening_stepped(old(self).task(), id@, event, seq).0,
            action@ == opening_stepped(old(self).task(), id@, event, seq).1,
    {
        let method = thread_method(&self.request.resume_session_id);
        let line = match event {
            RunEvent::Line(line) => line,
            RunEvent::Closed => return self.stop(closed_message(method)),
            RunEvent::ReadFailed(error) => return self.stop(error),
            RunEvent::SendFailed(error) => return self.stop(error),
        };
        let response = match call_step(line.as_str(), id.as_str(), method) {
            CallStep::Waiting => return RunAction::Read,
            CallStep::Failed(message) => return self.stop(message),
            CallStep::Done(response) => response,
        };
        let thread_id = match thread_id_in(&response, method) {
            Ok(thread_id) => thread_id,
            Err(message) => return self.stop(message),
        };
        let next = next_request_id("turn/start", seq);
        let message = request_json(
            self.wire,
            next.as_str(),
            "turn/start",
            turn_params(thread_id.as_str(), &self.request),
        );
        self.phase = Phase::Starting(thread_id, next);
        RunAction::Send(message)
    }

    /// Takes in what the app server did to a run that waits for its turn.
    fn step_starting(&mut self, thread_id: String, id: String, event: RunEvent) -> (action: RunAction)
        requires
            old(self).phase@ == PhaseModel::Starting(thread_id@, id@),
        ensures
            final(self).request == old(self).request,
            final(self).permissions == old(self).permissions,
            final(self).wire == old(self).wire,
            final(self).phase@ == starting_stepped(thread_id@, id@, event).0,
            action@ == starting_stepped(thread_id@, id@, event).1,
    {
        let line = match event {
            RunEvent::Line(line) => line,
            RunEvent::Closed => return self.stop(closed_message("turn/start")),
            RunEvent::ReadFailed(error) => return self.stop(error),
            RunEvent::SendFailed(error) => return self.stop(error),
        };
        let response = match call_step(line.as_str(), id.as_str(), "turn/start") {
            CallStep::Waiting => return RunAction::Read,
            CallStep::Failed(message) => return self.stop(message),
            CallStep::Done(response) => response,
        };
        let turn_id = match turn_id_in(&response) {
            Ok(turn_id) => turn_id,
            Err(message) => return self.stop(message),
        };
        self.phase = Phase::Running(thread_id, turn_id, "".to_owned());
        RunAction::Read
    }

    /// Takes in what the app server did to a run whose turn runs.
    fn step_running(
        &mut self,
        thread_id: String,
        turn_id: String,
        message: String,
        event: RunEvent,
    ) -> (action: RunAction)
        ensures
            final(self).request == old(self).request,
            final(self).permissions == old(self).permissions,
            final(self).wire == old(self).wire,
            final(self).phase@ == running_stepped(thread_id@, turn_id@, message@, event).0,
            action@ == running_stepped(thread_id@, turn_id@, message@, event).1,
    {
        let step = match event {
            RunEvent::Line(line) => turn_step(turn_id.as_str(), message, line.as_str()),
            RunEvent::Closed => TurnStep::Failed(
                "native child closed stdout before turn/completed".to_owned(),
            ),
            RunEvent::ReadFailed(error) => {
                let mut reason = "native child stdout read failed: ".to_owned();
                reason.append(error.as_str());
                TurnStep::Failed(reason)
            },
            RunEvent::SendFailed(error) => TurnStep::Failed(error),
        };
        match step {
            TurnStep::Running(heard) => {
                self.phase = Phase::Running(thread_id, turn_id, heard);
                RunAction::Read
            },
            TurnStep::Completed(heard) => {
                self.phase = Phase::Ended(Some(thread_id), Ok(heard));
                RunAction::Finish(false)
            },
            TurnStep::Failed(reason) => {
                self.phase = Phase::Ended(Some(thread_id), Err(reason));
                RunAction::Finish(true)
            },
        }
    }

    /// Takes in what the app server did, and decides what is to be done next. `seq` is a number
    /// that no other request has.
    pub fn step(&mut self, event: RunEvent, seq: u64) -> (action: RunAction)
        ensures
            final(self).request == old(self).request,
            final(self).permissions == old(self).permissions,
            final(self).wire == old(self).wire,
            final(self).phase@ == run_stepped(old(self).task(), old(self).phase@, event, seq).0,
            action@ == run_stepped(old(self).task(), old(self).phase@, event, seq).1,
    {
        match &self.phase {
            Phase::Opening(id) => {
                let id = id.clone();
                self.step_opening(id, event, seq)
            },
            Phase::Starting(thread_id, id) => {
                let thread_id = thread_id.clone();
                let id = id.clone();
                self.step_starting(thread_id, id, event)
            },
            Phase::Running(thread_id, turn_id, message) => {
                let thread_id = thread_id.clone();
                let turn_id = turn_id.clone();
                let message = message.clone();
                self.step_running(thread_id, turn_id, message, event)
            },
            Phase::Ended(_, end) => match end {
                Ok(_) => RunAction::Finish(false),
                Err(_) => RunAction::Finish(true),
            },
        }
    }

    /// The thread of the run, once it has one and until it has ended.
    pub fn thread_id(&self) -> (id: Option<String>)
        ensures
            opt_text(id) == self.phase@.thread(),
            opt_text(id) == (match self.phase@ {
                PhaseModel::Starting(thread_id, _) => Some(thread_id),
                PhaseModel::Running(thread_id, _, _) => Some(thread_id),
                _ => None,
            }),
    {
        match &self.phase {
            Phase::Starting(thread_id, _) => Some(thread_id.clone()),
            Phase::Running(thread_id, _, _) => Some(thread_id.clone()),
            _ => None,
        }
    }

    /// The turn of the run, once it has one and until it has ended.
    pub fn turn_id(&self) -> (id: Option<String>)
        ensures
            opt_text(id) == self.phase@.turn(),
            opt_text(id) == (match self.phase@ {
                PhaseModel::Running(_, turn_id, _) => Some(turn_id),
                _ => None,
            }),
    {
        match &self.phase {
            Phase::Running(_, turn_id, _) => Some(turn_id.clone()),
            _ => None,
        }
    }

    /// How the run ended, with what was written to the error output; nothing while it has not.
    pub fn result(&self, stderr: &str) -> (result: Option<BackendExecutionResult>)
        ensures
            match self.phase@ {
                PhaseModel::Ended(thread_id, end) => result is Some && result->0@ == run_ended(
                    thread_id,
                    end,
                    stderr@,
                ),
                _ => result is None,
            },
    {
        match &self.phase {
            Phase::Ended(thread_id, end) => {
                let resume_session_id = match thread_id {
                    Some(id) => Some(id.clone()),
                    None => None,
                };
                match end {
                    Ok(message) => Some(
                        BackendExecutionResult {
                            success: true,
                            message: message.clone(),
                            resume_session_id,
                        },
                    ),
                    Err(message) => Some(
                        BackendExecutionResult {
                            success: false,
                            message: with_stderr(message.clone(), stderr),
                            resume_session_id,
                        },
                    ),
                }
            },
            _ => None,
        }
    }
}

/// Where a run is after the events, each with the number that a request after it would have.
pub open spec fn run_over(task: RunTask, phase: PhaseModel, events: Seq<(RunEvent, u64)>) -> PhaseModel
    decreases events.len(),
{
    if events.len() == 0 {
        phase
    } else {
        run_stepped(
            task,
            run_over(task, phase, events.drop_last()),
            events.last().0,
            events.last().1,
        ).0
    }
}

/// A run that has ended stays as it ended, whatever the app server does.
pub proof fn law_ended_runs_stay_ended(
    task: RunTask,
    phase: PhaseModel,
    events: Seq<(RunEvent, u64)>,
)
    requires
        phase is Ended,
    ensures
        run_over(task, phase, events) == phase,
    decreases events.len(),
{
    if events.len() > 0 {
        law_ended_runs_stay_ended(task, phase, events.drop_last());
    }
}

/// The end of another turn, and what is no JSON document, leave a run as it is, but for the last
/// message of the agent.
pub proof fn law_other_turns_do_not_end_a_run(
    turn_id: Seq<char>,
    message: Seq<char>,
    line: Seq<char>,
)
    requires
        event_on(line) matches Some(event) ==> event.get("error"@) is None && event.at(
            "params"@,
        ).at("turn"@).text_at("id"@) != Some(turn_id),
    ensures
        turn_stepped(turn_id, message, line) is Running,
{
}

/// A run goes on with the session that it was given: the thread is resumed by its name.
pub proof fn law_runs_resume_their_session(task: RunTask, seq: u64)
    ensures
        ({
            let (phase, action) = run_started(task, seq);
            &&& action matches ActionModel::Send(message)
            &&& match task.session {
                Some(session) => message.text_at("method"@) == Some("thread/resume"@)
                    && message.at("params"@).text_at("threadId"@) == Some(session),
                None => message.text_at("method"@) == Some("thread/start"@) && message.at(
                    "params"@,
                ).get("threadId"@) is None,
            }
        }),
{
    reveal_strlit("jsonrpc");
    reveal_strlit("id");
    reveal_strlit("method");
    reveal_strlit("params");
    reveal_strlit("threadId");
    reveal_strlit("cwd");
    reveal_strlit("approvalPolicy");
    reveal_strlit("sandbox");
    reveal_strlit("excludeTurns");
    reveal_strlit("experimentalRawEvents");
    reveal_strlit("persistExtendedHistory");
    reveal_strlit("config");
    assert("jsonrpc"@.len() == 7);
    assert("id"@.len() == 2);
    assert("method"@.len() == 6 && "method"@[0] == 'm');
    assert("params"@.len() == 6 && "params"@[0] == 'p');
    assert("threadId"@.len() == 8);
    assert("cwd"@.len() == 3);
    assert("approvalPolicy"@.len() == 14);
    assert("sandbox"@.len() == 7);
    assert("excludeTurns"@.len() == 12);
    assert("experimentalRawEvents"@.len() == 21);
    assert("persistExtendedHistory"@.len() == 22);
    assert("config"@.len() == 6);
}

/// The sessions that a list of threads holds: a thread without a name is left out.
pub open spec fn thread_model(thread: JsonTree) -> Option<SummaryModel> {
    match thread.text_at("id"@) {
        None => None,
        Some(id) => Some(
            SummaryModel {
                id,
                path: match thread.text_at("path"@) {
                    Some(path) => path,
                    None => ""@,
                },
                modified_unix: match thread.u64_at("updatedAt"@) {
                    Some(time) => time,
                    None => 0,
                },
                cwd: thread.at("cwd"@),
                last_message_preview: match thread.text_at("preview"@) {
                    Some(preview) => JsonTree::Text(first_chars(preview, 240)),
                    None => JsonTree::Null,
                },
            },
        ),
    }
}

/// What a thread says of its session.
pub fn thread_summary(thread: &Json) -> (summary: Option<BackendSessionSummary>)
    ensures
        match summary {
            Some(s) => thread_model(thread@) == Some(s@),
            None => thread_model(thread@) is None,
        },
{
    let id = match thread.text_at("id") {
        Some(id) => id.to_owned(),
        None => return None,
    };
    Some(
        BackendSessionSummary {
            id,
            path: match thread.text_at("path") {
                Some(path) => path.to_owned(),
                None => "".to_owned(),
            },
            modified_unix: match thread.u64_at("updatedAt") {
                Some(time) => time,
                None => 0,
            },
            cwd: thread.at("cwd"),
            last_message_preview: match thread.text_at("preview") {
                Some(preview) => Json::Text(take_chars(preview, 240)),
                None => Json::Null,
            },
        },
    )
}

/// What the threads say of their sessions, in order.
pub open spec fn thread_models(threads: Seq<JsonTree>) -> Seq<SummaryModel>
    decreases threads.len(),
{
    if threads.len() == 0 {
        Seq::empty()
    } else {
        let earlier = thread_models(threads.drop_last());
        match thread_model(threads.last()) {
            Some(summary) => earlier.push(summary),
            None => earlier,
        }
    }
}

/// The sessions in the answer to `thread/list`.
pub open spec fn listed_threads(response: JsonTree, limit: nat) -> Seq<SummaryModel> {
    match response.at("data"@).as_array() {
        Some(threads) => first_items(thread_models(threads), limit),
        None => Seq::empty(),
    }
}

/// The sessions in the answer to `thread/list`, `limit` at most.
pub fn thread_summaries(response: &Json, limit: usize) -> (list: Vec<BackendSessionSummary>)
    ensures
        summaries(list@) == listed_threads(response@, limit as nat),
{
    let data = response.at("data");
    let mut list: Vec<BackendSessionSummary> = Vec::new();
    let threads = match data.as_array() {
        Some(threads) => threads,
        None => {
            assert(summaries(list@) =~= Seq::<SummaryModel>::empty());
            return list;
        },
    };
    let ghost all = trees(threads@);
    let mut i: usize = 0;
    assert(summaries(list@) =~= thread_models(all.take(0)));
    while i < threads.len()
        invariant
            i <= threads.len(),
            all == trees(threads@),
            summaries(list@) == thread_models(all.take(i as int)),
        decreases threads.len() - i,
    {
        proof {
            assert(all.take(i + 1).drop_last() =~= all.take(i as int));
            assert(all.take(i + 1).last() == threads@[i as int]@);
        }
        match thread_summary(&threads[i]) {
            Some(summary) => {
                let ghost earlier = list@;
                list.push(summary);
                assert(summaries(list@) =~= summaries(earlier).push(summary@));
            },
            None => {},
        }
        i = i + 1;
    }
    assert(all.take(i as int) =~= all);
    let ghost every = list@;
    list.truncate(limit);
    assert(summaries(list@) =~= first_items(summaries(every), limit as nat));
    list
}

/// A way to start the app server: the arguments of Codex, and how messages are written.
pub struct Attempt {
    pub arguments: Vec<String>,
    pub wire: NativeWire,
}

/// The ways to start the app server, in the order in which they are tried.
pub open spec fn attempts_listed() -> Seq<(Seq<Seq<char>>, bool)> {
    seq![
        (seq!["app-server"@, "--listen"@, "stdio://"@], false),
        (seq!["app-server"@, "--listen"@, "stdio://"@], true),
        (seq!["remote-control"@], false),
    ]
}

/// The arguments that make Codex an app server on its standard input and output.
pub fn server_arguments() -> (arguments: Vec<String>)
    ensures
        views(arguments@) == seq!["app-server"@, "--listen"@, "stdio://"@],
{
    let arguments: Vec<String> = vec![
        "app-server".to_owned(),
        "--listen".to_owned(),
        "stdio://".to_owned(),
    ];
    assert(views(arguments@) =~= seq!["app-server"@, "--listen"@, "stdio://"@]);
    arguments
}

/// The ways to start the app server, in the order in which they are tried.
pub fn attempts() -> (list: Vec<Attempt>)
    ensures
        list@.map_values(|a: Attempt| (views(a.arguments@), a.wire.include_jsonrpc))
            == attempts_listed(),
{
    let last: Vec<String> = vec!["remote-control".to_owned()];
    assert(views(last@) =~= seq!["remote-control"@]);
    let list: Vec<Attempt> = vec![
        Attempt { arguments: server_arguments(), wire: NativeWire { include_jsonrpc: false } },
        Attempt { arguments: server_arguments(), wire: NativeWire { include_jsonrpc: true } },
        Attempt { arguments: last, wire: NativeWire { include_jsonrpc: false } },
    ];
    assert(list@.map_values(|a: Attempt| (views(a.arguments@), a.wire.include_jsonrpc))
        =~= attempts_listed());
    list
}

/// Why an attempt to start the app server failed.
pub enum AttemptError {
    /// It said so.
    Refused(String),
    /// It did not answer in time.
    TimedOut,
    /// It was given up.
    Disconnected,
}

/// The words for a failed attempt.
pub open spec fn attempt_words(error: AttemptError) -> Seq<char> {
    match error {
        AttemptError::Refused(message) => message@,
        AttemptError::TimedOut => "timed out waiting for native initialize response"@,
        AttemptError::Disconnected => "initialize worker disconnected"@,
    }
}

/// What is said of a failed attempt.
pub fn attempt_message(arguments: &Vec<String>, error: &AttemptError) -> (message: String)
    ensures
        message@ == joined(views(arguments@), " "@) + ": "@ + attempt_words(*error),
{
    let mut message = join(arguments, " ");
    message.append(": ");
    match error {
        AttemptError::Refused(text) => message.append(text.as_str()),
        AttemptError::TimedOut => message.append(
            "timed out waiting for native initialize response",
        ),
        AttemptError::Disconnected => message.append("initialize worker disconnected"),
    }
    message
}

/// What is said where each attempt has failed.
pub fn start_failure_message(errors: &Vec<String>) -> (message: String)
    ensures
        message@ == "failed to start native backend: "@ + joined(views(errors@), " | "@),
{
    let mut message = "failed to start native backend: ".to_owned();
    message.append(join(errors, " | ").as_str());
    message
}

/// What is to be done next to start the app server.
pub enum StartStep {
    /// Try this way.
    Try(Attempt),
    /// Give up, for this reason.
    Failed(String),
}

/// What is to be done next to start the app server.
pub enum StartModel {
    Try(Seq<Seq<char>>, bool),
    Failed(Seq<char>),
}

impl View for StartStep {
    type V = StartModel;

    open spec fn view(&self) -> StartModel {
        match self {
            StartStep::Try(attempt) => StartModel::Try(
                views(attempt.arguments@),
                attempt.wire.include_jsonrpc,
            ),
            StartStep::Failed(message) => StartModel::Failed(message@),
        }
    }
}

/// What is to be done next to start the app server, once as many attempts have failed as there
/// are errors.
pub open spec fn start_stepped(errors: Seq<Seq<char>>) -> StartModel {
    if errors.len() < attempts_listed().len() {
        let (arguments, include_jsonrpc) = attempts_listed()[errors.len() as int];
        StartModel::Try(arguments, include_jsonrpc)
    } else {
        StartModel::Failed("failed to start native backend: "@ + joined(errors, " | "@))
    }
}

/// Decides what is to be done next to start the app server: the first way that has not failed, and
/// the failure with all its errors where each has.
pub fn start_step(errors: &Vec<String>) -> (step: StartStep)
    ensures
        step@ == start_stepped(views(errors@)),
{
    let mut list = attempts();
    let ghost listed = list@.map_values(
        |a: Attempt| (views(a.arguments@), a.wire.include_jsonrpc),
    );
    assert(listed.len() == list@.len());
    if errors.len() < list.len() {
        assert(listed[errors.len() as int] == (
            views(list@[errors.len() as int].arguments@),
            list@[errors.len() as int].wire.include_jsonrpc,
        ));
        StartStep::Try(list.remove(errors.len()))
    } else {
        StartStep::Failed(start_failure_message(errors))
    }
}

/// What is to be done next once a turn is over.
pub enum FinishStep {
    /// See whether the process has ended.
    Look,
    /// Pause for as many milliseconds.
    Wait(u64),
    /// End the process.
    Terminate,
    /// Take what the process has said.
    Collect,
}

/// What is to be done next once a turn is over. `waits` is the number of pauses so far, and
/// `ended` what was seen of the process since the last one.
pub open spec fn finish_stepped(force: bool, waits: u32, ended: Option<bool>) -> FinishStep {
    if force || waits >= 20 {
        FinishStep::Terminate
    } else {
        match ended {
            None => FinishStep::Look,
            Some(true) => FinishStep::Collect,
            Some(false) => FinishStep::Wait(100),
        }
    }
}

/// Decides what is to be done next once a turn is over: the process gets twenty short pauses to
/// end by itself, unless it is to be ended by force at once.
pub fn finish_step(force: bool, waits: u32, ended: Option<bool>) -> (step: FinishStep)
    ensures
        step == finish_stepped(force, waits, ended),
{
    if force || waits >= 20 {
        return FinishStep::Terminate;
    }
    match ended {
        None => FinishStep::Look,
        Some(over) => if over {
            FinishStep::Collect
        } else {
            FinishStep::Wait(100)
        },
    }
}

/// What is to be done next to cancel a run.
pub enum CancelStep {
    /// Send `turn/interrupt` with these parameters.
    Interrupt(Json),
    /// End the process.
    Terminate,
    /// Nothing.
    Done,
}

/// What is to be done next to cancel a run.
pub enum CancelModel {
    Interrupt(JsonTree),
    Terminate,
    Done,
}

impl View for CancelStep {
    type V = CancelModel;

    open spec fn view(&self) -> CancelModel {
        match self {
            CancelStep::Interrupt(params) => CancelModel::Interrupt(params@),
            CancelStep::Terminate => CancelModel::Terminate,
            CancelStep::Done => CancelModel::Done,
        }
    }
}

/// What is to be done next to cancel a run. `interrupted` says whether the interrupt could be sent,
/// once it was tried.
pub open spec fn cancel_stepped(
    thread_id: Option<Seq<char>>,
    turn_id: Option<Seq<char>>,
    interrupted: Option<bool>,
) -> CancelModel {
    match interrupted {
        Some(true) => CancelModel::Done,
        Some(false) => CancelModel::Terminate,
        None => match (thread_id, turn_id) {
            (Some(thread), Some(turn)) => CancelModel::Interrupt(
                JsonTree::object().with("threadId"@, JsonTree::Text(thread)).with(
                    "turnId"@,
                    JsonTree::Text(turn),
                ),
            ),
            _ => CancelModel::Terminate,
        },
    }
}

/// Decides what is to be done next to cancel a run: an interrupt where its turn is known, and the
/// end of the process where it is not or the interrupt could not be sent.
pub fn cancel_step(
    thread_id: &Option<String>,
    turn_id: &Option<String>,
    interrupted: Option<bool>,
) -> (step: CancelStep)
    ensures
        step@ == cancel_stepped(opt_text(*thread_id), opt_text(*turn_id), interrupted),
{
    match interrupted {
        Some(sent) => {
            if sent {
                return CancelStep::Done;
            }
            return CancelStep::Terminate;
        },
        None => {},
    }
    match thread_id {
        Some(thread) => match turn_id {
            Some(turn) => CancelStep::Interrupt(
                Json::object().with("threadId", Json::text(thread.as_str())).with(
                    "turnId",
                    Json::text(turn.as_str()),
                ),
            ),
            None => CancelStep::Terminate,
        },
        None => CancelStep::Terminate,
    }
}

} // verus!
