//! Requests: who may ask, what is asked, and which answer it gets.

use crate::auth::{authorized, is_authorized};
use crate::backend::{summaries, BackendSessionSummary, SummaryModel};
use crate::config::{Config, CODEX_SESSIONS_EXTENSION_URI};
use crate::json::{opt_str, opt_tree, parse, parsed_bytes, Json, JsonTree};
use crate::net::{allowed_source, source_allowed, Address};
use crate::registry::Registry;
use crate::send::{resumed, sent};
use crate::service::{error_json, error_tree, plain_reply, Moment, Reply, ReplyModel};
use crate::sessions::sessions_reply;
use crate::state::{AppState, Model};
use crate::task::{wanted_directory, wants_write, write_request, Directory, WriteRequest};
use crate::tasks::{canceled, got, listed_reply};
use crate::text::{opt_text, same_text};
use vstd::prelude::*;
use vstd::string::*;

verus! {

/// The version of the server.
pub const VERSION: &'static str = "0.1.0";

/// A request that has come in.
pub struct Request {
    pub method: String,
    pub path: String,
    pub headers: Registry<String>,
    pub body: Vec<u8>,
    pub peer_ip: Address,
}

/// What a request says.
pub struct RequestModel {
    pub method: Seq<char>,
    pub path: Seq<char>,
    pub headers: Map<Seq<char>, Seq<char>>,
    pub body: Seq<u8>,
    pub peer_ip: Address,
}

impl View for Request {
    type V = RequestModel;

    open spec fn view(&self) -> RequestModel {
        RequestModel {
            method: self.method@,
            path: self.path@,
            headers: self.headers@,
            body: self.body@,
            peer_ip: self.peer_ip,
        }
    }
}

impl RequestModel {
    /// The header with the name.
    pub open spec fn header(self, name: Seq<char>) -> Option<Seq<char>> {
        if self.headers.dom().contains(name) {
            Some(self.headers[name])
        } else {
            None
        }
    }

    /// The request is for a page.
    pub open spec fn is_page(self, path: Seq<char>) -> bool {
        self.method == "GET"@ && self.path == path
    }

    /// The request is for the agent card, by one of its two names.
    pub open spec fn is_card(self) -> bool {
        self.is_page("/.well-known/agent.json"@) || self.is_page("/.well-known/agent-card.json"@)
    }

    /// The request is a call.
    pub open spec fn is_call(self) -> bool {
        self.method == "POST"@ && (self.path == "/"@ || self.path == "/a2a/jsonrpc"@)
    }
}

/// A call: its name, what it is about, and what its answer is named by.
pub struct Call {
    pub id: Json,
    pub method: String,
    pub params: Json,
}

/// What a call says.
pub struct CallModel {
    pub id: JsonTree,
    pub method: Seq<char>,
    pub params: JsonTree,
}

impl View for Call {
    type V = CallModel;

    open spec fn view(&self) -> CallModel {
        CallModel { id: self.id@, method: self.method@, params: self.params@ }
    }
}

/// The call in a value.
pub open spec fn call_in(tree: JsonTree) -> CallModel {
    CallModel {
        id: tree.at("id"@),
        method: match tree.text_at("method"@) {
            Some(method) => method,
            None => ""@,
        },
        params: match tree.get("params"@) {
            Some(params) => params,
            None => JsonTree::object(),
        },
    }
}

/// The call in a value.
pub fn call_from_json(json: &Json) -> (call: Call)
    ensures
        call@ == call_in(json@),
{
    Call {
        id: json.at("id"),
        method: match json.text_at("method") {
            Some(method) => method.to_owned(),
            None => "".to_owned(),
        },
        params: match json.get("params") {
            Some(params) => params.clone(),
            None => Json::object(),
        },
    }
}

/// What becomes of a request.
pub enum Plan {
    /// It is answered at once, with a status.
    Answer(u16, Json),
    /// It is a call that gets one answer.
    Call(Call),
    /// It is a call that gets a stream of answers.
    Stream(Call),
}

/// What becomes of a request.
pub enum PlanModel {
    Answer(u16, JsonTree),
    Call(CallModel),
    Stream(CallModel),
}

impl View for Plan {
    type V = PlanModel;

    open spec fn view(&self) -> PlanModel {
        match self {
            Plan::Answer(status, payload) => PlanModel::Answer(*status, payload@),
            Plan::Call(call) => PlanModel::Call(call@),
            Plan::Stream(call) => PlanModel::Stream(call@),
        }
    }
}

/// What is said with no more than an error.
pub open spec fn plain_error(message: Seq<char>) -> JsonTree {
    JsonTree::object().with("error"@, JsonTree::Text(message))
}

/// What is said with no more than an error.
pub fn plain_error_json(message: &str) -> (json: Json)
    ensures
        json@ == plain_error(message@),
{
    Json::object().with("error", Json::text(message))
}

/// The answer to a request whose body is longer than is allowed.
pub open spec fn oversized(length: usize, limit: usize) -> Option<(u16, JsonTree)> {
    if length > limit {
        Some((413, plain_error("request body too large"@)))
    } else {
        None
    }
}

/// The answer to a request whose body is longer than is allowed.
pub fn oversized_answer(length: usize, limit: usize) -> (answer: Option<(u16, Json)>)
    ensures
        match answer {
            Some((status, payload)) => length > limit && status == 413 && payload@ == plain_error(
                "request body too large"@,
            ),
            None => length <= limit,
        },
        oversized(length, limit) == (match answer {
            Some((status, payload)) => Some((status, payload@)),
            None => None,
        }),
{
    if length > limit {
        Some((413, plain_error_json("request body too large")))
    } else {
        None
    }
}

/// What is said of the health of the server.
pub open spec fn health_tree() -> JsonTree {
    JsonTree::object().with("status"@, JsonTree::Text("ok"@)).with(
        "agent"@,
        JsonTree::Text("codex-a2a-rs"@),
    ).with("version"@, JsonTree::Text(VERSION@))
}

/// What is said of the health of the server.
pub fn health() -> (json: Json)
    ensures
        json@ == health_tree(),
{
    Json::object().with("status", Json::text("ok")).with("agent", Json::text("codex-a2a-rs")).with(
        "version",
        Json::text(VERSION),
    )
}

/// The request is a call for a stream, where `document` is its body.
pub open spec fn is_stream(request: RequestModel, document: Option<JsonTree>) -> bool {
    &&& request.is_call()
    &&& document matches Some(tree)
    &&& call_in(tree).method == "message/stream"@
}

/// What the answer to a request is named by that is not authorized: by the name of the call for a
/// stream, and else by nothing.
pub open spec fn refused_id(request: RequestModel, document: Option<JsonTree>) -> JsonTree {
    if is_stream(request, document) {
        call_in(document->0).id
    } else {
        JsonTree::Null
    }
}

/// What becomes of a request, where `document` is its body. A request from a source that is not
/// allowed is forbidden; one without the token is not authorized, whatever it asks for; any other
/// gets its page or its call.
pub open spec fn planned(
    config: Config,
    request: RequestModel,
    expected: Option<Seq<char>>,
    document: Option<JsonTree>,
) -> PlanModel {
    if !source_allowed(request.peer_ip, config.allowed_sources@) {
        PlanModel::Answer(403, plain_error("forbidden source"@))
    } else if !is_authorized(request.header("authorization"@), expected) {
        PlanModel::Answer(
            401,
            error_tree(refused_id(request, document), -32000, "Unauthorized"@),
        )
    } else if request.is_page("/health"@) {
        PlanModel::Answer(200, health_tree())
    } else if request.is_card() {
        PlanModel::Answer(200, agent_card_tree(config.public_url@))
    } else if request.is_call() {
        match document {
            None => PlanModel::Answer(400, error_tree(JsonTree::Null, -32700, "Parse error"@)),
            Some(tree) => if call_in(tree).method == "message/stream"@ {
                PlanModel::Stream(call_in(tree))
            } else {
                PlanModel::Call(call_in(tree))
            },
        }
    } else {
        PlanModel::Answer(404, plain_error("not found"@))
    }
}

/// What becomes of a request.
pub open spec fn routed(config: Config, request: RequestModel, expected: Option<Seq<char>>)
    -> PlanModel {
    planned(config, request, expected, parsed_bytes(request.body))
}

/// What a call does and how it is answered. `directory` is what the disk says of the directory
/// that a task wants to write in, and `local` the sessions that the backend knows.
pub open spec fn answered(
    config: Config,
    model: Model,
    call: CallModel,
    moment: Moment,
    directory: Option<Directory>,
    local: Seq<SummaryModel>,
) -> (Model, ReplyModel) {
    if call.method == "message/send"@ {
        sent(config, model, call.id, call.params, false, moment, directory)
    } else if call.method == "message/stream"@ {
        (
            model,
            ReplyModel::plain(
                error_tree(
                    call.id,
                    -32003,
                    "message/stream requires the streaming HTTP response path"@,
                ),
            ),
        )
    } else if call.method == "tasks/send"@ {
        sent(config, model, call.id, call.params, true, moment, directory)
    } else if call.method == "tasks/get"@ {
        (model, got(model, call.id, call.params))
    } else if call.method == "tasks/list"@ {
        (model, listed_reply(model, call.id, call.params))
    } else if call.method == "sessions/list"@ {
        (model, sessions_reply(config, model, call.id, call.params, local))
    } else if call.method == "sessions/resume"@ {
        resumed(config, model, call.id, call.params, moment, directory)
    } else if call.method == "tasks/cancel"@ {
        canceled(model, call.id, call.params, moment.now)
    } else {
        (
            model,
            ReplyModel::plain(error_tree(call.id, -32601, "Method not found: "@ + call.method)),
        )
    }
}

/// The directory that a call wants to write in: such calls send a task or resume a session.
pub open spec fn call_directory(call: CallModel) -> Option<Seq<char>> {
    if (call.method == "message/send"@ || call.method == "message/stream"@ || call.method
        == "tasks/send"@ || call.method == "sessions/resume"@) && wants_write(call.params) {
        wanted_directory(call.params)
    } else {
        None
    }
}

/// Tells which directory the disk has to be asked about before a call is answered.
pub fn directory_wanted(call: &Call) -> (directory: Option<String>)
    ensures
        opt_text(directory) == call_directory(call@),
{
    let method = call.method.as_str();
    if same_text(method, "message/send") || same_text(method, "message/stream") || same_text(
        method,
        "tasks/send",
    ) || same_text(method, "sessions/resume") {
        match write_request(&call.params) {
            WriteRequest::Directory(directory) => Some(directory),
            _ => None,
        }
    } else {
        None
    }
}

/// The security schemes of the agent card.
pub open spec fn security_schemes_tree() -> JsonTree {
    JsonTree::object().with(
        "bearerAuth"@,
        JsonTree::object().with("type"@, JsonTree::Text("http"@)).with(
            "scheme"@,
            JsonTree::Text("bearer"@),
        ),
    )
}

/// The sessions extension in the agent card.
pub open spec fn extension_tree() -> JsonTree {
    JsonTree::object().with("uri"@, JsonTree::Text(CODEX_SESSIONS_EXTENSION_URI@)).with(
        "description"@,
        JsonTree::Text(
            "Codex session continuity extension for sessions/list and sessions/resume."@,
        ),
    ).with("required"@, JsonTree::Bool(false)).with(
        "methods"@,
        JsonTree::Array(
            seq![JsonTree::Text("sessions/list"@), JsonTree::Text("sessions/resume"@)],
        ),
    )
}

/// The capabilities in the agent card.
pub open spec fn capabilities_tree() -> JsonTree {
    JsonTree::object().with("streaming"@, JsonTree::Bool(true)).with(
        "pushNotifications"@,
        JsonTree::Bool(false),
    ).with("multiTurn"@, JsonTree::Bool(true)).with("structuredMetadata"@, JsonTree::Bool(true)).with(
        "extensions"@,
        JsonTree::Array(seq![extension_tree()]),
    )
}

/// The skill of running tasks in the agent card.
pub open spec fn task_skill_tree() -> JsonTree {
    JsonTree::object().with("id"@, JsonTree::Text("codex"@)).with(
        "name"@,
        JsonTree::Text("Codex"@),
    ).with(
        "description"@,
        JsonTree::Text(
            "Ask Codex through a local A2A bridge. Use message/send as the primary method, message/stream for chunked task updates, tasks/get for polling, tasks/list for persisted task history, and tasks/cancel for best-effort cancellation. Default mode is read-only. Controlled write mode requires metadata.writeMode=workspace-write and an allowlisted git metadata.workingDirectory; write tasks are serialized per worktree and results include before/after git trace artifacts."@,
        ),
    )
}

/// The skill of going on with sessions in the agent card.
pub open spec fn session_skill_tree() -> JsonTree {
    JsonTree::object().with("id"@, JsonTree::Text("sessions"@)).with(
        "name"@,
        JsonTree::Text("Codex Sessions"@),
    ).with(
        "description"@,
        JsonTree::Text(
            "Codex session extension. List recent Codex sessions with sessions/list, bind an A2A contextId to a Codex session with sessions/resume, or pass metadata.resumeSessionId to message/send. sessionId is accepted only as a deprecated compatibility alias for contextId."@,
        ),
    ).with(
        "extensions"@,
        JsonTree::Array(seq![JsonTree::Text(CODEX_SESSIONS_EXTENSION_URI@)]),
    )
}

/// The agent card: what the agent is, how it is reached, and what it can do.
pub open spec fn agent_card_tree(public_url: Seq<char>) -> JsonTree {
    JsonTree::object().with("name"@, JsonTree::Text("codex-a2a-rs"@)).with(
        "description"@,
        JsonTree::Text(
            "Rust Codex A2A server for Hermes with long-lived session resume and controlled traceable writes"@,
        ),
    ).with("url"@, JsonTree::Text(public_url)).with("version"@, JsonTree::Text(VERSION@)).with(
        "protocol"@,
        JsonTree::Text("a2a"@),
    ).with("protocolVersion"@, JsonTree::Text("1.0.0"@)).with(
        "preferredTransport"@,
        JsonTree::Text("JSONRPC"@),
    ).with("defaultInputModes"@, JsonTree::Array(seq![JsonTree::Text("text"@)])).with(
        "defaultOutputModes"@,
        JsonTree::Array(seq![JsonTree::Text("text"@)]),
    ).with("securitySchemes"@, security_schemes_tree()).with(
        "security"@,
        JsonTree::Array(
            seq![JsonTree::object().with("bearerAuth"@, JsonTree::Array(Seq::empty()))],
        ),
    ).with("capabilities"@, capabilities_tree()).with(
        "interfaces"@,
        JsonTree::Array(seq![JsonTree::Text("jsonrpc"@)]),
    ).with("skills"@, JsonTree::Array(seq![task_skill_tree(), session_skill_tree()]))
}

/// The security schemes of the agent card.
fn security_schemes() -> (json: Json)
    ensures
        json@ == security_schemes_tree(),
{
    Json::object().with(
        "bearerAuth",
        Json::object().with("type", Json::text("http")).with("scheme", Json::text("bearer")),
    )
}

/// The capabilities in the agent card.
fn capabilities() -> (json: Json)
    ensures
        json@ == capabilities_tree(),
{
    let extension = Json::object().with("uri", Json::text(CODEX_SESSIONS_EXTENSION_URI)).with(
        "description",
        Json::text("Codex session continuity extension for sessions/list and sessions/resume."),
    ).with("required", Json::Bool(false)).with(
        "methods",
        Json::pair(Json::text("sessions/list"), Json::text("sessions/resume")),
    );
    Json::object().with("streaming", Json::Bool(true)).with(
        "pushNotifications",
        Json::Bool(false),
    ).with("multiTurn", Json::Bool(true)).with("structuredMetadata", Json::Bool(true)).with(
        "extensions",
        Json::single(extension),
    )
}

/// The skills in the agent card.
fn skills() -> (json: Json)
    ensures
        json@ == JsonTree::Array(seq![task_skill_tree(), session_skill_tree()]),
{
    let task_skill = Json::object().with("id", Json::text("codex")).with(
        "name",
        Json::text("Codex"),
    ).with(
        "description",
        Json::text(
            "Ask Codex through a local A2A bridge. Use message/send as the primary method, message/stream for chunked task updates, tasks/get for polling, tasks/list for persisted task history, and tasks/cancel for best-effort cancellation. Default mode is read-only. Controlled write mode requires metadata.writeMode=workspace-write and an allowlisted git metadata.workingDirectory; write tasks are serialized per worktree and results include before/after git trace artifacts.",
        ),
    );
    let session_skill = Json::object().with("id", Json::text("sessions")).with(
        "name",
        Json::text("Codex Sessions"),
    ).with(
        "description",
        Json::text(
            "Codex session extension. List recent Codex sessions with sessions/list, bind an A2A contextId to a Codex session with sessions/resume, or pass metadata.resumeSessionId to message/send. sessionId is accepted only as a deprecated compatibility alias for contextId.",
        ),
    ).with("extensions", Json::single(Json::text(CODEX_SESSIONS_EXTENSION_URI)));
    Json::pair(task_skill, session_skill)
}

/// The agent card.
pub fn agent_card(public_url: &str) -> (json: Json)
    ensures
        json@ == agent_card_tree(public_url@),
{
    let none: Vec<Json> = Vec::new();
    let no_scopes = Json::list(none);
    assert(no_scopes@ == JsonTree::Array(Seq::empty())) by {
        assert(no_scopes@->Array_0 =~= Seq::<JsonTree>::empty());
    }
    Json::object().with("name", Json::text("codex-a2a-rs")).with(
        "description",
        Json::text(
            "Rust Codex A2A server for Hermes with long-lived session resume and controlled traceable writes",
        ),
    ).with("url", Json::text(public_url)).with("version", Json::text(VERSION)).with(
        "protocol",
        Json::text("a2a"),
    ).with("protocolVersion", Json::text("1.0.0")).with(
        "preferredTransport",
        Json::text("JSONRPC"),
    ).with("defaultInputModes", Json::single(Json::text("text"))).with(
        "defaultOutputModes",
        Json::single(Json::text("text")),
    ).with("securitySchemes", security_schemes()).with(
        "security",
        Json::single(Json::object().with("bearerAuth", no_scopes)),
    ).with("capabilities", capabilities()).with(
        "interfaces",
        Json::single(Json::text("jsonrpc")),
    ).with("skills", skills())
}

impl Request {
    /// Tells whether the request is for a page.
    fn is_page(&self, path: &str) -> (yes: bool)
        ensures
            yes == self@.is_page(path@),
    {
        same_text(self.method.as_str(), "GET") && same_text(self.path.as_str(), path)
    }

    /// Tells whether the request is a call.
    fn is_call(&self) -> (yes: bool)
        ensures
            yes == self@.is_call(),
    {
        same_text(self.method.as_str(), "POST") && (same_text(self.path.as_str(), "/")
            || same_text(self.path.as_str(), "/a2a/jsonrpc"))
    }
}

/// What the answer to a request is named by that is not authorized.
fn refused_id_json(request: &Request, document: Option<&Json>) -> (id: Json)
    ensures
        id@ == refused_id(request@, opt_tree(document)),
{
    if !request.is_call() {
        return Json::Null;
    }
    match document {
        Some(json) => {
            let call = call_from_json(json);
            if same_text(call.method.as_str(), "message/stream") {
                call.id
            } else {
                Json::Null
            }
        },
        None => Json::Null,
    }
}

/// Decides what becomes of a request, where `document` is its body. `expected` is the token that
/// requests must have.
pub fn plan_request(
    config: &Config,
    request: &Request,
    expected: Option<&str>,
    document: Option<&Json>,
) -> (plan: Plan)
    requires
        config.wf(),
        request.headers.wf(),
    ensures
        plan@ == planned(*config, request@, opt_str(expected), opt_tree(document)),
{
    if !allowed_source(request.peer_ip, &config.allowed_sources) {
        return Plan::Answer(403, plain_error_json("forbidden source"));
    }
    let header = match request.headers.get("authorization") {
        Some(value) => Some(value.as_str()),
        None => None,
    };
    if !authorized(header, expected) {
        return Plan::Answer(
            401,
            error_json(refused_id_json(request, document), -32000, "Unauthorized"),
        );
    }
    if request.is_page("/health") {
        return Plan::Answer(200, health());
    }
    if request.is_page("/.well-known/agent.json") || request.is_page(
        "/.well-known/agent-card.json",
    ) {
        return Plan::Answer(200, agent_card(config.public_url.as_str()));
    }
    if !request.is_call() {
        return Plan::Answer(404, plain_error_json("not found"));
    }
    match document {
        None => Plan::Answer(400, error_json(Json::Null, -32700, "Parse error")),
        Some(json) => {
            let call = call_from_json(json);
            if same_text(call.method.as_str(), "message/stream") {
                Plan::Stream(call)
            } else {
                Plan::Call(call)
            }
        },
    }
}

/// Decides what becomes of a request. `expected` is the token that requests must have.
pub fn route(config: &Config, request: &Request, expected: Option<&str>) -> (plan: Plan)
    requires
        config.wf(),
        request.headers.wf(),
    ensures
        plan@ == routed(*config, request@, opt_str(expected)),
{
    if !request.is_call() {
        return plan_request(config, request, expected, None);
    }
    let document = parse(request.body.as_slice());
    plan_request(config, request, expected, document.as_ref())
}

/// What is said of a method that there is not.
fn unknown_method_text(method: &str) -> (message: String)
    ensures
        message@ == "Method not found: "@ + method@,
{
    let mut message = "Method not found: ".to_owned();
    message.append(method);
    message
}

impl AppState {
    /// Answers a call.
    pub fn handle_jsonrpc(
        &mut self,
        call: Call,
        moment: &Moment,
        directory: &Option<Directory>,
        local: &Vec<BackendSessionSummary>,
    ) -> (reply: Reply)
        requires
            old(self).wf(),
        ensures
            final(self).wf(),
            final(self).config == old(self).config,
            final(self).model() == answered(
                *old(self).config,
                old(self).model(),
                call@,
                *moment,
                *directory,
                summaries(local@),
            ).0,
            reply@ == answered(
                *old(self).config,
                old(self).model(),
                call@,
                *moment,
                *directory,
                summaries(local@),
            ).1,
    {
        let method = call.method.as_str();
        let params = &call.params;
        if same_text(method, "message/send") {
            self.send_task(call.id, params, false, moment, directory)
        } else if same_text(method, "message/stream") {
            plain_reply(
                error_json(
                    call.id,
                    -32003,
                    "message/stream requires the streaming HTTP response path",
                ),
            )
        } else if same_text(method, "tasks/send") {
            self.send_task(call.id, params, true, moment, directory)
        } else if same_text(method, "tasks/get") {
            self.get_task(call.id, params)
        } else if same_text(method, "tasks/list") {
            self.list_tasks(call.id, params)
        } else if same_text(method, "sessions/list") {
            self.list_sessions(call.id, params, local)
        } else if same_text(method, "sessions/resume") {
            self.resume_session(call.id, params, moment, directory)
        } else if same_text(method, "tasks/cancel") {
            self.cancel_task(call.id, params, moment.now)
        } else {
            let message = unknown_method_text(method);
            plain_reply(error_json(call.id, -32601, message.as_str()))
        }
    }
}

} // verus!
