//! Tasks as JSON values: how they are made, annotated, traced and read.

use crate::config::Config;
use crate::json::{opt_str, trees, Json, JsonTree};
use crate::state::{OptionsModel, TaskOptions};
use crate::text::{decode_lossy, join, joined, lossy_text, same_text, trim, trimmed, views};
use vstd::prelude::*;
use vstd::string::*;

verus! {

/// The artifact with one text.
pub open spec fn text_artifact(text: Seq<char>) -> JsonTree {
    JsonTree::object().with(
        "parts"@,
        JsonTree::Array(
            seq![
                JsonTree::object().with("type"@, JsonTree::Text("text"@)).with(
                    "text"@,
                    JsonTree::Text(text),
                ),
            ],
        ),
    ).with("index"@, JsonTree::Integer(0))
}

/// The artifact with one text.
fn text_artifact_json(text: &str) -> (json: Json)
    ensures
        json@ == text_artifact(text@),
{
    Json::object().with(
        "parts",
        Json::single(
            Json::object().with("type", Json::text("text")).with("text", Json::text(text)),
        ),
    ).with("index", Json::Unsigned(0))
}

/// A task in a state, with one text.
pub open spec fn task_tree(
    task_id: Seq<char>,
    state: Seq<char>,
    text: Seq<char>,
    context_id: Seq<char>,
) -> JsonTree {
    JsonTree::object().with("id"@, JsonTree::Text(task_id)).with(
        "contextId"@,
        JsonTree::Text(context_id),
    ).with("status"@, JsonTree::object().with("state"@, JsonTree::Text(state))).with(
        "artifacts"@,
        JsonTree::Array(seq![text_artifact(text)]),
    )
}

/// A task in a state, with one text.
pub fn task_result(task_id: &str, state: &str, text: &str, context_id: &str) -> (task: Json)
    ensures
        task@ == task_tree(task_id@, state@, text@, context_id@),
{
    Json::object().with("id", Json::text(task_id)).with("contextId", Json::text(context_id)).with(
        "status",
        Json::object().with("state", Json::text(state)),
    ).with("artifacts", Json::single(text_artifact_json(text)))
}

/// A task that has been taken on.
pub open spec fn submitted_tree(task_id: Seq<char>, context_id: Seq<char>) -> JsonTree {
    task_tree(task_id, "working"@, "(processing - poll with tasks/get)"@, context_id)
}

/// What a task says of the options that it ran with.
pub open spec fn options_tree(options: OptionsModel) -> JsonTree {
    JsonTree::object().with("writeEnabled"@, JsonTree::Bool(options.write_enabled)).with(
        "sandboxMode"@,
        JsonTree::Text(options.sandbox_mode),
    ).with("workingDirectory"@, JsonTree::Text(options.working_directory))
}

/// What a task says of the options that it ran with.
fn options_json(options: &TaskOptions) -> (json: Json)
    ensures
        json@ == options_tree(options@),
{
    Json::object().with("writeEnabled", Json::Bool(options.write_enabled)).with(
        "sandboxMode",
        Json::text(options.sandbox_mode.as_str()),
    ).with("workingDirectory", Json::text(options.working_directory.as_str()))
}

/// The artifact with the git trace.
pub open spec fn trace_artifact(trace: JsonTree) -> JsonTree {
    JsonTree::object().with(
        "parts"@,
        JsonTree::Array(
            seq![
                JsonTree::object().with("type"@, JsonTree::Text("data"@)).with("data"@, trace),
            ],
        ),
    ).with("index"@, JsonTree::Integer(1))
}

/// A task that has run: where it could write, with the git trace.
pub open spec fn traced_tree(
    task_id: Seq<char>,
    state: Seq<char>,
    text: Seq<char>,
    context_id: Seq<char>,
    options: OptionsModel,
    trace: JsonTree,
) -> JsonTree {
    if options.write_enabled {
        JsonTree::object().with("id"@, JsonTree::Text(task_id)).with(
            "contextId"@,
            JsonTree::Text(context_id),
        ).with("status"@, JsonTree::object().with("state"@, JsonTree::Text(state))).with(
            "artifacts"@,
            JsonTree::Array(seq![text_artifact(text), trace_artifact(trace)]),
        ).with("metadata"@, options_tree(options))
    } else {
        task_tree(task_id, state, text, context_id).with("metadata"@, options_tree(options))
    }
}

/// A task that has run. The trace is used where the task could write.
pub fn task_result_with_trace(
    task_id: &str,
    state: &str,
    text: &str,
    context_id: &str,
    options: &TaskOptions,
    trace: Json,
) -> (task: Json)
    ensures
        task@ == traced_tree(task_id@, state@, text@, context_id@, options@, trace@),
{
    if !options.write_enabled {
        return task_result(task_id, state, text, context_id).with("metadata", options_json(options));
    }
    let trace_json = Json::object().with(
        "parts",
        Json::single(Json::object().with("type", Json::text("data")).with("data", trace)),
    ).with("index", Json::Unsigned(1));
    Json::object().with("id", Json::text(task_id)).with("contextId", Json::text(context_id)).with(
        "status",
        Json::object().with("state", Json::text(state)),
    ).with("artifacts", Json::pair(text_artifact_json(text), trace_json)).with(
        "metadata",
        options_json(options),
    )
}

/// The git trace before a run.
pub open spec fn before_tree(options: OptionsModel, head: JsonTree, status: JsonTree) -> JsonTree {
    JsonTree::object().with("writeEnabled"@, JsonTree::Bool(options.write_enabled)).with(
        "sandboxMode"@,
        JsonTree::Text(options.sandbox_mode),
    ).with("workingDirectory"@, JsonTree::Text(options.working_directory)).with(
        "gitHeadBefore"@,
        head,
    ).with("gitStatusBefore"@, status)
}

/// The git trace before a run, from what git said of the head and the status.
pub fn trace_before(options: &TaskOptions, head: Json, status: Json) -> (trace: Json)
    ensures
        trace@ == before_tree(options@, head@, status@),
{
    Json::object().with("writeEnabled", Json::Bool(options.write_enabled)).with(
        "sandboxMode",
        Json::text(options.sandbox_mode.as_str()),
    ).with("workingDirectory", Json::text(options.working_directory.as_str())).with(
        "gitHeadBefore",
        head,
    ).with("gitStatusBefore", status)
}

/// The git trace of a run.
pub open spec fn after_tree(
    before: JsonTree,
    head: JsonTree,
    status: JsonTree,
    diff: JsonTree,
    diff_stat: JsonTree,
) -> JsonTree {
    JsonTree::object().with("before"@, before).with(
        "after"@,
        JsonTree::object().with("gitHeadAfter"@, head).with("gitStatusAfter"@, status).with(
            "gitDiffAfter"@,
            diff,
        ).with("gitDiffStatAfter"@, diff_stat),
    )
}

/// The git trace of a run, from the trace before it and what git said after it.
pub fn trace_after(before: Json, head: Json, status: Json, diff: Json, diff_stat: Json) -> (trace:
    Json)
    ensures
        trace@ == after_tree(before@, head@, status@, diff@, diff_stat@),
{
    Json::object().with("before", before).with(
        "after",
        Json::object().with("gitHeadAfter", head).with("gitStatusAfter", status).with(
            "gitDiffAfter",
            diff,
        ).with("gitDiffStatAfter", diff_stat),
    )
}

/// How a git command ended.
pub enum GitOutcome {
    /// It succeeded, with this output.
    Success(Vec<u8>),
    /// It failed, with this error output and exit code.
    Failure(Vec<u8>, Option<i32>),
    /// It could not be run.
    Error(String),
}

/// What a git command said that succeeded.
pub open spec fn output_tree(text: Seq<char>) -> JsonTree {
    JsonTree::Text(trimmed(text))
}

/// What a git command said that succeeded.
pub fn git_output(text: &str) -> (json: Json)
    ensures
        json@ == output_tree(text@),
{
    Json::Text(trim(text))
}

/// What a git command said that failed.
pub open spec fn failure_tree(text: Seq<char>, code: Option<i32>) -> JsonTree {
    JsonTree::object().with("error"@, JsonTree::Text(trimmed(text))).with(
        "exitCode"@,
        match code {
            Some(n) => JsonTree::Integer(n as int),
            None => JsonTree::Null,
        },
    )
}

/// What a git command said that failed.
pub fn git_failure(text: &str, code: Option<i32>) -> (json: Json)
    ensures
        json@ == failure_tree(text@, code),
{
    Json::object().with("error", Json::Text(trim(text))).with(
        "exitCode",
        match code {
            Some(n) => Json::Signed(n as i64),
            None => Json::Null,
        },
    )
}

/// What a git command said.
pub open spec fn capture_tree(outcome: GitOutcome) -> JsonTree {
    match outcome {
        GitOutcome::Success(stdout) => output_tree(lossy_text(stdout@)),
        GitOutcome::Failure(stderr, code) => failure_tree(lossy_text(stderr@), code),
        GitOutcome::Error(message) => JsonTree::object().with(
            "error"@,
            JsonTree::Text(message@),
        ),
    }
}

/// What a git command said: its output, or its error.
pub fn git_capture(outcome: &GitOutcome) -> (json: Json)
    ensures
        json@ == capture_tree(*outcome),
{
    match outcome {
        GitOutcome::Success(stdout) => git_output(decode_lossy(stdout.as_slice()).as_str()),
        GitOutcome::Failure(stderr, code) => git_failure(
            decode_lossy(stderr.as_slice()).as_str(),
            *code,
        ),
        GitOutcome::Error(message) => Json::object().with("error", Json::text(message.as_str())),
    }
}

/// A task can be annotated where it is an object, and its metadata, where there is any, is one.
pub open spec fn annotatable(task: JsonTree) -> bool {
    task is Object && (task.get("metadata"@) matches Some(metadata) ==> metadata is Object)
}

/// The metadata of a task.
pub open spec fn metadata_of(task: JsonTree) -> JsonTree {
    match task.get("metadata"@) {
        Some(metadata) => metadata,
        None => JsonTree::object(),
    }
}

/// The annotations in the metadata of a task: the time of creation stays, the time of the last
/// change is `now`.
pub open spec fn annotated_metadata(
    metadata: JsonTree,
    task_id: Seq<char>,
    context_id: Seq<char>,
    send_alias: bool,
    context_alias: bool,
    now: u64,
) -> JsonTree {
    let dated = if metadata.get("createdAt"@) is Some {
        metadata
    } else {
        metadata.with("createdAt"@, JsonTree::Integer(now as int))
    };
    dated.with("updatedAt"@, JsonTree::Integer(now as int)).with(
        "deprecatedTasksSendAliasUsed"@,
        JsonTree::Bool(send_alias),
    ).with("deprecatedSessionIdAliasUsed"@, JsonTree::Bool(context_alias)).with(
        "taskId"@,
        JsonTree::Text(task_id),
    ).with("contextId"@, JsonTree::Text(context_id))
}

/// A task with its annotations.
pub open spec fn annotated(
    task: JsonTree,
    task_id: Seq<char>,
    context_id: Seq<char>,
    send_alias: bool,
    context_alias: bool,
    now: u64,
) -> JsonTree {
    task.with(
        "metadata"@,
        annotated_metadata(
            metadata_of(task),
            task_id,
            context_id,
            send_alias,
            context_alias,
            now,
        ),
    )
}

/// Notes in a task's metadata when it was made and last changed, and by which names it was asked
/// for.
pub fn annotate_task(
    task: Json,
    task_id: &str,
    context_id: &str,
    send_alias: bool,
    context_alias: bool,
    now: u64,
) -> (result: Json)
    requires
        annotatable(task@),
    ensures
        result@ == annotated(task@, task_id@, context_id@, send_alias, context_alias, now),
{
    let metadata = match task.get("metadata") {
        Some(metadata) => metadata.clone(),
        None => Json::object(),
    };
    let known = match metadata.get("createdAt") {
        Some(_) => true,
        None => false,
    };
    let dated = if known {
        metadata
    } else {
        metadata.with("createdAt", Json::Unsigned(now))
    };
    let metadata = dated.with("updatedAt", Json::Unsigned(now)).with(
        "deprecatedTasksSendAliasUsed",
        Json::Bool(send_alias),
    ).with("deprecatedSessionIdAliasUsed", Json::Bool(context_alias)).with(
        "taskId",
        Json::text(task_id),
    ).with("contextId", Json::text(context_id));
    task.with("metadata", metadata)
}

/// The names of a task's fields differ from one another.
pub proof fn lemma_task_fields_differ()
    ensures
        "id"@ != "metadata"@,
        "contextId"@ != "metadata"@,
        "status"@ != "metadata"@,
        "artifacts"@ != "metadata"@,
        "id"@ != "status"@,
        "contextId"@ != "status"@,
        "artifacts"@ != "status"@,
        "id"@ != "contextId"@,
        "status"@ != "contextId"@,
        "artifacts"@ != "contextId"@,
        "contextId"@ != "id"@,
        "status"@ != "id"@,
        "artifacts"@ != "id"@,
        "metadata"@ != "id"@,
{
    reveal_strlit("id");
    reveal_strlit("contextId");
    reveal_strlit("status");
    reveal_strlit("artifacts");
    reveal_strlit("metadata");
    assert("id"@.len() == 2);
    assert("contextId"@.len() == 9 && "contextId"@[0] == 'c');
    assert("status"@.len() == 6);
    assert("artifacts"@.len() == 9 && "artifacts"@[0] == 'a');
    assert("metadata"@.len() == 8);
}

/// Tasks that are made here can be annotated.
pub proof fn lemma_tasks_annotatable(
    task_id: Seq<char>,
    state: Seq<char>,
    text: Seq<char>,
    context_id: Seq<char>,
    options: OptionsModel,
    trace: JsonTree,
)
    ensures
        annotatable(task_tree(task_id, state, text, context_id)),
        annotatable(traced_tree(task_id, state, text, context_id, options, trace)),
{
    lemma_task_fields_differ();
}

/// The name of the state that a task is in.
pub open spec fn state_of(task: JsonTree) -> Option<Seq<char>> {
    match task.get("status"@) {
        Some(status) => status.text_at("state"@),
        None => None,
    }
}

/// The name of the state that a task is in.
pub fn task_state(task: &Json) -> (state: Option<&str>)
    ensures
        opt_str(state) == state_of(task@),
{
    match task.get("status") {
        Some(status) => status.text_at("state"),
        None => None,
    }
}

/// A task is in the state.
pub open spec fn in_state(task: JsonTree, state: Seq<char>) -> bool {
    state_of(task) == Some(state)
}

/// Tells whether a task is in the state.
pub fn task_in_state(task: &Json, state: &str) -> (yes: bool)
    ensures
        yes == in_state(task@, state@),
{
    match task_state(task) {
        Some(name) => same_text(name, state),
        None => false,
    }
}

/// The states that a task does not leave.
pub open spec fn is_terminal(state: Seq<char>) -> bool {
    state == "completed"@ || state == "failed"@ || state == "canceled"@
}

/// Tells whether a task does not leave the state.
pub fn is_terminal_state(state: &str) -> (terminal: bool)
    ensures
        terminal == is_terminal(state@),
{
    same_text(state, "completed") || same_text(state, "failed") || same_text(state, "canceled")
}

/// A task is in a state that it does not leave.
pub open spec fn has_ended(task: JsonTree) -> bool {
    state_of(task) matches Some(state) && is_terminal(state)
}

/// When a task was last changed; where it does not say, at the beginning of time.
pub open spec fn updated_at(task: JsonTree) -> u64 {
    match task.get("metadata"@) {
        Some(metadata) => match metadata.u64_at("updatedAt"@) {
            Some(time) => time,
            None => 0,
        },
        None => 0,
    }
}

/// When a task was last changed.
pub fn task_updated_at(task: &Json) -> (time: u64)
    ensures
        time == updated_at(task@),
{
    match task.get("metadata") {
        Some(metadata) => match metadata.u64_at("updatedAt") {
            Some(time) => time,
            None => 0,
        },
        None => 0,
    }
}

/// The texts of the parts that have one.
pub open spec fn part_texts(parts: Seq<JsonTree>) -> Seq<Seq<char>>
    decreases parts.len(),
{
    if parts.len() == 0 {
        Seq::empty()
    } else {
        let earlier = part_texts(parts.drop_last());
        match parts.last().text_at("text"@) {
            Some(text) => earlier.push(text),
            None => earlier,
        }
    }
}

/// The text of a message: that of its parts, each on a line of its own.
pub open spec fn message_text(message: JsonTree) -> Seq<char> {
    match message.at("parts"@).as_array() {
        Some(parts) => joined(part_texts(parts), "\n"@),
        None => Seq::empty(),
    }
}

/// The text of a message.
pub fn extract_text(message: &Json) -> (text: String)
    ensures
        text@ == message_text(message@),
{
    let parts = match message.get("parts") {
        Some(value) => match value.as_array() {
            Some(parts) => parts,
            None => return String::new(),
        },
        None => return String::new(),
    };
    let ghost all = trees(parts@);
    let mut texts: Vec<String> = Vec::new();
    let mut i: usize = 0;
    assert(views(texts@) =~= part_texts(all.take(0)));
    while i < parts.len()
        invariant
            i <= parts.len(),
            all == trees(parts@),
            views(texts@) == part_texts(all.take(i as int)),
        decreases parts.len() - i,
    {
        proof {
            assert(all.take(i + 1).drop_last() =~= all.take(i as int));
            assert(all.take(i + 1).last() == parts@[i as int]@);
        }
        match parts[i].text_at("text") {
            Some(text) => {
                let owned = text.to_owned();
                let ghost earlier = texts@;
                texts.push(owned);
                assert(views(texts@) =~= views(earlier).push(owned@));
            },
            None => {},
        }
        i = i + 1;
    }
    assert(all.take(i as int) =~= all);
    join(&texts, "\n")
}

/// The options of a task that may only read.
pub open spec fn read_only_options(directory: Seq<char>) -> OptionsModel {
    OptionsModel {
        sandbox_mode: "read-only"@,
        working_directory: directory,
        write_enabled: false,
    }
}

/// The options of a task that may only read.
pub fn default_task_options(config: &Config) -> (options: TaskOptions)
    ensures
        options@ == read_only_options(config.default_working_directory@),
{
    TaskOptions {
        sandbox_mode: "read-only".to_owned(),
        working_directory: config.default_working_directory.clone(),
        write_enabled: false,
    }
}

/// What a request says of writing.
#[derive(Debug)]
pub enum WriteRequest {
    /// The task may only read.
    ReadOnly,
    /// The task would write, but names no directory.
    NoDirectory,
    /// The task would write in the directory.
    Directory(String),
}

/// The request wants to write.
pub open spec fn wants_write(params: JsonTree) -> bool {
    params.at("metadata"@).text_at("writeMode"@) == Some("workspace-write"@)
}

/// The directory that the request wants to write in.
pub open spec fn wanted_directory(params: JsonTree) -> Option<Seq<char>> {
    params.at("metadata"@).text_at("workingDirectory"@)
}

/// Reads what a request says of writing.
pub fn write_request(params: &Json) -> (request: WriteRequest)
    ensures
        match request {
            WriteRequest::ReadOnly => !wants_write(params@),
            WriteRequest::NoDirectory => wants_write(params@) && wanted_directory(params@) is None,
            WriteRequest::Directory(directory) => wants_write(params@) && wanted_directory(params@)
                == Some(directory@),
        },
{
    let metadata = params.at("metadata");
    let wanted = match metadata.text_at("writeMode") {
        Some(mode) => same_text(mode, "workspace-write"),
        None => false,
    };
    if !wanted {
        return WriteRequest::ReadOnly;
    }
    match metadata.text_at("workingDirectory") {
        Some(directory) => WriteRequest::Directory(directory.to_owned()),
        None => WriteRequest::NoDirectory,
    }
}

/// What git says is that a directory is inside a worktree.
pub open spec fn tells_worktree(success: bool, stdout: Seq<u8>) -> bool {
    success && trimmed(lossy_text(stdout)) == "true"@
}

/// Tells from what `git rev-parse --is-inside-work-tree` wrote whether a directory is inside a git
/// worktree. In a bare repository git succeeds too, and writes `false`.
pub fn inside_worktree(success: bool, stdout: &[u8]) -> (yes: bool)
    ensures
        yes == (success && trimmed(lossy_text(stdout@)) == "true"@),
        yes == tells_worktree(success, stdout@),
{
    success && says_true(decode_lossy(stdout).as_str())
}

/// Tells whether a text is the word `true`, but for white space around it.
pub fn says_true(text: &str) -> (yes: bool)
    ensures
        yes == (trimmed(text@) == "true"@),
{
    same_text(trim(text).as_str(), "true")
}

/// A path as its components, outermost first.
pub struct PathParts {
    pub parts: Vec<Vec<u8>>,
}

/// One path is inside another where it starts with its components.
pub open spec fn is_inside(path: PathParts, root: PathParts) -> bool {
    &&& root.parts.len() <= path.parts.len()
    &&& forall|i: int|
        0 <= i < root.parts.len() ==> (#[trigger] root.parts@[i])@ == path.parts@[i]@
}

/// A path is inside one of the roots that exist.
pub open spec fn inside_roots(path: PathParts, roots: Seq<Option<PathParts>>) -> bool {
    exists|i: int|
        0 <= i < roots.len() && (#[trigger] roots[i]) is Some && is_inside(path, roots[i]->0)
}

/// Tells whether two runs of bytes are the same.
fn same_bytes(a: &Vec<u8>, b: &Vec<u8>) -> (same: bool)
    ensures
        same == (a@ == b@),
{
    if a.len() != b.len() {
        return false;
    }
    let mut i: usize = 0;
    while i < a.len()
        invariant
            i <= a.len() == b.len(),
            forall|j: int| 0 <= j < i ==> a@[j] == b@[j],
        decreases a.len() - i,
    {
        if a[i] != b[i] {
            return false;
        }
        i = i + 1;
    }
    assert(a@ =~= b@);
    true
}

/// Tells whether one path is inside another.
pub fn path_inside(path: &PathParts, root: &PathParts) -> (inside: bool)
    ensures
        inside == is_inside(*path, *root),
{
    if root.parts.len() > path.parts.len() {
        return false;
    }
    let mut i: usize = 0;
    while i < root.parts.len()
        invariant
            i <= root.parts.len() <= path.parts.len(),
            forall|j: int| 0 <= j < i ==> (#[trigger] root.parts@[j])@ == path.parts@[j]@,
        decreases root.parts.len() - i,
    {
        if !same_bytes(&root.parts[i], &path.parts[i]) {
            assert(root.parts@[i as int]@ != path.parts@[i as int]@);
            return false;
        }
        i = i + 1;
    }
    true
}

/// Tells whether a path is inside one of the roots. A root that does not exist is `None`.
pub fn write_root_allowed(path: &PathParts, roots: &Vec<Option<PathParts>>) -> (allowed: bool)
    ensures
        allowed == inside_roots(*path, roots@),
{
    let mut i: usize = 0;
    while i < roots.len()
        invariant
            i <= roots.len(),
            forall|j: int|
                0 <= j < i ==> !((#[trigger] roots@[j]) is Some && is_inside(*path, roots@[j]->0)),
        decreases roots.len() - i,
    {
        match &roots[i] {
            Some(root) => {
                if path_inside(path, root) {
                    assert(roots@[i as int] is Some && is_inside(*path, roots@[i as int]->0));
                    return true;
                }
            },
            None => {},
        }
        i = i + 1;
    }
    false
}

/// What the disk says of a directory: its resolved path, the resolved roots, and whether it is
/// inside a git worktree.
pub struct Directory {
    pub path: String,
    pub parts: PathParts,
    pub roots: Vec<Option<PathParts>>,
    pub in_git: bool,
}

/// The options of a task that may write.
pub open spec fn write_options(directory: Seq<char>) -> OptionsModel {
    OptionsModel {
        sandbox_mode: "workspace-write"@,
        working_directory: directory,
        write_enabled: true,
    }
}

/// The options of the task that a request asks for, or what is wrong with the request. A
/// directory that does not exist is `None`.
pub open spec fn options_for(
    params: JsonTree,
    default_directory: Seq<char>,
    directory: Option<Directory>,
) -> Result<OptionsModel, Seq<char>> {
    if !wants_write(params) {
        Ok(read_only_options(default_directory))
    } else {
        match wanted_directory(params) {
            None => Err("writeMode requires metadata.workingDirectory"@),
            Some(wanted) => match directory {
                None => Err("workingDirectory does not exist: "@ + wanted),
                Some(found) => if !inside_roots(found.parts, found.roots@) {
                    Err("workingDirectory is outside configured write_roots: "@ + found.path@)
                } else if !found.in_git {
                    Err(
                        "workingDirectory must be inside a git repo for traceable writes: "@
                            + found.path@,
                    )
                } else {
                    Ok(write_options(found.path@))
                },
            },
        }
    }
}

/// The views of options or of an error.
pub open spec fn options_view(options: Result<TaskOptions, String>) -> Result<
    OptionsModel,
    Seq<char>,
> {
    match options {
        Ok(o) => Ok(o@),
        Err(e) => Err(e@),
    }
}

/// The options of the task that a request asks for. What the disk says of the directory counts
/// only where the request wants to write in one.
pub fn task_options(params: &Json, config: &Config, directory: &Option<Directory>) -> (options:
    Result<TaskOptions, String>)
    ensures
        options_view(options) == options_for(
            params@,
            config.default_working_directory@,
            *directory,
        ),
{
    match write_request(params) {
        WriteRequest::ReadOnly => Ok(default_task_options(config)),
        WriteRequest::NoDirectory => Err(
            "writeMode requires metadata.workingDirectory".to_owned(),
        ),
        WriteRequest::Directory(wanted) => match directory {
            None => {
                let mut message = "workingDirectory does not exist: ".to_owned();
                message.append(wanted.as_str());
                Err(message)
            },
            Some(found) => {
                if !write_root_allowed(&found.parts, &found.roots) {
                    let mut message =
                        "workingDirectory is outside configured write_roots: ".to_owned();
                    message.append(found.path.as_str());
                    return Err(message);
                }
                if !found.in_git {
                    let mut message =
                        "workingDirectory must be inside a git repo for traceable writes: ".to_owned();
                    message.append(found.path.as_str());
                    return Err(message);
                }
                Ok(
                    TaskOptions {
                        sandbox_mode: "workspace-write".to_owned(),
                        working_directory: found.path.clone(),
                        write_enabled: true,
                    },
                )
            },
        },
    }
}

/// A task may write only where its request says so and names a directory that exists, lies inside
/// a configured root and is inside a git worktree; it then writes in that directory.
pub proof fn law_writes_are_confined(
    params: JsonTree,
    default_directory: Seq<char>,
    directory: Option<Directory>,
)
    ensures
        options_for(params, default_directory, directory) matches Ok(options) ==> {
            if options.write_enabled {
                &&& wants_write(params)
                &&& wanted_directory(params) is Some
                &&& directory matches Some(found)
                &&& inside_roots(found.parts, found.roots@)
                &&& found.in_git
                &&& options.working_directory == found.path@
                &&& options.sandbox_mode == "workspace-write"@
            } else {
                &&& !wants_write(params)
                &&& options.working_directory == default_directory
                &&& options.sandbox_mode == "read-only"@
            }
        },
{
}

/// Without roots no request may write.
pub proof fn law_no_roots_no_writes(
    params: JsonTree,
    default_directory: Seq<char>,
    directory: Option<Directory>,
)
    requires
        directory matches Some(found) ==> found.roots.len() == 0,
    ensures
        options_for(params, default_directory, directory) matches Ok(options)
            ==> !options.write_enabled,
{
}

} // verus!
