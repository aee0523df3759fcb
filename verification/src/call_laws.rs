//! What the answer to each call says, and what it leaves behind, in terms of what the call asked.

use crate::backend::SummaryModel;
use crate::config::{BackendKind, Config};
use crate::json::JsonTree;
use crate::laws::{law_listed_newest_first, lemma_lookup_put, lemma_lookup_without};
use crate::names::{lemma_field_names, lemma_method_names};
use crate::order::newest_first;
use crate::registry::{lookup, put, without};
use crate::rpc::{answered, call_directory, CallModel};
use crate::send::{bound_session, resumed_id, wanted_id, wanted_session};
use crate::service::{context_key, stamped, Moment, ReplyModel, RunModel};
use crate::sessions::{backend_limit, binding_tree, first_items, law_newest_are_chosen};
use crate::state::{ContextModel, Model, OptionsModel};
use crate::task::{
    annotated, in_state, message_text, options_for, part_texts, task_tree, updated_at, Directory,
};
use crate::tasks::{belongs, listed};
use crate::text::trimmed;
use vstd::prelude::*;
use vstd::seq_lib::*;

verus! {

/// What the artifact at a place of a task says.
pub open spec fn artifact_text(task: JsonTree, place: int) -> Option<Seq<char>> {
    match task.at("artifacts"@) {
        JsonTree::Array(artifacts) => match artifacts[place].at("parts"@) {
            JsonTree::Array(parts) => if parts.len() == 1 && parts[0].text_at("type"@) == Some(
                "text"@,
            ) && artifacts[place].u64_at("index"@) == Some(place as u64) {
                parts[0].text_at("text"@)
            } else {
                None
            },
            _ => None,
        },
        _ => None,
    }
}

/// The number of artifacts of a task.
pub open spec fn artifact_count(task: JsonTree) -> int {
    match task.at("artifacts"@) {
        JsonTree::Array(artifacts) => artifacts.len() as int,
        _ => -1,
    }
}

/// The texts of parts of which none has one.
proof fn lemma_no_texts(parts: Seq<JsonTree>)
    ensures
        part_texts(parts).len() == 0 <==> forall|i: int|
            0 <= i < parts.len() ==> (#[trigger] parts[i]).text_at("text"@) is None,
    decreases parts.len(),
{
    if parts.len() > 0 {
        let rest = parts.drop_last();
        lemma_no_texts(rest);
        if part_texts(parts).len() == 0 {
            assert forall|i: int| 0 <= i < parts.len() implies (#[trigger] parts[i]).text_at(
                "text"@,
            ) is None by {
                if i < rest.len() {
                    assert(rest[i] == parts[i]);
                }
            }
        } else if forall|i: int|
            0 <= i < parts.len() ==> (#[trigger] parts[i]).text_at("text"@) is None {
            assert(parts[parts.len() - 1].text_at("text"@) is None);
            assert forall|i: int| 0 <= i < rest.len() implies (#[trigger] rest[i]).text_at(
                "text"@,
            ) is None by {
                assert(rest[i] == parts[i]);
            }
        }
    }
}

/// The text of a message is that of its parts, each on a line of its own: a part more adds its text
/// on a new line, or as the first line where there was no text before, and a part without a text
/// adds nothing.
pub proof fn law_messages_say_what_their_parts_say(
    message: JsonTree,
    longer: JsonTree,
    parts: Seq<JsonTree>,
    part: JsonTree,
)
    requires
        message.at("parts"@) == JsonTree::Array(parts),
        longer.at("parts"@) == JsonTree::Array(parts.push(part)),
    ensures
        parts.len() == 0 ==> message_text(message).len() == 0,
        message_text(JsonTree::object()).len() == 0,
        part.text_at("text"@) is None ==> message_text(longer) == message_text(message),
        part.text_at("text"@) matches Some(text) ==> message_text(longer) == (if forall|i: int|
            0 <= i < parts.len() ==> (#[trigger] parts[i]).text_at("text"@) is None {
            text
        } else {
            message_text(message) + "\n"@ + text
        }),
{
    lemma_no_texts(parts);
    assert(parts.push(part).drop_last() =~= parts);
    let earlier = part_texts(parts);
    match part.text_at("text"@) {
        Some(text) => {
            assert(part_texts(parts.push(part)) == earlier.push(text));
            assert(earlier.push(text).drop_last() =~= earlier);
            assert(earlier.push(text).last() == text);
        },
        None => {},
    }
}

/// A directory lies in a root that exists: its path begins with that of the root.
pub open spec fn lies_in_a_root(directory: Directory) -> bool {
    exists|i: int|
        0 <= i < directory.roots.len() && (#[trigger] directory.roots@[i]) is Some && {
            let root = directory.roots@[i]->0;
            &&& root.parts.len() <= directory.parts.parts.len()
            &&& forall|k: int|
                0 <= k < root.parts.len() ==> (#[trigger] root.parts@[k])@
                    == directory.parts.parts@[k]@
        }
}

/// What a request is granted: to write in its directory where it asks for that and the directory
/// exists, lies in a root and is in a git worktree; only to read, in the default directory, where
/// it does not ask to write; and nothing where it asks to write and may not, with the reason.
pub proof fn law_requests_are_granted_what_they_may(
    params: JsonTree,
    default_directory: Seq<char>,
    directory: Option<Directory>,
)
    ensures
        ({
            let granted = options_for(params, default_directory, directory);
            let metadata = params.at("metadata"@);
            if metadata.text_at("writeMode"@) != Some("workspace-write"@) {
                &&& granted matches Ok(options)
                &&& !options.write_enabled
                &&& options.sandbox_mode == "read-only"@
                &&& options.working_directory == default_directory
            } else {
                match (metadata.text_at("workingDirectory"@), directory) {
                    (None, _) => granted == Err::<OptionsModel, Seq<char>>(
                        "writeMode requires metadata.workingDirectory"@,
                    ),
                    (Some(wanted), None) => granted == Err::<OptionsModel, Seq<char>>(
                        "workingDirectory does not exist: "@ + wanted,
                    ),
                    (Some(_), Some(found)) => if !lies_in_a_root(found) {
                        granted == Err::<OptionsModel, Seq<char>>(
                            "workingDirectory is outside configured write_roots: "@ + found.path@,
                        )
                    } else if !found.in_git {
                        granted == Err::<OptionsModel, Seq<char>>(
                            "workingDirectory must be inside a git repo for traceable writes: "@
                                + found.path@,
                        )
                    } else {
                        &&& granted matches Ok(options)
                        &&& options.write_enabled
                        &&& options.sandbox_mode == "workspace-write"@
                        &&& options.working_directory == found.path@
                    },
                }
            }
        }),
{
}

/// How a message names its task: by its own name, or else by that of the message; a message without
/// one gets a new name.
pub proof fn law_messages_name_their_tasks(params: JsonTree, moment: Moment)
    ensures
        params.text_at("id"@) matches Some(id) ==> wanted_id(params, moment) == id
            && resumed_id(params, moment) == id,
        params.text_at("id"@) is None ==> (params.at("message"@).text_at("messageId"@) matches Some(
            id,
        ) ==> wanted_id(params, moment) == id),
        params.text_at("id"@) is None && params.at("message"@).text_at("messageId"@) is None
            ==> wanted_id(params, moment) == stamped("task-"@, moment.nanos, moment.seq),
        params.text_at("id"@) is None ==> resumed_id(params, moment) == stamped(
            "task-"@,
            moment.nanos,
            moment.seq,
        ),
{
}

/// How a request names its context: by `contextId`, or else by the old name `sessionId`, which is
/// noted.
pub proof fn law_requests_name_their_contexts(
    params: JsonTree,
    contexts: Set<Seq<char>>,
    moment: Moment,
)
    ensures
        params.text_at("contextId"@) matches Some(context_id) ==> context_key(
            params,
            contexts,
            moment,
        ) == (context_id, false),
        params.text_at("contextId"@) is None ==> (params.text_at("sessionId"@) matches Some(
            context_id,
        ) ==> context_key(params, contexts, moment) == (context_id, true)),
        params.text_at("contextId"@) is None && params.text_at("sessionId"@) is None
            ==> !context_key(params, contexts, moment).1,
{
}

/// How a request names the session that its context is to go on with.
pub proof fn law_requests_name_their_sessions(params: JsonTree)
    ensures
        params.at("metadata"@).get("resumeSessionId"@) matches Some(session) ==> wanted_session(
            params,
        ) == session.as_text(),
        params.at("metadata"@).get("resumeSessionId"@) is None ==> wanted_session(params)
            == params.text_at("resumeSessionId"@),
        params.get("resumeSessionId"@) matches Some(session) ==> bound_session(params)
            == session.as_text(),
        params.get("resumeSessionId"@) is None ==> bound_session(params) == params.text_at(
            "codexSessionId"@,
        ),
{
}

/// A task is known where one with its name is kept or runs, and the session of a context is that of
/// its record; the tasks that are worked on are those in the state `working`.
pub proof fn law_the_registries_are_what_is_known(model: Model, name: Seq<char>)
    ensures
        model.knows(name) <==> lookup(model.tasks, name) is Some || lookup(
            model.running,
            name,
        ) is Some,
        model.session_of(name) == (match lookup(model.sessions, name) {
            Some(record) => Some(record.codex_session_id),
            None => None,
        }),
        model.canceled(name) <==> (lookup(model.tasks, name) matches Some(task) && task.at(
            "status"@,
        ).text_at("state"@) == Some("canceled"@)),
        model.working() == model.tasks.filter(
            |e: (Seq<char>, JsonTree)|
                e.1.at("status"@).text_at("state"@) == Some("working"@),
        ).len(),
{
    let one = |e: (Seq<char>, JsonTree)|
        e.1.at("status"@).text_at("state"@) == Some("working"@);
    let other = |e: (Seq<char>, JsonTree)| in_state(e.1, "working"@);
    assert(one =~= other);
}

/// A task says what it is: its name and its context, its state, the one text of its first
/// artifact, and in its metadata when it was made and by which names it was asked for.
pub open spec fn task_says(
    task: JsonTree,
    task_id: Seq<char>,
    context_id: Seq<char>,
    state: Seq<char>,
    text: Seq<char>,
    send_alias: bool,
    context_alias: bool,
    now: u64,
) -> bool {
    &&& task.text_at("id"@) == Some(task_id)
    &&& task.text_at("contextId"@) == Some(context_id)
    &&& task.at("status"@).text_at("state"@) == Some(state)
    &&& artifact_count(task) == 1
    &&& artifact_text(task, 0) == Some(text)
    &&& task.at("metadata"@).text_at("taskId"@) == Some(task_id)
    &&& task.at("metadata"@).text_at("contextId"@) == Some(context_id)
    &&& task.at("metadata"@).u64_at("createdAt"@) == Some(now)
    &&& task.at("metadata"@).u64_at("updatedAt"@) == Some(now)
    &&& task.at("metadata"@).get("deprecatedTasksSendAliasUsed"@) == Some(
        JsonTree::Bool(send_alias),
    )
    &&& task.at("metadata"@).get("deprecatedSessionIdAliasUsed"@) == Some(
        JsonTree::Bool(context_alias),
    )
}

/// The answer to a call is the task that is kept under the name, and nothing else changed among the
/// tasks.
pub open spec fn keeps_and_answers(
    before: Model,
    after: Model,
    reply: ReplyModel,
    task_id: Seq<char>,
) -> bool {
    &&& lookup(after.tasks, task_id) is Some
    &&& reply.status == 200
    &&& reply.payload.get("error"@) is None
    &&& reply.payload.get("result"@) == lookup(after.tasks, task_id)
    &&& reply.save_tasks
    &&& after.running == before.running
    &&& forall|other: Seq<char>|
        other != task_id ==> #[trigger] lookup(after.tasks, other) == lookup(before.tasks, other)
}

/// The call is refused with the error, and no task changes.
pub open spec fn refuses(
    before: Model,
    after: Model,
    reply: ReplyModel,
    code: int,
    message: Seq<char>,
) -> bool {
    &&& after.tasks == before.tasks
    &&& after.running == before.running
    &&& reply.payload.get("result"@) is None
    &&& reply.payload.at("error"@).get("code"@) == Some(JsonTree::Integer(code))
    &&& reply.payload.at("error"@).text_at("message"@) == Some(message)
    &&& reply.start is None
    &&& reply.cancel is None
    &&& !reply.save_tasks
}

/// The method sends a message: `message/send`, or by its old name `tasks/send`.
pub open spec fn is_send(method: Seq<char>) -> bool {
    method == "message/send"@ || method == "tasks/send"@
}

/// What a task that is made here says.
proof fn lemma_task_says(
    task_id: Seq<char>,
    context_id: Seq<char>,
    state: Seq<char>,
    text: Seq<char>,
    send_alias: bool,
    context_alias: bool,
    now: u64,
)
    ensures
        task_says(
            annotated(
                task_tree(task_id, state, text, context_id),
                task_id,
                context_id,
                send_alias,
                context_alias,
                now,
            ),
            task_id,
            context_id,
            state,
            text,
            send_alias,
            context_alias,
            now,
        ),
{
    lemma_field_names();
}

/// A message that is sent, has something to say, is granted what it asks for and finds the server
/// not busy is taken on: a run is started with its text and with the options that it is granted,
/// and a task in the state `working` is kept and answered with.
pub proof fn law_messages_are_taken_on(
    config: Config,
    model: Model,
    call: CallModel,
    moment: Moment,
    directory: Option<Directory>,
    local: Seq<SummaryModel>,
    options: OptionsModel,
)
    requires
        model.wf(),
        is_send(call.method),
        lookup(model.tasks, wanted_id(call.params, moment)) is None,
        lookup(model.running, wanted_id(call.params, moment)) is None,
        options_for(call.params, config.default_working_directory@, directory) == Ok::<
            OptionsModel,
            Seq<char>,
        >(options),
        trimmed(message_text(call.params.at("message"@))).len() > 0,
        model.working() < config.max_concurrent_tasks,
    ensures
        ({
            let (after, reply) = answered(config, model, call, moment, directory, local);
            let task_id = wanted_id(call.params, moment);
            let (context_id, alias) = context_key(call.params, model.contexts_in_use(), moment);
            &&& keeps_and_answers(model, after, reply, task_id)
            &&& task_says(
                lookup(after.tasks, task_id)->0,
                task_id,
                context_id,
                "working"@,
                "(processing - poll with tasks/get)"@,
                call.method == "tasks/send"@,
                alias,
                moment.now,
            )
            &&& reply.start == Some(
                RunModel {
                    task_id,
                    context_id,
                    text: message_text(call.params.at("message"@)),
                    options,
                    send_alias: call.method == "tasks/send"@,
                    context_alias: alias,
                },
            )
            &&& reply.cancel is None
        }),
{
    lemma_method_names();
    lemma_field_names();
    let task_id = wanted_id(call.params, moment);
    assert forall|value: JsonTree, key: Seq<char>| #[trigger] lookup(
        put(model.tasks, task_id, value),
        key,
    ) == (if key == task_id {
        Some(value)
    } else {
        lookup(model.tasks, key)
    }) by {
        lemma_lookup_put(model.tasks, task_id, value, key);
    }
    let (context_id, alias) = context_key(call.params, model.contexts_in_use(), moment);
    lemma_task_says(
        task_id,
        context_id,
        "working"@,
        "(processing - poll with tasks/get)"@,
        call.method == "tasks/send"@,
        alias,
        moment.now,
    );
}

/// A message that may not write as it asks to, or has nothing to say, is answered with a task that
/// has failed and says why; no run is started.
pub proof fn law_messages_that_cannot_run_fail(
    config: Config,
    model: Model,
    call: CallModel,
    moment: Moment,
    directory: Option<Directory>,
    local: Seq<SummaryModel>,
    reason: Seq<char>,
)
    requires
        model.wf(),
        is_send(call.method),
        lookup(model.tasks, wanted_id(call.params, moment)) is None,
        lookup(model.running, wanted_id(call.params, moment)) is None,
        match options_for(call.params, config.default_working_directory@, directory) {
            Err(message) => reason == message,
            Ok(_) => trimmed(message_text(call.params.at("message"@))).len() == 0 && reason
                == "Empty message"@,
        },
    ensures
        ({
            let (after, reply) = answered(config, model, call, moment, directory, local);
            let task_id = wanted_id(call.params, moment);
            let (context_id, alias) = context_key(call.params, model.contexts_in_use(), moment);
            &&& keeps_and_answers(model, after, reply, task_id)
            &&& task_says(
                lookup(after.tasks, task_id)->0,
                task_id,
                context_id,
                "failed"@,
                reason,
                call.method == "tasks/send"@,
                alias,
                moment.now,
            )
            &&& reply.start is None
            &&& reply.cancel is None
        }),
{
    lemma_method_names();
    lemma_field_names();
    let task_id = wanted_id(call.params, moment);
    assert forall|value: JsonTree, key: Seq<char>| #[trigger] lookup(
        put(model.tasks, task_id, value),
        key,
    ) == (if key == task_id {
        Some(value)
    } else {
        lookup(model.tasks, key)
    }) by {
        lemma_lookup_put(model.tasks, task_id, value, key);
    }
    let (context_id, alias) = context_key(call.params, model.contexts_in_use(), moment);
    lemma_task_says(
        task_id,
        context_id,
        "failed"@,
        reason,
        call.method == "tasks/send"@,
        alias,
        moment.now,
    );
}

/// A message under the name of a task that is kept or runs is refused, and so is one that a busy
/// server would have to run. The first changes nothing at all.
pub proof fn law_messages_are_refused(
    config: Config,
    model: Model,
    call: CallModel,
    moment: Moment,
    directory: Option<Directory>,
    local: Seq<SummaryModel>,
)
    requires
        is_send(call.method),
    ensures
        ({
            let (after, reply) = answered(config, model, call, moment, directory, local);
            let task_id = wanted_id(call.params, moment);
            if lookup(model.tasks, task_id) is Some || lookup(model.running, task_id) is Some {
                &&& after == model
                &&& refuses(model, after, reply, -32602, "Duplicate task id: "@ + task_id)
            } else {
                (options_for(call.params, config.default_working_directory@, directory) is Ok
                    && trimmed(message_text(call.params.at("message"@))).len() > 0
                    && model.working() >= config.max_concurrent_tasks) ==> refuses(
                    model,
                    after,
                    reply,
                    -32004,
                    "Server busy"@,
                )
            }
        }),
{
    lemma_method_names();
    lemma_field_names();
}

/// The record of a context bound to the session: it says which backend and what bound it, and it
/// keeps the time of its making.
pub open spec fn is_bound(
    config: Config,
    before: Model,
    after: Model,
    context_id: Seq<char>,
    session: Seq<char>,
    source: Seq<char>,
    now: u64,
) -> bool {
    &&& lookup(after.sessions, context_id) matches Some(record)
    &&& record.codex_session_id == session
    &&& record.updated_at == now
    &&& record.created_at == (match lookup(before.sessions, context_id) {
        Some(earlier) => earlier.created_at,
        None => now,
    })
    &&& record.backend_kind == (match config.backend {
        BackendKind::Cli => "codex-cli"@,
        BackendKind::Native => "codex-native"@,
    })
    &&& record.resume_source == source
    &&& forall|other: Seq<char>|
        other != context_id ==> #[trigger] lookup(after.sessions, other) == lookup(
            before.sessions,
            other,
        )
}

/// A message binds its context to the session that it names, unless it is refused for its name, and
/// the contexts are then saved; a message that names none binds nothing.
pub proof fn law_messages_bind_contexts(
    config: Config,
    model: Model,
    call: CallModel,
    moment: Moment,
    directory: Option<Directory>,
    local: Seq<SummaryModel>,
)
    requires
        model.wf(),
        is_send(call.method),
        lookup(model.tasks, wanted_id(call.params, moment)) is None,
        lookup(model.running, wanted_id(call.params, moment)) is None,
    ensures
        ({
            let (after, reply) = answered(config, model, call, moment, directory, local);
            let (context_id, alias) = context_key(call.params, model.contexts_in_use(), moment);
            &&& reply.save_contexts == wanted_session(call.params) is Some
            &&& match wanted_session(call.params) {
                Some(session) => is_bound(
                    config,
                    model,
                    after,
                    context_id,
                    session,
                    if alias {
                        "deprecated-sessionId-alias"@
                    } else {
                        "message-send"@
                    },
                    moment.now,
                ),
                None => after.sessions == model.sessions,
            }
        }),
{
    lemma_method_names();
    let context_id = context_key(call.params, model.contexts_in_use(), moment).0;
    assert forall|value: ContextModel, key: Seq<char>| #[trigger] lookup(
        put(model.sessions, context_id, value),
        key,
    ) == (if key == context_id {
        Some(value)
    } else {
        lookup(model.sessions, key)
    }) by {
        lemma_lookup_put(model.sessions, context_id, value, key);
    }
}

/// `sessions/resume` binds its context to the session that it names, whatever becomes of its
/// message; one that names no session is refused and changes nothing.
pub proof fn law_resuming_binds_contexts(
    config: Config,
    model: Model,
    call: CallModel,
    moment: Moment,
    directory: Option<Directory>,
    local: Seq<SummaryModel>,
)
    requires
        model.wf(),
        call.method == "sessions/resume"@,
    ensures
        ({
            let (after, reply) = answered(config, model, call, moment, directory, local);
            let (context_id, alias) = context_key(call.params, model.contexts_in_use(), moment);
            match bound_session(call.params) {
                Some(session) => reply.save_contexts && is_bound(
                    config,
                    model,
                    after,
                    context_id,
                    session,
                    if alias {
                        "deprecated-sessionId-alias"@
                    } else {
                        "sessions-resume"@
                    },
                    moment.now,
                ),
                None => after == model && refuses(
                    model,
                    after,
                    reply,
                    -32602,
                    "Missing resumeSessionId"@,
                ) && !reply.save_contexts,
            }
        }),
{
    lemma_method_names();
    lemma_field_names();
    let context_id = context_key(call.params, model.contexts_in_use(), moment).0;
    assert forall|value: ContextModel, key: Seq<char>| #[trigger] lookup(
        put(model.sessions, context_id, value),
        key,
    ) == (if key == context_id {
        Some(value)
    } else {
        lookup(model.sessions, key)
    }) by {
        lemma_lookup_put(model.sessions, context_id, value, key);
    }
}

/// `sessions/resume` without a message says what was bound, and starts nothing.
pub proof fn law_resuming_alone_says_what_is_bound(
    config: Config,
    model: Model,
    call: CallModel,
    moment: Moment,
    directory: Option<Directory>,
    local: Seq<SummaryModel>,
    session: Seq<char>,
)
    requires
        call.method == "sessions/resume"@,
        bound_session(call.params) == Some(session),
        trimmed(message_text(call.params.at("message"@))).len() == 0,
    ensures
        ({
            let (after, reply) = answered(config, model, call, moment, directory, local);
            let (context_id, alias) = context_key(call.params, model.contexts_in_use(), moment);
            &&& after.tasks == model.tasks
            &&& after.running == model.running
            &&& reply.start is None
            &&& reply.cancel is None
            &&& !reply.save_tasks
            &&& reply.payload.get("error"@) is None
            &&& reply.payload.at("result"@).text_at("contextId"@) == Some(context_id)
            &&& reply.payload.at("result"@).text_at("resumeSessionId"@) == Some(session)
            &&& reply.payload.at("result"@).text_at("status"@) == Some("bound"@)
            &&& reply.payload.at("result"@).at("metadata"@).get("deprecatedSessionIdAliasUsed"@)
                == Some(JsonTree::Bool(alias))
        }),
{
    lemma_method_names();
    lemma_field_names();
}

/// `sessions/resume` with a message goes on with the session as a task: where it is granted what it
/// asks for and the server is not busy, a run is started with its text and the options that it is
/// granted; where it may not write as it asks to, the task has failed and says why.
pub proof fn law_resuming_goes_on_with_a_task(
    config: Config,
    model: Model,
    call: CallModel,
    moment: Moment,
    directory: Option<Directory>,
    local: Seq<SummaryModel>,
)
    requires
        model.wf(),
        call.method == "sessions/resume"@,
        bound_session(call.params) is Some,
        trimmed(message_text(call.params.at("message"@))).len() > 0,
        lookup(model.tasks, resumed_id(call.params, moment)) is None,
        lookup(model.running, resumed_id(call.params, moment)) is None,
        model.working() < config.max_concurrent_tasks,
    ensures
        ({
            let (after, reply) = answered(config, model, call, moment, directory, local);
            let task_id = resumed_id(call.params, moment);
            let (context_id, alias) = context_key(call.params, model.contexts_in_use(), moment);
            &&& keeps_and_answers(model, after, reply, task_id)
            &&& reply.cancel is None
            &&& match options_for(call.params, config.default_working_directory@, directory) {
                Ok(options) => {
                    &&& task_says(
                        lookup(after.tasks, task_id)->0,
                        task_id,
                        context_id,
                        "working"@,
                        "(processing - poll with tasks/get)"@,
                        false,
                        alias,
                        moment.now,
                    )
                    &&& reply.start == Some(
                        RunModel {
                            task_id,
                            context_id,
                            text: message_text(call.params.at("message"@)),
                            options,
                            send_alias: false,
                            context_alias: alias,
                        },
                    )
                },
                Err(reason) => {
                    &&& task_says(
                        lookup(after.tasks, task_id)->0,
                        task_id,
                        context_id,
                        "failed"@,
                        reason,
                        false,
                        alias,
                        moment.now,
                    )
                    &&& reply.start is None
                },
            }
        }),
{
    lemma_method_names();
    lemma_field_names();
    let task_id = resumed_id(call.params, moment);
    assert forall|value: JsonTree, key: Seq<char>| #[trigger] lookup(
        put(model.tasks, task_id, value),
        key,
    ) == (if key == task_id {
        Some(value)
    } else {
        lookup(model.tasks, key)
    }) by {
        lemma_lookup_put(model.tasks, task_id, value, key);
    }
    let (context_id, alias) = context_key(call.params, model.contexts_in_use(), moment);
    lemma_task_says(
        task_id,
        context_id,
        "working"@,
        "(processing - poll with tasks/get)"@,
        false,
        alias,
        moment.now,
    );
    match options_for(call.params, config.default_working_directory@, directory) {
        Err(reason) => {
            lemma_task_says(task_id, context_id, "failed"@, reason, false, alias, moment.now);
        },
        _ => {},
    }
}

/// `sessions/resume` with a message is refused under the name of a task that is kept or runs, and
/// by a busy server; no run is started.
pub proof fn law_resuming_is_refused(
    config: Config,
    model: Model,
    call: CallModel,
    moment: Moment,
    directory: Option<Directory>,
    local: Seq<SummaryModel>,
)
    requires
        call.method == "sessions/resume"@,
        bound_session(call.params) is Some,
        trimmed(message_text(call.params.at("message"@))).len() > 0,
    ensures
        ({
            let (after, reply) = answered(config, model, call, moment, directory, local);
            let task_id = resumed_id(call.params, moment);
            if lookup(model.tasks, task_id) is Some || lookup(model.running, task_id) is Some {
                refuses(model, after, reply, -32602, "Duplicate task id: "@ + task_id)
            } else {
                model.working() >= config.max_concurrent_tasks ==> refuses(
                    model,
                    after,
                    reply,
                    -32004,
                    "Server busy"@,
                )
            }
        }),
{
    lemma_method_names();
    lemma_field_names();
}

/// `tasks/get` answers with the task that is kept under the name, as it is, and changes nothing.
pub proof fn law_tasks_are_got_as_they_are_kept(
    config: Config,
    model: Model,
    call: CallModel,
    moment: Moment,
    directory: Option<Directory>,
    local: Seq<SummaryModel>,
)
    requires
        call.method == "tasks/get"@,
    ensures
        ({
            let (after, reply) = answered(config, model, call, moment, directory, local);
            &&& after == model
            &&& reply.start is None
            &&& reply.cancel is None
            &&& !reply.save_tasks && !reply.save_contexts
            &&& match call.params.text_at("id"@) {
                None => refuses(model, after, reply, -32602, "Missing task id"@),
                Some(task_id) => match lookup(model.tasks, task_id) {
                    Some(task) => reply.payload.get("result"@) == Some(task),
                    None => refuses(model, after, reply, -32001, "Task not found"@),
                },
            }
        }),
{
    lemma_method_names();
    lemma_field_names();
}

/// A method that there is not is refused by its name, and so is a stream that is asked for where
/// there is one answer; neither changes anything.
pub proof fn law_other_methods_are_refused(
    config: Config,
    model: Model,
    call: CallModel,
    moment: Moment,
    directory: Option<Directory>,
    local: Seq<SummaryModel>,
)
    requires
        !is_send(call.method),
        call.method != "tasks/get"@,
        call.method != "tasks/list"@,
        call.method != "tasks/cancel"@,
        call.method != "sessions/list"@,
        call.method != "sessions/resume"@,
    ensures
        ({
            let (after, reply) = answered(config, model, call, moment, directory, local);
            &&& after == model
            &&& if call.method == "message/stream"@ {
                refuses(
                    model,
                    after,
                    reply,
                    -32003,
                    "message/stream requires the streaming HTTP response path"@,
                )
            } else {
                refuses(model, after, reply, -32601, "Method not found: "@ + call.method)
            }
        }),
{
    lemma_field_names();
}

/// How many items a list may hold: as many as are asked for, or `default` where that is not said,
/// and at most `most`.
pub open spec fn list_limit(params: JsonTree, default: nat, most: nat) -> nat {
    let wanted = match params.u64_at("limit"@) {
        Some(limit) => limit as nat,
        None => default,
    };
    if wanted <= most {
        wanted
    } else {
        most
    }
}

/// The item of a list of sessions that tells the record of a context.
pub open spec fn tells_record(item: JsonTree, context_id: Seq<char>, record: ContextModel) -> bool {
    &&& item.text_at("contextId"@) == Some(context_id)
    &&& item.text_at("id"@) == Some(record.codex_session_id)
    &&& item.u64_at("modifiedUnix"@) == Some(record.updated_at)
    &&& item.get("cwd"@) == Some(JsonTree::Null)
    &&& item.get("lastMessagePreview"@) == Some(JsonTree::Null)
    &&& item.at("metadata"@).text_at("backendKind"@) == Some(record.backend_kind)
    &&& item.at("metadata"@).text_at("resumeSource"@) == Some(record.resume_source)
    &&& item.at("metadata"@).u64_at("createdAt"@) == Some(record.created_at)
    &&& item.at("metadata"@).u64_at("updatedAt"@) == Some(record.updated_at)
}

/// Where local sessions are hidden, `sessions/list` lists the contexts that were last bound, each
/// once and up to the limit: the times never increase, each item tells the record of a context, and
/// no context that is left out was bound later than one that is listed.
pub proof fn law_sessions_are_listed_newest_first(
    config: Config,
    model: Model,
    call: CallModel,
    moment: Moment,
    directory: Option<Directory>,
    local: Seq<SummaryModel>,
)
    requires
        model.wf(),
        call.method == "sessions/list"@,
        !config.expose_local_sessions,
    ensures
        ({
            let (after, reply) = answered(config, model, call, moment, directory, local);
            let limit = list_limit(call.params, 10, 50);
            &&& after == model
            &&& reply.start is None
            &&& reply.cancel is None
            &&& reply.payload.get("error"@) is None
            &&& reply.payload.at("result"@).at("sessions"@) matches JsonTree::Array(items)
            &&& items.len() == (if limit < model.sessions.len() {
                limit
            } else {
                model.sessions.len()
            })
            &&& forall|i: int|
                0 <= i < items.len() ==> exists|k: int|
                    0 <= k < model.sessions.len() && tells_record(
                        #[trigger] items[i],
                        (#[trigger] model.sessions[k]).0,
                        model.sessions[k].1,
                    )
            &&& forall|i: int, j: int|
                0 <= i < j < items.len() ==> (#[trigger] items[i]).u64_at("modifiedUnix"@)->0
                    >= (#[trigger] items[j]).u64_at("modifiedUnix"@)->0
            &&& forall|i: int, j: int|
                0 <= i < j < items.len() ==> (#[trigger] items[i]).text_at("contextId"@) != (
                #[trigger] items[j]).text_at("contextId"@)
            &&& forall|k: int, i: int|
                0 <= k < model.sessions.len() && 0 <= i < items.len() && (forall|j: int|
                    0 <= j < items.len() ==> (#[trigger] items[j]).text_at("contextId"@) != Some(
                        model.sessions[k].0,
                    )) ==> (#[trigger] model.sessions[k]).1.updated_at <= (
                #[trigger] items[i]).u64_at("modifiedUnix"@)->0
        }),
{
    lemma_method_names();
    lemma_field_names();
    let limit = list_limit(call.params, 10, 50);
    let all = model.sessions;
    let time = |e: (Seq<char>, ContextModel)| e.1.updated_at as int;
    let chosen = first_items(newest_first(all, time), limit);
    let items = chosen.map_values(|e: (Seq<char>, ContextModel)| binding_tree(e.0, e.1));
    law_newest_are_chosen(all, time, limit);
    let reply = answered(config, model, call, moment, directory, local).1;
    assert(reply.payload.at("result"@).at("sessions"@) == JsonTree::Array(items));
    assert forall|i: int| 0 <= i < items.len() implies tells_record(
        #[trigger] items[i],
        chosen[i].0,
        chosen[i].1,
    ) by {}
    assert forall|i: int| 0 <= i < items.len() implies exists|k: int|
        0 <= k < model.sessions.len() && tells_record(
            #[trigger] items[i],
            (#[trigger] model.sessions[k]).0,
            model.sessions[k].1,
        ) by {
        assert(all.contains(chosen[i]));
        let k = choose|k: int| 0 <= k < all.len() && all[k] == chosen[i];
        assert(tells_record(items[i], all[k].0, all[k].1));
    }
    assert forall|i: int, j: int| 0 <= i < j < items.len() implies (
    #[trigger] items[i]).u64_at("modifiedUnix"@)->0 >= (#[trigger] items[j]).u64_at(
        "modifiedUnix"@,
    )->0 by {
        assert(time(chosen[i]) >= time(chosen[j]));
    }
    assert(all.no_duplicates()) by {
        assert forall|i: int, j: int|
            0 <= i < all.len() && 0 <= j < all.len() && i != j implies all[i] != all[j] by {
            if i < j {
                assert(all[i].0 != all[j].0);
            } else {
                assert(all[j].0 != all[i].0);
            }
        }
    }
    assert forall|i: int, j: int| 0 <= i < j < items.len() implies (
    #[trigger] items[i]).text_at("contextId"@) != (#[trigger] items[j]).text_at("contextId"@) by {
        assert(all.contains(chosen[i]) && all.contains(chosen[j]));
        let a = choose|k: int| 0 <= k < all.len() && all[k] == chosen[i];
        let b = choose|k: int| 0 <= k < all.len() && all[k] == chosen[j];
        assert(chosen[i] != chosen[j]);
        if a < b {
            assert(all[a].0 != all[b].0);
        } else {
            assert(all[b].0 != all[a].0);
        }
    }
    assert forall|k: int, i: int|
        0 <= k < all.len() && 0 <= i < items.len() && (forall|j: int|
            0 <= j < items.len() ==> (#[trigger] items[j]).text_at("contextId"@) != Some(
                all[k].0,
            )) implies (#[trigger] all[k]).1.updated_at <= (#[trigger] items[i]).u64_at(
        "modifiedUnix"@,
    )->0 by {
        assert(all.contains(all[k]));
        if chosen.contains(all[k]) {
            let j = choose|j: int| 0 <= j < chosen.len() && chosen[j] == all[k];
            assert(items[j].text_at("contextId"@) == Some(all[k].0));
        }
        assert(time(all[k]) <= time(chosen[i]));
    }
}

/// Where local sessions are exposed, `sessions/list` lists what the backend knows, in its order.
pub proof fn law_exposed_sessions_are_listed(
    config: Config,
    model: Model,
    call: CallModel,
    moment: Moment,
    directory: Option<Directory>,
    local: Seq<SummaryModel>,
)
    requires
        call.method == "sessions/list"@,
        config.expose_local_sessions,
    ensures
        ({
            let (after, reply) = answered(config, model, call, moment, directory, local);
            &&& after == model
            &&& reply.start is None
            &&& reply.cancel is None
            &&& reply.payload.get("error"@) is None
            &&& reply.payload.at("result"@).at("sessions"@) matches JsonTree::Array(items)
            &&& items.len() == local.len()
            &&& forall|i: int|
                0 <= i < items.len() ==> {
                    &&& (#[trigger] items[i]).text_at("id"@) == Some(local[i].id)
                    &&& items[i].text_at("path"@) == Some(local[i].path)
                    &&& items[i].u64_at("modifiedUnix"@) == Some(local[i].modified_unix)
                    &&& items[i].at("cwd"@) == local[i].cwd
                    &&& items[i].at("lastMessagePreview"@) == local[i].last_message_preview
                }
        }),
{
    lemma_method_names();
    lemma_field_names();
}

/// When a task was last changed, as it says itself.
pub open spec fn changed_at(task: JsonTree) -> u64 {
    match task.at("metadata"@).u64_at("updatedAt"@) {
        Some(time) => time,
        None => 0,
    }
}

/// The context that a list of tasks is asked for, by its name or its old name.
pub open spec fn asked_context(params: JsonTree) -> Option<Seq<char>> {
    match params.text_at("contextId"@) {
        Some(context_id) => Some(context_id),
        None => params.text_at("sessionId"@),
    }
}

/// The tasks from which `tasks/list` takes its pages are those of the context that is asked for, or
/// all; none was changed later than one before it, and each is there as often as it is kept.
pub proof fn law_tasks_are_listed_newest_first(
    tasks: Seq<(Seq<char>, JsonTree)>,
    context: Option<Seq<char>>,
)
    ensures
        ({
            let all = listed(tasks, context);
            &&& forall|i: int, j: int|
                0 <= i < j < all.len() ==> changed_at(#[trigger] all[i]) >= changed_at(
                    #[trigger] all[j],
                )
            &&& forall|i: int|
                0 <= i < all.len() ==> (context matches Some(context_id) ==> (
                #[trigger] all[i]).text_at("contextId"@) == Some(context_id))
            &&& all.to_multiset() == tasks.map_values(|e: (Seq<char>, JsonTree)| e.1).filter(
                |t: JsonTree|
                    context matches Some(context_id) ==> t.text_at("contextId"@) == Some(
                        context_id,
                    ),
            ).to_multiset()
        }),
{
    broadcast use group_to_multiset_ensures;

    law_listed_newest_first(tasks, context);
    let all = listed(tasks, context);
    let values = tasks.map_values(|e: (Seq<char>, JsonTree)| e.1);
    let one = |t: JsonTree| belongs(t, context);
    let other = |t: JsonTree|
        context matches Some(context_id) ==> t.text_at("contextId"@) == Some(context_id);
    assert(one =~= other);
    let time = |t: JsonTree| updated_at(t) as int;
    assert forall|i: int, j: int| 0 <= i < j < all.len() implies changed_at(#[trigger] all[i])
        >= changed_at(#[trigger] all[j]) by {
        assert(time(all[i]) >= time(all[j]));
    }
    assert forall|i: int| 0 <= i < all.len() implies (context matches Some(context_id) ==> (
    #[trigger] all[i]).text_at("contextId"@) == Some(context_id)) by {
        assert(all.to_multiset().count(all[i]) > 0);
        let kept = values.filter(one);
        assert(kept.to_multiset().count(all[i]) > 0);
        assert(kept.contains(all[i]));
        values.lemma_filter_contains_rev(one, all[i]);
    }
}

/// `tasks/list` answers with a page of the tasks: those from the cursor on, up to the limit, and
/// where the next page begins, if there is more. It changes nothing.
pub proof fn law_tasks_are_listed_in_pages(
    config: Config,
    model: Model,
    call: CallModel,
    moment: Moment,
    directory: Option<Directory>,
    local: Seq<SummaryModel>,
)
    requires
        call.method == "tasks/list"@,
    ensures
        ({
            let (after, reply) = answered(config, model, call, moment, directory, local);
            let all = listed(model.tasks, asked_context(call.params));
            let limit = list_limit(call.params, 50, 200);
            let cursor: int = match call.params.u64_at("cursor"@) {
                Some(cursor) => cursor as int,
                None => 0,
            };
            let end: int = if cursor >= all.len() {
                cursor
            } else if cursor + limit <= all.len() {
                cursor + limit
            } else {
                all.len() as int
            };
            &&& after == model
            &&& reply.start is None
            &&& reply.cancel is None
            &&& reply.payload.get("error"@) is None
            &&& reply.payload.at("result"@).at("tasks"@) matches JsonTree::Array(items)
            &&& items.len() == end - cursor
            &&& forall|i: int| 0 <= i < items.len() ==> #[trigger] items[i] == all[cursor + i]
            &&& reply.payload.at("result"@).at("nextCursor"@) == (if end < all.len() {
                JsonTree::Integer(end)
            } else {
                JsonTree::Null
            })
            &&& reply.payload.at("result"@).at("metadata"@).get("deprecatedSessionIdAliasUsed"@)
                == Some(
                JsonTree::Bool(
                    call.params.text_at("contextId"@) is None && call.params.text_at(
                        "sessionId"@,
                    ) is Some,
                ),
            )
        }),
{
    lemma_method_names();
    lemma_field_names();
}

/// The name of the task that is to be canceled: `id`, or where there is none `taskId`.
pub open spec fn asked_task(params: JsonTree) -> Option<Seq<char>> {
    match params.get("id"@) {
        Some(id) => id.as_text(),
        None => params.text_at("taskId"@),
    }
}

/// Canceling a task that runs ends its process and keeps the task as canceled, with the process,
/// the time at which it began and the time at which it was canceled. Canceling one that is worked
/// on but does not run keeps it as canceled too, with nothing to end.
pub proof fn law_canceled_tasks_say_so(
    config: Config,
    model: Model,
    call: CallModel,
    moment: Moment,
    directory: Option<Directory>,
    local: Seq<SummaryModel>,
    task_id: Seq<char>,
)
    requires
        model.wf(),
        call.method == "tasks/cancel"@,
        asked_task(call.params) == Some(task_id),
        lookup(model.running, task_id) is Some || (lookup(model.tasks, task_id) matches Some(task)
            && task.at("status"@).text_at("state"@) == Some("working"@)),
    ensures
        ({
            let (after, reply) = answered(config, model, call, moment, directory, local);
            let task = lookup(after.tasks, task_id)->0;
            &&& lookup(after.tasks, task_id) is Some
            &&& reply.payload.get("result"@) == Some(task)
            &&& reply.payload.get("error"@) is None
            &&& reply.save_tasks
            &&& reply.start is None
            &&& task.text_at("id"@) == Some(task_id)
            &&& task.at("status"@).text_at("state"@) == Some("canceled"@)
            &&& artifact_count(task) == 1
            &&& artifact_text(task, 0) == Some("Task canceled by tasks/cancel"@)
            &&& task.at("metadata"@).text_at("taskId"@) == Some(task_id)
            &&& task.at("metadata"@).u64_at("canceledAt"@) == Some(moment.now)
            &&& task.at("metadata"@).u64_at("updatedAt"@) == Some(moment.now)
            &&& lookup(after.running, task_id) is None
            &&& after.sessions == model.sessions
            &&& forall|other: Seq<char>|
                other != task_id ==> #[trigger] lookup(after.tasks, other) == lookup(
                    model.tasks,
                    other,
                )
            &&& forall|other: Seq<char>|
                other != task_id ==> #[trigger] lookup(after.running, other) == lookup(
                    model.running,
                    other,
                )
            &&& match lookup(model.running, task_id) {
                Some(running) => {
                    &&& reply.cancel == Some(running.pid)
                    &&& task.text_at("contextId"@) == Some(running.context_id)
                    &&& task.at("metadata"@).u64_at("canceledPid"@) == Some(running.pid as u64)
                    &&& task.at("metadata"@).u64_at("startedAt"@) == Some(running.started_at)
                },
                None => {
                    &&& reply.cancel is None
                    &&& (lookup(model.tasks, task_id)->0).text_at("contextId"@) matches Some(
                        context_id,
                    ) ==> task.text_at("contextId"@) == Some(context_id)
                },
            }
        }),
{
    lemma_method_names();
    lemma_field_names();
    assert forall|value: JsonTree, key: Seq<char>| #[trigger] lookup(
        put(model.tasks, task_id, value),
        key,
    ) == (if key == task_id {
        Some(value)
    } else {
        lookup(model.tasks, key)
    }) by {
        lemma_lookup_put(model.tasks, task_id, value, key);
    }
    assert forall|key: Seq<char>| #[trigger] lookup(without(model.running, task_id), key) == (
    if key == task_id {
        None
    } else {
        lookup(model.running, key)
    }) by {
        lemma_lookup_without(model.running, task_id, key);
    }
}

/// Canceling a task that neither runs nor is worked on answers with it as it is; canceling one that
/// is not known, or without a name, is refused. None of these changes anything.
pub proof fn law_other_tasks_are_not_canceled(
    config: Config,
    model: Model,
    call: CallModel,
    moment: Moment,
    directory: Option<Directory>,
    local: Seq<SummaryModel>,
)
    requires
        call.method == "tasks/cancel"@,
        asked_task(call.params) matches Some(task_id) ==> lookup(model.running, task_id) is None
            && (lookup(model.tasks, task_id) matches Some(task) ==> task.at("status"@).text_at(
            "state"@,
        ) != Some("working"@)),
    ensures
        ({
            let (after, reply) = answered(config, model, call, moment, directory, local);
            &&& after == model
            &&& reply.cancel is None
            &&& reply.start is None
            &&& !reply.save_tasks
            &&& match asked_task(call.params) {
                None => refuses(model, after, reply, -32602, "Missing task id"@),
                Some(task_id) => match lookup(model.tasks, task_id) {
                    Some(task) => reply.payload.get("result"@) == Some(task),
                    None => refuses(
                        model,
                        after,
                        reply,
                        -32001,
                        "Task not found or already finished"@,
                    ),
                },
            }
        }),
{
    lemma_method_names();
    lemma_field_names();
}

/// The disk is asked about a directory before a call is answered exactly where the call sends a
/// task or resumes a session, wants to write and names a directory, and about that directory; the
/// backend is asked for sessions exactly where a list of them is asked for and they are exposed.
pub proof fn law_what_is_asked_before_a_call(config: Config, call: CallModel)
    ensures
        call_directory(call) == (if (is_send(call.method) || call.method == "message/stream"@
            || call.method == "sessions/resume"@) && call.params.at("metadata"@).text_at(
            "writeMode"@,
        ) == Some("workspace-write"@) {
            call.params.at("metadata"@).text_at("workingDirectory"@)
        } else {
            None
        }),
        backend_limit(config, call) == (if call.method == "sessions/list"@
            && config.expose_local_sessions {
            Some(list_limit(call.params, 10, 50) as u64)
        } else {
            None
        }),
{
}

/// Every call is answered with status 200; errors are told in the answer.
pub proof fn law_calls_are_answered_with_success(
    config: Config,
    model: Model,
    call: CallModel,
    moment: Moment,
    directory: Option<Directory>,
    local: Seq<SummaryModel>,
)
    ensures
        answered(config, model, call, moment, directory, local).1.status == 200,
{
}

/// Annotating a task keeps the time of its making and what else its metadata say, and notes when it
/// was changed, what it is called, where it belongs and by which names it was asked for.
pub proof fn law_annotations_keep_the_time_of_making(
    task: JsonTree,
    task_id: Seq<char>,
    context_id: Seq<char>,
    send_alias: bool,
    context_alias: bool,
    now: u64,
    other: Seq<char>,
)
    requires
        task is Object,
        task.get("metadata"@) matches Some(metadata) ==> metadata is Object,
    ensures
        ({
            let noted = annotated(task, task_id, context_id, send_alias, context_alias, now);
            let earlier = task.at("metadata"@);
            let metadata = noted.at("metadata"@);
            &&& metadata.get("createdAt"@) == (if earlier.get("createdAt"@) is Some {
                earlier.get("createdAt"@)
            } else {
                Some(JsonTree::Integer(now as int))
            })
            &&& metadata.u64_at("updatedAt"@) == Some(now)
            &&& metadata.text_at("taskId"@) == Some(task_id)
            &&& metadata.text_at("contextId"@) == Some(context_id)
            &&& metadata.get("deprecatedTasksSendAliasUsed"@) == Some(JsonTree::Bool(send_alias))
            &&& metadata.get("deprecatedSessionIdAliasUsed"@) == Some(JsonTree::Bool(context_alias))
            &&& other != "metadata"@ ==> noted.get(other) == task.get(other)
            &&& earlier.get("writeEnabled"@) is Some ==> metadata.get("writeEnabled"@)
                == earlier.get("writeEnabled"@)
        }),
{
    lemma_field_names();
}

} // verus!
