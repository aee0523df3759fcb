//! What becomes of tasks once they run, and what streams tell of it, in terms of how the runs ended.

use crate::backend::cli::run_arguments;
use crate::backend::cli_laws::{ends_with, law_exec_is_given_the_prompt};
use crate::backend::{ExecutionModel, SummaryModel};
use crate::call_laws::{
    artifact_count, artifact_text, is_bound, is_send, law_messages_are_taken_on,
    law_messages_bind_contexts, law_tasks_are_got_as_they_are_kept,
};
use crate::config::Config;
use crate::json::JsonTree;
use crate::laws::{lemma_lookup_put, lemma_lookup_without};
use crate::names::{lemma_field_names, lemma_state_names};
use crate::registry::{lookup, put, without};
use crate::rpc::{answered, CallModel};
use crate::run::{asked, finished, start_failed, started, Saves};
use crate::send::{wanted_id, wanted_session};
use crate::service::{context_key, Moment, RunModel};
use crate::state::{ContextModel, Model, OptionsModel, RunningModel};
use crate::stream::{opened, stepped, OpeningModel};
use crate::task::{
    after_tree, before_tree, capture_tree, message_text, options_for, Directory, GitOutcome,
};
use crate::text::{lossy_text, trimmed, views};
use vstd::prelude::*;

verus! {

/// What the artifact at a place of a task holds as data.
pub open spec fn artifact_data(task: JsonTree, place: int) -> Option<JsonTree> {
    match task.at("artifacts"@) {
        JsonTree::Array(artifacts) => match artifacts[place].at("parts"@) {
            JsonTree::Array(parts) => if parts.len() == 1 && parts[0].text_at("type"@) == Some(
                "data"@,
            ) && artifacts[place].u64_at("index"@) == Some(place as u64) {
                parts[0].get("data"@)
            } else {
                None
            },
            _ => None,
        },
        _ => None,
    }
}

/// A task tells how its run ended: in which state and with which text, and with the git trace where
/// it could write, whatever the state. Its metadata say with which options it ran, when it ended and
/// by which names it was asked for.
pub open spec fn tells_the_end(
    task: JsonTree,
    run: RunModel,
    state: Seq<char>,
    text: Seq<char>,
    trace: JsonTree,
    now: u64,
) -> bool {
    let metadata = task.at("metadata"@);
    &&& task.text_at("id"@) == Some(run.task_id)
    &&& task.text_at("contextId"@) == Some(run.context_id)
    &&& task.at("status"@).text_at("state"@) == Some(state)
    &&& artifact_text(task, 0) == Some(text)
    &&& artifact_count(task) == (if run.options.write_enabled {
        2int
    } else {
        1int
    })
    &&& run.options.write_enabled ==> artifact_data(task, 1) == Some(trace)
    &&& metadata.get("writeEnabled"@) == Some(JsonTree::Bool(run.options.write_enabled))
    &&& metadata.text_at("sandboxMode"@) == Some(run.options.sandbox_mode)
    &&& metadata.text_at("workingDirectory"@) == Some(run.options.working_directory)
    &&& metadata.u64_at("updatedAt"@) == Some(now)
    &&& metadata.u64_at("createdAt"@) == Some(now)
    &&& metadata.text_at("taskId"@) == Some(run.task_id)
    &&& metadata.text_at("contextId"@) == Some(run.context_id)
    &&& metadata.get("deprecatedTasksSendAliasUsed"@) == Some(JsonTree::Bool(run.send_alias))
    &&& metadata.get("deprecatedSessionIdAliasUsed"@) == Some(JsonTree::Bool(run.context_alias))
}

/// What a task that has run tells.
proof fn lemma_tells_the_end(
    run: RunModel,
    state: Seq<char>,
    text: Seq<char>,
    trace: JsonTree,
    now: u64,
)
    ensures
        tells_the_end(run.ended_task(state, text, trace, now), run, state, text, trace, now),
{
    lemma_field_names();
}

/// A run that ends completes its task with what it said, or fails it with its reason; a run that
/// said nothing but white space completes it with a word on that. The task has the git trace where
/// the run could write, completed or failed; it runs no more, and no other task changes.
pub proof fn law_ended_runs_tell_their_end(
    config: Config,
    model: Model,
    run: RunModel,
    result: ExecutionModel,
    trace: JsonTree,
    now: u64,
)
    requires
        model.wf(),
        !model.canceled(run.task_id),
    ensures
        ({
            let (after, saves) = finished(config, model, run, result, trace, now);
            &&& lookup(after.tasks, run.task_id) matches Some(task)
            &&& if result.success {
                tells_the_end(
                    task,
                    run,
                    "completed"@,
                    if trimmed(result.message).len() == 0 {
                        "(empty response)"@
                    } else {
                        result.message
                    },
                    trace,
                    now,
                )
            } else {
                tells_the_end(task, run, "failed"@, result.message, trace, now)
            }
            &&& saves.tasks
            &&& lookup(after.running, run.task_id) is None
            &&& forall|other: Seq<char>|
                other != run.task_id ==> #[trigger] lookup(after.tasks, other) == lookup(
                    model.tasks,
                    other,
                )
            &&& forall|other: Seq<char>|
                other != run.task_id ==> #[trigger] lookup(after.running, other) == lookup(
                    model.running,
                    other,
                )
        }),
{
    assert forall|value: JsonTree, key: Seq<char>| #[trigger] lookup(
        put(model.tasks, run.task_id, value),
        key,
    ) == (if key == run.task_id {
        Some(value)
    } else {
        lookup(model.tasks, key)
    }) by {
        lemma_lookup_put(model.tasks, run.task_id, value, key);
    }
    assert forall|key: Seq<char>| #[trigger] lookup(without(model.running, run.task_id), key) == (
    if key == run.task_id {
        None
    } else {
        lookup(model.running, key)
    }) by {
        lemma_lookup_without(model.running, run.task_id, key);
    }
    assert forall|state: Seq<char>, text: Seq<char>| tells_the_end(
        #[trigger] run.ended_task(state, text, trace, now),
        run,
        state,
        text,
        trace,
        now,
    ) by {
        lemma_tells_the_end(run, state, text, trace, now);
    }
}

/// A run that ends binds its context to the session that it names, so that the next run of the
/// context goes on with it, and the contexts are then saved; one that names none leaves the
/// contexts as they are.
pub proof fn law_ended_runs_bind_their_contexts(
    config: Config,
    model: Model,
    run: RunModel,
    result: ExecutionModel,
    trace: JsonTree,
    now: u64,
)
    requires
        model.wf(),
        !model.canceled(run.task_id),
    ensures
        ({
            let (after, saves) = finished(config, model, run, result, trace, now);
            &&& saves.contexts == result.resume_session_id is Some
            &&& match result.resume_session_id {
                Some(session) => is_bound(
                    config,
                    model,
                    after,
                    run.context_id,
                    session,
                    "codex-thread-started"@,
                    now,
                ),
                None => after.sessions == model.sessions,
            }
        }),
{
    assert forall|value: ContextModel, key: Seq<char>| #[trigger] lookup(
        put(model.sessions, run.context_id, value),
        key,
    ) == (if key == run.context_id {
        Some(value)
    } else {
        lookup(model.sessions, key)
    }) by {
        lemma_lookup_put(model.sessions, run.context_id, value, key);
    }
}

/// A run that cannot be started fails its task with the reason, and with the git trace where it
/// could have written; nothing else changes.
pub proof fn law_runs_that_do_not_start_fail(
    model: Model,
    run: RunModel,
    message: Seq<char>,
    trace: JsonTree,
    now: u64,
)
    requires
        model.wf(),
        !model.canceled(run.task_id),
    ensures
        ({
            let (after, saves) = start_failed(model, run, message, trace, now);
            &&& lookup(after.tasks, run.task_id) matches Some(task)
            &&& tells_the_end(task, run, "failed"@, message, trace, now)
            &&& saves == Saves { tasks: true, contexts: false }
            &&& after.running == model.running
            &&& after.sessions == model.sessions
            &&& forall|other: Seq<char>|
                other != run.task_id ==> #[trigger] lookup(after.tasks, other) == lookup(
                    model.tasks,
                    other,
                )
        }),
{
    assert forall|value: JsonTree, key: Seq<char>| #[trigger] lookup(
        put(model.tasks, run.task_id, value),
        key,
    ) == (if key == run.task_id {
        Some(value)
    } else {
        lookup(model.tasks, key)
    }) by {
        lemma_lookup_put(model.tasks, run.task_id, value, key);
    }
    lemma_tells_the_end(run, "failed"@, message, trace, now);
}

/// A run that is started runs by its process in its context since now, and changes nothing else;
/// where its task was canceled meanwhile, it does not run and its process is to be ended.
pub proof fn law_started_runs_are_noted(
    model: Model,
    run: RunModel,
    pid: u32,
    now: u64,
    other: Seq<char>,
)
    requires
        model.wf(),
    ensures
        ({
            let (after, end) = started(model, run, pid, now);
            &&& after.tasks == model.tasks
            &&& after.sessions == model.sessions
            &&& if model.canceled(run.task_id) {
                after.running == model.running && end == Some(pid)
            } else {
                &&& end is None
                &&& lookup(after.running, run.task_id) == Some(
                    RunningModel { pid, context_id: run.context_id, started_at: now },
                )
                &&& other != run.task_id ==> lookup(after.running, other) == lookup(
                    model.running,
                    other,
                )
            }
        }),
{
    let record = RunningModel { pid, context_id: run.context_id, started_at: now };
    lemma_lookup_put(model.running, run.task_id, record, run.task_id);
    lemma_lookup_put(model.running, run.task_id, record, other);
}

/// The git trace of a run tells what git said before it and after it: the head and the status each
/// time, what may be written and where, and the changes at the end.
pub proof fn law_traces_tell_before_and_after(
    options: OptionsModel,
    head: JsonTree,
    status: JsonTree,
    later_head: JsonTree,
    later_status: JsonTree,
    diff: JsonTree,
    diff_stat: JsonTree,
)
    ensures
        ({
            let trace = after_tree(
                before_tree(options, head, status),
                later_head,
                later_status,
                diff,
                diff_stat,
            );
            let before = trace.at("before"@);
            let after = trace.at("after"@);
            &&& before.at("gitHeadBefore"@) == head
            &&& before.at("gitStatusBefore"@) == status
            &&& before.get("writeEnabled"@) == Some(JsonTree::Bool(options.write_enabled))
            &&& before.text_at("sandboxMode"@) == Some(options.sandbox_mode)
            &&& before.text_at("workingDirectory"@) == Some(options.working_directory)
            &&& after.at("gitHeadAfter"@) == later_head
            &&& after.at("gitStatusAfter"@) == later_status
            &&& after.at("gitDiffAfter"@) == diff
            &&& after.at("gitDiffStatAfter"@) == diff_stat
        }),
{
    lemma_field_names();
}

/// What a git command wrote is told without the white space around it: its output where it
/// succeeded, and its error with the exit code where it failed; where it could not be run, why.
pub proof fn law_git_is_quoted(outcome: GitOutcome)
    ensures
        match outcome {
            GitOutcome::Success(stdout) => capture_tree(outcome) == JsonTree::Text(
                trimmed(lossy_text(stdout@)),
            ),
            GitOutcome::Failure(stderr, code) => capture_tree(outcome).text_at("error"@) == Some(
                trimmed(lossy_text(stderr@)),
            ) && capture_tree(outcome).at("exitCode"@) == (match code {
                Some(n) => JsonTree::Integer(n as int),
                None => JsonTree::Null,
            }),
            GitOutcome::Error(message) => capture_tree(outcome).text_at("error"@) == Some(message@),
        },
{
    lemma_field_names();
}

/// A stream is opened with the task that the message got, named by the call; a call that is refused
/// gets the refusal and no stream. Where the answer holds no task, the stream is opened with one that
/// failed and has no name.
pub proof fn law_streams_open_with_their_task(id: JsonTree, answer: JsonTree, task: JsonTree)
    ensures
        answer.get("error"@) is Some ==> opened(id, answer) == OpeningModel::Refused(answer),
        answer.get("error"@) is None && answer.get("result"@) == Some(task) ==> (opened(
            id,
            answer,
        ) matches OpeningModel::Opened(task_id, event) && event.get("id"@) == Some(id)
            && event.text_at("jsonrpc"@) == Some("2.0"@) && event.at("result"@).text_at("kind"@)
            == Some("task"@) && event.at("result"@).at("task"@) == task && (task.text_at(
            "id"@,
        ) matches Some(name) ==> task_id == name) && (task.text_at("id"@) is None
            ==> task_id.len() == 0)),
        answer.get("error"@) is None && answer.get("result"@) is None ==> (opened(
            id,
            answer,
        ) matches OpeningModel::Opened(task_id, event) && task_id.len() == 0 && event.get("id"@)
            == Some(id) && said_state(event.at("result"@).at("task"@)) == "failed"@),
{
    lemma_field_names();
    reveal_strlit("");
}

/// The state that a task says it is in.
pub open spec fn said_state(task: JsonTree) -> Seq<char> {
    match task.at("status"@).text_at("state"@) {
        Some(state) => state,
        None => "unknown"@,
    }
}

/// The state is one that a task does not leave.
pub open spec fn is_last_state(state: Seq<char>) -> bool {
    state == "completed"@ || state == "failed"@ || state == "canceled"@
}

/// A look at the task of a stream tells its state where that has changed, with the names of the
/// task and its context and whether it is the last; it ends the stream with the task itself where
/// the state is one that a task does not leave; and a task that is gone ends the stream in silence.
pub proof fn law_streams_tell_states(task_id: Seq<char>, state: Seq<char>, task: Option<JsonTree>)
    ensures
        ({
            let step = stepped(task_id, state, task);
            match task {
                None => step.done && step.status is None && step.last is None,
                Some(task) => {
                    let name = said_state(task);
                    &&& step.state == name
                    &&& step.done == is_last_state(name)
                    &&& step.status is Some == (name != state)
                    &&& step.status matches Some(event) ==> {
                        let params = event.at("params"@);
                        &&& event.text_at("method"@) == Some("tasks/status-update"@)
                        &&& event.text_at("jsonrpc"@) == Some("2.0"@)
                        &&& params.text_at("taskId"@) == Some(task_id)
                        &&& params.at("contextId"@) == task.at("contextId"@)
                        &&& params.at("status"@) == task.at("status"@)
                        &&& params.get("final"@) == Some(JsonTree::Bool(is_last_state(name)))
                    }
                    &&& step.last is Some == is_last_state(name)
                    &&& step.last matches Some(event) ==> {
                        &&& event.text_at("method"@) == Some("tasks/final"@)
                        &&& event.text_at("jsonrpc"@) == Some("2.0"@)
                        &&& event.at("params"@).at("task"@) == task
                    }
                    &&& step.events() == (match (step.status, step.last) {
                        (Some(one), Some(two)) => seq![one, two],
                        (Some(one), None) => seq![one],
                        (None, Some(two)) => seq![two],
                        (None, None) => Seq::empty(),
                    })
                },
            }
        }),
{
    lemma_field_names();
    lemma_state_names();
    let step = stepped(task_id, state, task);
    match (step.status, step.last) {
        (Some(one), Some(two)) => {
            assert(step.events() =~= seq![one, two]);
        },
        (None, Some(two)) => {
            assert(step.events() =~= seq![two]);
        },
        _ => {},
    }
}

/// What a message asks reaches Codex: the run that it starts asks for a text that ends with that of
/// the message, with the options that the message is granted, and goes on with the session that the
/// message names, or else with the one that its context is bound to.
pub proof fn law_what_is_asked_reaches_codex(
    config: Config,
    model: Model,
    call: CallModel,
    moment: Moment,
    directory: Option<Directory>,
    local: Seq<SummaryModel>,
    options: OptionsModel,
)
    requires
        model.wf(),
        is_send(call.method),
        lookup(model.tasks, wanted_id(call.params, moment)) is None,
        lookup(model.running, wanted_id(call.params, moment)) is None,
        options_for(call.params, config.default_working_directory@, directory) == Ok::<
            OptionsModel,
            Seq<char>,
        >(options),
        trimmed(message_text(call.params.at("message"@))).len() > 0,
        model.working() < config.max_concurrent_tasks,
    ensures
        ({
            let (after, reply) = answered(config, model, call, moment, directory, local);
            let context_id = context_key(call.params, model.contexts_in_use(), moment).0;
            let text = message_text(call.params.at("message"@));
            &&& reply.start matches Some(run)
            &&& asked(after, run) == (
                text,
                options,
                match wanted_session(call.params) {
                    Some(session) => Some(session),
                    None => match lookup(model.sessions, context_id) {
                        Some(record) => Some(record.codex_session_id),
                        None => None,
                    },
                },
            )
            &&& ends_with(
                run_arguments(
                    asked(after, run).2,
                    asked(after, run).1,
                    asked(after, run).0,
                    views(config.write_mode_sandbox_permissions@),
                ).last(),
                text,
            )
        }),
{
    law_messages_are_taken_on(config, model, call, moment, directory, local, options);
    law_messages_bind_contexts(config, model, call, moment, directory, local);
    let (after, reply) = answered(config, model, call, moment, directory, local);
    let run = reply.start->0;
    law_exec_is_given_the_prompt(
        asked(after, run).2,
        asked(after, run).1,
        asked(after, run).0,
        asked(after, run).0,
        views(config.write_mode_sandbox_permissions@),
    );
}

/// What Codex says is got: once a run has ended, `tasks/get` answers with its task, which says in
/// its first artifact what the run said.
pub proof fn law_what_codex_says_is_got(
    config: Config,
    model: Model,
    run: RunModel,
    result: ExecutionModel,
    trace: JsonTree,
    now: u64,
    call: CallModel,
    moment: Moment,
    directory: Option<Directory>,
    local: Seq<SummaryModel>,
)
    requires
        model.wf(),
        !model.canceled(run.task_id),
        trimmed(result.message).len() > 0,
        call.method == "tasks/get"@,
        call.params.text_at("id"@) == Some(run.task_id),
    ensures
        ({
            let after = finished(config, model, run, result, trace, now).0;
            let task = answered(config, after, call, moment, directory, local).1.payload.at(
                "result"@,
            );
            &&& artifact_text(task, 0) == Some(result.message)
            &&& task.at("status"@).text_at("state"@) == Some(
                if result.success {
                    "completed"@
                } else {
                    "failed"@
                },
            )
            &&& run.options.write_enabled ==> artifact_data(task, 1) == Some(trace)
        }),
{
    law_ended_runs_tell_their_end(config, model, run, result, trace, now);
    let after = finished(config, model, run, result, trace, now).0;
    law_tasks_are_got_as_they_are_kept(config, after, call, moment, directory, local);
}

} // verus!
