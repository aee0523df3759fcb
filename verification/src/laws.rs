//! What holds of the server as a whole, over any calls and runs.

use crate::auth::is_authorized;
use crate::backend::{ExecutionModel, SummaryModel};
use crate::config::Config;
use crate::json::{readable, JsonTree};
use crate::net::source_allowed;
use crate::order::{is_newest_first, law_newest_first_sorts};
use crate::registry::{
    distinct_keys, entry_map, lemma_entry_names, lemma_put, lemma_without, lookup, put, without,
};
use crate::rpc::{
    agent_card_tree, answered, call_directory, routed, CallModel, PlanModel, RequestModel,
};
use crate::run::{finished, result_task, start_failed, started};
use crate::send::{bound_session, resumed, sent, wanted_id, wanted_session};
use crate::service::{
    context_filter, context_key, error_tree, first_free, result_tree, stamped, suffixed, Moment,
    ReplyModel, RunModel,
};
use crate::sessions::{backend_limit, sessions_reply};
use crate::state::{ContextModel, Model, OptionsModel, RunningModel};
use crate::stream::state_name;
use crate::task::{
    after_tree, annotated, before_tree, capture_tree, has_ended, in_state, is_terminal,
    lemma_task_fields_differ, message_text, metadata_of, options_for, options_tree, task_tree,
    text_artifact, trace_artifact, traced_tree, updated_at, Directory, GitOutcome,
};
use crate::tasks::{
    belongs, canceled, canceled_id, canceled_tree, got, listed, next_cursor, own_context, page,
    withdrawn_tree,
};
use crate::text::{decimal, digit, trimmed};
use vstd::multiset::*;
use vstd::prelude::*;
use vstd::seq_lib::*;

verus! {

/// What a name holds after a value was put under one.
pub proof fn lemma_lookup_put<T>(
    entries: Seq<(Seq<char>, T)>,
    key: Seq<char>,
    value: T,
    other: Seq<char>,
)
    requires
        distinct_keys(entries),
    ensures
        lookup(put(entries, key, value), other) == (if other == key {
            Some(value)
        } else {
            lookup(entries, other)
        }),
{
    lemma_put(entries, key, value);
}

/// What a name holds after one was taken out.
pub proof fn lemma_lookup_without<T>(entries: Seq<(Seq<char>, T)>, key: Seq<char>, other: Seq<char>)
    requires
        distinct_keys(entries),
    ensures
        lookup(without(entries, key), other) == (if other == key {
            None
        } else {
            lookup(entries, other)
        }),
{
    lemma_without(entries, key);
}

/// The state of a task that is made here.
proof fn lemma_made_state(
    task_id: Seq<char>,
    state: Seq<char>,
    text: Seq<char>,
    context_id: Seq<char>,
    options: OptionsModel,
    trace: JsonTree,
    send_alias: bool,
    context_alias: bool,
    now: u64,
    name: Seq<char>,
)
    ensures
        in_state(
            annotated(
                task_tree(task_id, state, text, context_id),
                task_id,
                context_id,
                send_alias,
                context_alias,
                now,
            ),
            name,
        ) == (state == name),
        in_state(
            annotated(
                traced_tree(task_id, state, text, context_id, options, trace),
                task_id,
                context_id,
                send_alias,
                context_alias,
                now,
            ),
            name,
        ) == (state == name),
{
    lemma_task_fields_differ();
}

/// The state of a task that has been canceled.
proof fn lemma_canceled_state(task_id: Seq<char>, running: RunningModel, now: u64)
    ensures
        in_state(canceled_tree(task_id, running, now), "canceled"@),
        !in_state(canceled_tree(task_id, running, now), "working"@),
{
    lemma_task_fields_differ();
    lemma_states_differ();
}

/// The state of a task that has been canceled before it ran.
proof fn lemma_withdrawn_state(task_id: Seq<char>, context_id: Seq<char>, now: u64)
    ensures
        in_state(withdrawn_tree(task_id, context_id, now), "canceled"@),
        !in_state(withdrawn_tree(task_id, context_id, now), "working"@),
{
    lemma_task_fields_differ();
    lemma_states_differ();
}

/// What canceling a task in flight leaves of it.
proof fn lemma_cancel_in_flight(
    model: Model,
    id: JsonTree,
    params: JsonTree,
    now: u64,
    task_id: Seq<char>,
)
    requires
        model.wf(),
        canceled_id(params) == Some(task_id),
        model.in_flight(task_id),
    ensures
        canceled(model, id, params, now).0.canceled(task_id),
        canceled(model, id, params, now).1.save_tasks,
        canceled(model, id, params, now).1.payload == result_tree(
            id,
            lookup(canceled(model, id, params, now).0.tasks, task_id)->0,
        ),
{
    assert forall|value: JsonTree| lookup(#[trigger] put(model.tasks, task_id, value), task_id)
        == Some(value) by {
        lemma_lookup_put(model.tasks, task_id, value, task_id);
    }
    match lookup(model.running, task_id) {
        Some(running) => {
            lemma_canceled_state(task_id, running, now);
        },
        None => {
            lemma_withdrawn_state(task_id, own_context(lookup(model.tasks, task_id)->0), now);
        },
    }
}

/// The names of the states differ.
proof fn lemma_states_differ()
    ensures
        "working"@ != "failed"@,
        "working"@ != "completed"@,
        "working"@ != "canceled"@,
        "canceled"@ != "failed"@,
        "canceled"@ != "completed"@,
{
    reveal_strlit("working");
    reveal_strlit("failed");
    reveal_strlit("completed");
    reveal_strlit("canceled");
    assert("working"@.len() == 7);
    assert("failed"@.len() == 6);
    assert("completed"@.len() == 9);
    assert("canceled"@.len() == 8);
}

/// A canceled task stays canceled: once `tasks/cancel` has answered for a task in flight, neither
/// the end of its run nor the failure to start it changes a task, and a run of it that is started
/// all the same is ended.
pub proof fn law_canceled_stays_canceled(
    config: Config,
    model: Model,
    id: JsonTree,
    params: JsonTree,
    now: u64,
    run: RunModel,
    result: ExecutionModel,
    message: Seq<char>,
    pid: u32,
    trace: JsonTree,
    later: u64,
)
    requires
        model.wf(),
        canceled_id(params) == Some(run.task_id),
        model.in_flight(run.task_id),
    ensures
        ({
            let after = canceled(model, id, params, now).0;
            &&& after.canceled(run.task_id)
            &&& finished(config, after, run, result, trace, later).0.tasks == after.tasks
            &&& finished(config, after, run, result, trace, later).0.sessions == after.sessions
            &&& start_failed(after, run, message, trace, later).0 == after
            &&& started(after, run, pid, later) == (after, Some(pid))
        }),
{
    lemma_cancel_in_flight(model, id, params, now, run.task_id);
}

/// No call changes a kept task that is not in flight: one that has ended stays as it is, and so
/// does one in any state of its own.
pub proof fn law_calls_change_only_tasks_in_flight(
    config: Config,
    model: Model,
    call: CallModel,
    moment: Moment,
    directory: Option<Directory>,
    local: Seq<SummaryModel>,
    task_id: Seq<char>,
)
    requires
        model.wf(),
        lookup(model.tasks, task_id) is Some,
        !model.in_flight(task_id),
    ensures
        lookup(answered(config, model, call, moment, directory, local).0.tasks, task_id) == lookup(
            model.tasks,
            task_id,
        ),
{
    assert forall|key: Seq<char>, value: JsonTree| key != task_id implies lookup(
        #[trigger] put(model.tasks, key, value),
        task_id,
    ) == lookup(model.tasks, task_id) by {
        lemma_lookup_put(model.tasks, key, value, task_id);
    }
}

/// The number of entries that are being worked on.
spec fn working_count(entries: Seq<(Seq<char>, JsonTree)>) -> nat {
    entries.filter(|e: (Seq<char>, JsonTree)| in_state(e.1, "working"@)).len()
}

/// The number of tasks that are being worked on grows by one at most where a task is kept, and
/// only where that task is being worked on.
proof fn lemma_working_put(entries: Seq<(Seq<char>, JsonTree)>, key: Seq<char>, value: JsonTree)
    requires
        distinct_keys(entries),
    ensures
        working_count(put(entries, key, value)) <= working_count(entries) + (if in_state(
            value,
            "working"@,
        ) {
            1nat
        } else {
            0
        }),
{
    reveal(Seq::filter);
    if entry_map(entries).dom().contains(key) {
        lemma_working_replace(entries, put(entries, key, value), key, value);
    } else {
        assert(put(entries, key, value).drop_last() =~= entries);
    }
}

proof fn lemma_working_replace(
    entries: Seq<(Seq<char>, JsonTree)>,
    after: Seq<(Seq<char>, JsonTree)>,
    key: Seq<char>,
    value: JsonTree,
)
    requires
        distinct_keys(entries),
        after.len() == entries.len(),
        forall|i: int|
            0 <= i < entries.len() ==> #[trigger] after[i] == (if entries[i].0 == key {
                (key, value)
            } else {
                entries[i]
            }),
    ensures
        working_count(after) <= working_count(entries) + (if in_state(value, "working"@) {
            1nat
        } else {
            0
        }),
    decreases entries.len(),
{
    reveal(Seq::filter);
    if entries.len() > 0 {
        let rest = entries.drop_last();
        if entries.last().0 == key {
            assert forall|i: int| 0 <= i < rest.len() implies after.drop_last()[i] == rest[i] by {
                assert(entries[i].0 != entries[entries.len() - 1].0);
            }
            assert(after.drop_last() =~= rest);
        } else {
            lemma_working_replace(rest, after.drop_last(), key, value);
        }
    }
}

/// Admission: no call takes the number of tasks that are being worked on above the configured
/// limit, and where it is above it already no call takes it higher.
pub proof fn law_calls_respect_limit(
    config: Config,
    model: Model,
    call: CallModel,
    moment: Moment,
    directory: Option<Directory>,
    local: Seq<SummaryModel>,
)
    requires
        model.wf(),
    ensures
        answered(config, model, call, moment, directory, local).0.working() <= model.working()
            || answered(config, model, call, moment, directory, local).0.working()
            <= config.max_concurrent_tasks,
{
    lemma_states_differ();
    assert forall|key: Seq<char>, value: JsonTree| working_count(
        #[trigger] put(model.tasks, key, value),
    ) <= working_count(model.tasks) + (if in_state(value, "working"@) {
        1nat
    } else {
        0
    }) by {
        lemma_working_put(model.tasks, key, value);
    }
    assert forall|
        task_id: Seq<char>,
        state: Seq<char>,
        text: Seq<char>,
        context_id: Seq<char>,
        send_alias: bool,
        context_alias: bool,
        now: u64,
    | in_state(
        #[trigger] annotated(
            task_tree(task_id, state, text, context_id),
            task_id,
            context_id,
            send_alias,
            context_alias,
            now,
        ),
        "working"@,
    ) == (state == "working"@) by {
        lemma_made_state(
            task_id,
            state,
            text,
            context_id,
            arbitrary(),
            arbitrary(),
            send_alias,
            context_alias,
            now,
            "working"@,
        );
    }
    assert forall|task_id: Seq<char>, running: RunningModel, now: u64| !in_state(
        #[trigger] canceled_tree(task_id, running, now),
        "working"@,
    ) by {
        lemma_canceled_state(task_id, running, now);
    }
    assert forall|task_id: Seq<char>, context_id: Seq<char>, now: u64| !in_state(
        #[trigger] withdrawn_tree(task_id, context_id, now),
        "working"@,
    ) by {
        lemma_withdrawn_state(task_id, context_id, now);
    }
    let after = answered(config, model, call, moment, directory, local).0;
    assert(after.working() == working_count(after.tasks));
    assert(model.working() == working_count(model.tasks));
}

/// The end of a run, or the failure to start it, never makes more tasks be worked on.
pub proof fn law_runs_release(
    config: Config,
    model: Model,
    run: RunModel,
    result: ExecutionModel,
    message: Seq<char>,
    trace: JsonTree,
    now: u64,
)
    requires
        model.wf(),
    ensures
        finished(config, model, run, result, trace, now).0.working() <= model.working(),
        start_failed(model, run, message, trace, now).0.working() <= model.working(),
{
    lemma_states_differ();
    assert forall|state: Seq<char>, text: Seq<char>| in_state(
        #[trigger] run.ended_task(state, text, trace, now),
        "working"@,
    ) == (state == "working"@) by {
        lemma_made_state(
            run.task_id,
            state,
            text,
            run.context_id,
            run.options,
            trace,
            run.send_alias,
            run.context_alias,
            now,
            "working"@,
        );
    }
    lemma_working_put(model.tasks, run.task_id, result_task(run, result, trace, now));
    lemma_working_put(model.tasks, run.task_id, run.ended_task("failed"@, message, trace, now));
    let after = finished(config, model, run, result, trace, now).0;
    assert(after.working() == working_count(after.tasks));
    let failed = start_failed(model, run, message, trace, now).0;
    assert(failed.working() == working_count(failed.tasks));
    assert(model.working() == working_count(model.tasks));
}

/// A full server refuses a message that it would take on otherwise, and takes nothing on.
pub proof fn law_full_server_refuses(
    config: Config,
    model: Model,
    id: JsonTree,
    params: JsonTree,
    send_alias: bool,
    moment: Moment,
    directory: Option<Directory>,
)
    requires
        !model.knows(wanted_id(params, moment)),
        options_for(params, config.default_working_directory@, directory) is Ok,
        trimmed(message_text(params.at("message"@))).len() > 0,
        model.working() >= config.max_concurrent_tasks,
    ensures
        sent(config, model, id, params, send_alias, moment, directory).0.tasks == model.tasks,
        sent(config, model, id, params, send_alias, moment, directory).1.start is None,
        sent(config, model, id, params, send_alias, moment, directory).1.payload == error_tree(
            id,
            -32004,
            "Server busy"@,
        ),
{
}

/// A message under the name of a task that is known is refused, and changes nothing.
pub proof fn law_duplicates_are_refused(
    config: Config,
    model: Model,
    id: JsonTree,
    params: JsonTree,
    send_alias: bool,
    moment: Moment,
    directory: Option<Directory>,
)
    requires
        model.knows(wanted_id(params, moment)),
    ensures
        sent(config, model, id, params, send_alias, moment, directory) == (
            model,
            ReplyModel::plain(
                error_tree(id, -32602, "Duplicate task id: "@ + wanted_id(params, moment)),
            ),
        ),
{
}

/// A task that `message/send` keeps is the one that it answers with, and `tasks/get` gives it
/// back.
pub proof fn law_get_after_send(
    config: Config,
    model: Model,
    id: JsonTree,
    params: JsonTree,
    send_alias: bool,
    moment: Moment,
    directory: Option<Directory>,
    get_id: JsonTree,
    get_params: JsonTree,
)
    requires
        model.wf(),
        sent(config, model, id, params, send_alias, moment, directory).1.save_tasks,
        get_params.text_at("id"@) == Some(wanted_id(params, moment)),
    ensures
        exists|task: JsonTree|
            #![trigger result_tree(id, task)]
            sent(config, model, id, params, send_alias, moment, directory).1.payload
                == result_tree(id, task) && got(
                sent(config, model, id, params, send_alias, moment, directory).0,
                get_id,
                get_params,
            ) == ReplyModel::plain(result_tree(get_id, task)),
{
    let (after, reply) = sent(config, model, id, params, send_alias, moment, directory);
    let task_id = wanted_id(params, moment);
    assert forall|value: JsonTree| lookup(#[trigger] put(model.tasks, task_id, value), task_id)
        == Some(value) by {
        lemma_lookup_put(model.tasks, task_id, value, task_id);
    }
    let task = lookup(after.tasks, task_id)->0;
    assert(reply.payload == result_tree(id, task));
}

/// `sessions/resume` binds the context to the session: later runs of the context go on with it.
/// The time of the context's making stays, and other contexts keep their sessions.
pub proof fn law_resume_binds(
    config: Config,
    model: Model,
    id: JsonTree,
    params: JsonTree,
    moment: Moment,
    directory: Option<Directory>,
    other: Seq<char>,
)
    requires
        model.wf(),
        bound_session(params) is Some,
    ensures
        ({
            let context_id = context_key(params, model.contexts_in_use(), moment).0;
            let after = resumed(config, model, id, params, moment, directory).0;
            &&& after.session_of(context_id) == bound_session(params)
            &&& lookup(model.sessions, context_id) matches Some(record) ==> lookup(
                after.sessions,
                context_id,
            )->0.created_at == record.created_at
            &&& other != context_id ==> lookup(after.sessions, other) == lookup(
                model.sessions,
                other,
            )
        }),
{
    let context_id = context_key(params, model.contexts_in_use(), moment).0;
    assert forall|value: ContextModel, key: Seq<char>| #[trigger] lookup(
        put(model.sessions, context_id, value),
        key,
    ) == (if key == context_id {
        Some(value)
    } else {
        lookup(model.sessions, key)
    }) by {
        lemma_lookup_put(model.sessions, context_id, value, key);
    }
}

/// A message that names a session binds its context to it, where the message is not refused for
/// the name of its task.
pub proof fn law_send_binds(
    config: Config,
    model: Model,
    id: JsonTree,
    params: JsonTree,
    send_alias: bool,
    moment: Moment,
    directory: Option<Directory>,
)
    requires
        model.wf(),
        wanted_session(params) is Some,
        !model.knows(wanted_id(params, moment)),
    ensures
        sent(config, model, id, params, send_alias, moment, directory).0.session_of(
            context_key(params, model.contexts_in_use(), moment).0,
        ) == wanted_session(params),
{
    let context_id = context_key(params, model.contexts_in_use(), moment).0;
    assert forall|value: ContextModel| lookup(
        #[trigger] put(model.sessions, context_id, value),
        context_id,
    ) == Some(value) by {
        lemma_lookup_put(model.sessions, context_id, value, context_id);
    }
}

/// The session of a run is the one that later runs of its context go on with, unless the task was
/// canceled.
pub proof fn law_run_binds(
    config: Config,
    model: Model,
    run: RunModel,
    result: ExecutionModel,
    trace: JsonTree,
    now: u64,
)
    requires
        model.wf(),
        !model.canceled(run.task_id),
        result.resume_session_id is Some,
    ensures
        finished(config, model, run, result, trace, now).0.session_of(run.context_id)
            == result.resume_session_id,
{
    assert forall|value: ContextModel| lookup(
        #[trigger] put(model.sessions, run.context_id, value),
        run.context_id,
    ) == Some(value) by {
        lemma_lookup_put(model.sessions, run.context_id, value, run.context_id);
    }
}

/// A run that ends leaves its task completed, failed or canceled.
pub proof fn law_ended_runs_have_ended_tasks(
    config: Config,
    model: Model,
    run: RunModel,
    result: ExecutionModel,
    trace: JsonTree,
    now: u64,
)
    requires
        model.wf(),
    ensures
        ({
            let after = finished(config, model, run, result, trace, now).0;
            &&& lookup(after.tasks, run.task_id) is Some
            &&& is_terminal(state_name(lookup(after.tasks, run.task_id)->0))
        }),
{
    let task = result_task(run, result, trace, now);
    lemma_lookup_put(model.tasks, run.task_id, task, run.task_id);
    assert forall|state: Seq<char>, text: Seq<char>| in_state(
        #[trigger] run.ended_task(state, text, trace, now),
        state,
    ) by {
        lemma_made_state(
            run.task_id,
            state,
            text,
            run.context_id,
            run.options,
            trace,
            run.send_alias,
            run.context_alias,
            now,
            state,
        );
    }
}

/// Each answer is named by its call, and holds a result or an error, and not both.
pub proof fn law_answers_are_named_by_their_call(
    config: Config,
    model: Model,
    call: CallModel,
    moment: Moment,
    directory: Option<Directory>,
    local: Seq<SummaryModel>,
)
    ensures
        ({
            let payload = answered(config, model, call, moment, directory, local).1.payload;
            &&& payload.get("id"@) == Some(call.id)
            &&& payload.text_at("jsonrpc"@) == Some("2.0"@)
            &&& payload.get("result"@) is Some != payload.get("error"@) is Some
        }),
{
    reveal_strlit("id");
    reveal_strlit("jsonrpc");
    reveal_strlit("result");
    reveal_strlit("error");
    assert("id"@.len() == 2);
    assert("jsonrpc"@.len() == 7);
    assert("result"@.len() == 6);
    assert("error"@.len() == 5);
}

/// Canceling a task in flight marks it as canceled, keeps and saves it, and names the process to
/// end where there is one; no other task changes.
pub proof fn law_cancel_marks_one_task(
    model: Model,
    id: JsonTree,
    params: JsonTree,
    now: u64,
    task_id: Seq<char>,
    other: Seq<char>,
)
    requires
        model.wf(),
        canceled_id(params) == Some(task_id),
        model.in_flight(task_id),
        other != task_id,
    ensures
        canceled(model, id, params, now).0.canceled(task_id),
        !canceled(model, id, params, now).0.running_map().dom().contains(task_id),
        canceled(model, id, params, now).1.save_tasks,
        canceled(model, id, params, now).1.cancel == (match lookup(model.running, task_id) {
            Some(running) => Some(running.pid),
            None => None,
        }),
        lookup(canceled(model, id, params, now).0.tasks, other) == lookup(model.tasks, other),
        lookup(canceled(model, id, params, now).0.running, other) == lookup(model.running, other),
{
    lemma_cancel_in_flight(model, id, params, now, task_id);
    assert forall|value: JsonTree| lookup(#[trigger] put(model.tasks, task_id, value), other)
        == lookup(model.tasks, other) by {
        lemma_lookup_put(model.tasks, task_id, value, other);
    }
    lemma_lookup_without(model.running, task_id, task_id);
    lemma_lookup_without(model.running, task_id, other);
}

/// Canceling a task that is in flight or has ended reports it in a state that it does not leave, as
/// it is kept.
pub proof fn law_cancel_reports_an_end(
    model: Model,
    id: JsonTree,
    params: JsonTree,
    now: u64,
    task_id: Seq<char>,
)
    requires
        model.wf(),
        canceled_id(params) == Some(task_id),
        model.in_flight(task_id) || (lookup(model.tasks, task_id) matches Some(task) && has_ended(
            task,
        )),
    ensures
        ({
            let (after, reply) = canceled(model, id, params, now);
            &&& lookup(after.tasks, task_id) matches Some(task)
            &&& has_ended(task)
            &&& reply.payload == result_tree(id, task)
        }),
{
    if model.in_flight(task_id) {
        lemma_cancel_in_flight(model, id, params, now, task_id);
    }
}

/// A task that has been started can be canceled by its name until its run ends.
pub proof fn law_started_tasks_run(
    config: Config,
    model: Model,
    run: RunModel,
    pid: u32,
    now: u64,
    result: ExecutionModel,
    trace: JsonTree,
    later: u64,
)
    requires
        model.wf(),
        !model.canceled(run.task_id),
    ensures
        ({
            let after = started(model, run, pid, now).0;
            &&& lookup(after.running, run.task_id) == Some(
                RunningModel { pid, context_id: run.context_id, started_at: now },
            )
            &&& lookup(
                finished(config, after, run, result, trace, later).0.running,
                run.task_id,
            ) is None
        }),
{
    let record = RunningModel { pid, context_id: run.context_id, started_at: now };
    lemma_put(model.running, run.task_id, record);
    lemma_lookup_without(started(model, run, pid, now).0.running, run.task_id, run.task_id);
}

/// The list of tasks holds each task of the context once, newest first.
pub proof fn law_listed_newest_first(
    tasks: Seq<(Seq<char>, JsonTree)>,
    context: Option<Seq<char>>,
)
    ensures
        is_newest_first(listed(tasks, context), |t: JsonTree| updated_at(t) as int),
        listed(tasks, context).to_multiset() == tasks.map_values(
            |e: (Seq<char>, JsonTree)| e.1,
        ).filter(|t: JsonTree| belongs(t, context)).to_multiset(),
{
    law_newest_first_sorts(
        tasks.map_values(|e: (Seq<char>, JsonTree)| e.1).filter(
            |t: JsonTree| belongs(t, context),
        ),
        |t: JsonTree| updated_at(t) as int,
    );
}

/// The pages that one gets by following the cursors.
pub open spec fn all_pages<T>(items: Seq<T>, cursor: nat, limit: nat) -> Seq<T>
    recommends
        limit > 0,
    decreases items.len() - cursor,
{
    if limit == 0 {
        page(items, cursor, limit)
    } else {
        match next_cursor(items, cursor, limit) {
            Some(next) => page(items, cursor, limit) + all_pages(items, next, limit),
            None => page(items, cursor, limit),
        }
    }
}

/// Following the cursors from a place on gives each item from there on once, in order.
pub proof fn law_pages_cover<T>(items: Seq<T>, cursor: nat, limit: nat)
    requires
        cursor <= items.len(),
        limit > 0,
    ensures
        all_pages(items, cursor, limit) == items.skip(cursor as int),
    decreases items.len() - cursor,
{
    match next_cursor(items, cursor, limit) {
        Some(next) => {
            law_pages_cover(items, next, limit);
        },
        None => {},
    }
    assert(all_pages(items, cursor, limit) =~= items.skip(cursor as int));
}

/// No text is longer than the longest.
proof fn lemma_longest(texts: Seq<Seq<char>>) -> (longest: nat)
    ensures
        forall|i: int| 0 <= i < texts.len() ==> (#[trigger] texts[i]).len() <= longest,
    decreases texts.len(),
{
    if texts.len() == 0 {
        0
    } else {
        let rest = texts.drop_last();
        let most = lemma_longest(rest);
        assert forall|i: int| 0 <= i < texts.len() - 1 implies (#[trigger] texts[i]).len()
            <= most by {
            assert(rest[i].len() <= most);
        }
        if texts.last().len() > most {
            texts.last().len()
        } else {
            most
        }
    }
}

/// Where some number of plus signs makes a free name, there is a smallest one.
proof fn lemma_first_free(base: Seq<char>, taken: Set<Seq<char>>, count: nat, known: nat)
    requires
        count <= known,
        !taken.contains(suffixed(base, known)),
        forall|k: nat| k < count ==> taken.contains(#[trigger] suffixed(base, k)),
    ensures
        exists|n: nat| first_free(base, taken, n),
    decreases known - count,
{
    if taken.contains(suffixed(base, count)) {
        lemma_first_free(base, taken, count + 1, known);
    } else {
        assert(first_free(base, taken, count));
    }
}

/// A request that names no context gets one that is not in use: it has no record, so that its
/// runs go on with no earlier session, and no kept or running task belongs to it.
pub proof fn law_omitted_context_is_fresh(model: Model, params: JsonTree, moment: Moment)
    requires
        context_filter(params).0 is None,
    ensures
        ({
            let context_id = context_key(params, model.contexts_in_use(), moment).0;
            &&& !model.session_map().dom().contains(context_id)
            &&& model.session_of(context_id) is None
            &&& exists|rest: Seq<char>|
                context_id == #[trigger] ("context-"@ + decimal(moment.nanos as nat) + "-"@
                    + decimal(moment.seq as nat) + rest)
            &&& forall|i: int|
                0 <= i < model.tasks.len() ==> (#[trigger] model.tasks[i]).1.text_at("contextId"@)
                    != Some(context_id)
            &&& forall|i: int|
                0 <= i < model.running.len() ==> (#[trigger] model.running[i]).1.context_id
                    != context_id
        }),
{
    let base = stamped("context-"@, moment.nanos, moment.seq);
    let taken = model.contexts_in_use();
    let records = model.sessions.map_values(|e: (Seq<char>, ContextModel)| e.0);
    let kept = model.tasks.map_values(|e: (Seq<char>, JsonTree)| own_context(e.1));
    let run = model.running.map_values(|e: (Seq<char>, RunningModel)| e.1.context_id);
    let known = lemma_longest(records) + lemma_longest(kept) + lemma_longest(run) + 1;
    assert(!model.uses_context(suffixed(base, known))) by {
        let name = suffixed(base, known);
        assert(name.len() >= known);
        lemma_entry_names(model.sessions, name);
        if model.session_map().dom().contains(name) {
            let i = choose|i: int|
                0 <= i < model.sessions.len() && (#[trigger] model.sessions[i]).0 == name;
            assert(records[i] == name);
        }
        assert forall|i: int| 0 <= i < model.tasks.len() implies (
        #[trigger] model.tasks[i]).1.text_at("contextId"@) != Some(name) by {
            assert(kept[i] == own_context(model.tasks[i].1));
        }
        assert forall|i: int| 0 <= i < model.running.len() implies (
        #[trigger] model.running[i]).1.context_id != name by {
            assert(run[i] == model.running[i].1.context_id);
        }
    }
    lemma_first_free(base, taken, 0, known);
    let context_id = context_key(params, taken, moment).0;
    assert(!taken.contains(context_id));
    assert(!model.uses_context(context_id));
    assert(context_id =~= "context-"@ + decimal(moment.nanos as nat) + "-"@ + decimal(
        moment.seq as nat,
    ) + context_id.skip(base.len() as int));
}

/// The old name of the context field names the same context; only the note of its use differs.
pub proof fn law_session_alias(
    named: JsonTree,
    aliased: JsonTree,
    contexts: Set<Seq<char>>,
    moment: Moment,
)
    requires
        named.text_at("contextId"@) is Some,
        aliased.text_at("contextId"@) is None,
        aliased.text_at("sessionId"@) == named.text_at("contextId"@),
    ensures
        context_key(aliased, contexts, moment).0 == context_key(named, contexts, moment).0,
        !context_key(named, contexts, moment).1,
        context_key(aliased, contexts, moment).1,
{
}

/// A task without the note of the method that it was sent by.
pub open spec fn without_send_note(task: JsonTree) -> JsonTree {
    task.with(
        "metadata"@,
        task.at("metadata"@).with("deprecatedTasksSendAliasUsed"@, JsonTree::Null),
    )
}

/// An answer without the note of the method that its task was sent by.
pub open spec fn answer_without_send_note(payload: JsonTree) -> JsonTree {
    match payload.get("result"@) {
        Some(task) => payload.with("result"@, without_send_note(task)),
        None => payload,
    }
}

/// The answer with a result, without the note in it.
proof fn lemma_answer_note(id: JsonTree, task: JsonTree)
    ensures
        answer_without_send_note(result_tree(id, task)) == result_tree(
            id,
            without_send_note(task),
        ),
{
    reveal_strlit("jsonrpc");
    reveal_strlit("result");
    reveal_strlit("id");
    assert("jsonrpc"@.len() == 7);
    assert("result"@.len() == 6);
    assert("id"@.len() == 2);
    let left = answer_without_send_note(result_tree(id, task));
    let right = result_tree(id, without_send_note(task));
    assert(left->Object_0 =~= right->Object_0);
}

/// Annotated tasks differ only in the note of the method that they were sent by.
proof fn lemma_send_note(
    task_id: Seq<char>,
    state: Seq<char>,
    text: Seq<char>,
    context_id: Seq<char>,
    context_alias: bool,
    now: u64,
)
    ensures
        without_send_note(
            annotated(
                task_tree(task_id, state, text, context_id),
                task_id,
                context_id,
                false,
                context_alias,
                now,
            ),
        ) == without_send_note(
            annotated(
                task_tree(task_id, state, text, context_id),
                task_id,
                context_id,
                true,
                context_alias,
                now,
            ),
        ),
{
    lemma_task_fields_differ();
    let tree = task_tree(task_id, state, text, context_id);
    let one = annotated(tree, task_id, context_id, false, context_alias, now);
    let two = annotated(tree, task_id, context_id, true, context_alias, now);
    let first = without_send_note(one)->Object_0;
    let second = without_send_note(two)->Object_0;
    let first_data = first["metadata"@]->Object_0;
    let second_data = second["metadata"@]->Object_0;
    assert(first_data =~= second_data);
    assert(first =~= second);
}

/// The call that sends what a call for a stream sends.
pub open spec fn as_send(call: CallModel) -> CallModel {
    CallModel { method: "message/send"@, ..call }
}

/// A stream takes its task on as `message/send` does, and opens with what that answers: what holds
/// of calls holds of streams.
pub proof fn law_streams_take_tasks_on(
    config: Config,
    model: Model,
    call: CallModel,
    moment: Moment,
    directory: Option<Directory>,
    local: Seq<SummaryModel>,
)
    ensures
        sent(config, model, call.id, call.params, false, moment, directory) == answered(
            config,
            model,
            as_send(call),
            moment,
            directory,
            local,
        ),
{
}

/// What the backend lists matters only to calls that want its sessions.
pub proof fn law_backend_is_asked_only_where_wanted(
    config: Config,
    model: Model,
    call: CallModel,
    moment: Moment,
    directory: Option<Directory>,
    one: Seq<SummaryModel>,
    other: Seq<SummaryModel>,
)
    requires
        backend_limit(config, call) is None,
    ensures
        answered(config, model, call, moment, directory, one) == answered(
            config,
            model,
            call,
            moment,
            directory,
            other,
        ),
{
}

/// What the disk says matters only to calls that want to write in a directory.
pub proof fn law_disk_is_asked_only_where_wanted(
    config: Config,
    model: Model,
    call: CallModel,
    moment: Moment,
    one: Option<Directory>,
    other: Option<Directory>,
    local: Seq<SummaryModel>,
)
    requires
        call_directory(call) is None,
    ensures
        answered(config, model, call, moment, one, local) == answered(
            config,
            model,
            call,
            moment,
            other,
            local,
        ),
        call.method == "message/stream"@ ==> sent(
            config,
            model,
            call.id,
            call.params,
            false,
            moment,
            one,
        ) == sent(config, model, call.id, call.params, false, moment, other),
{
}

/// `tasks/send` does what `message/send` does and answers what it answers; only the note of the
/// method differs.
pub proof fn law_send_alias(
    config: Config,
    model: Model,
    id: JsonTree,
    params: JsonTree,
    moment: Moment,
    directory: Option<Directory>,
    other: Seq<char>,
)
    requires
        model.wf(),
        other != wanted_id(params, moment),
    ensures
        ({
            let task_id = wanted_id(params, moment);
            let (one, first) = sent(config, model, id, params, false, moment, directory);
            let (two, second) = sent(config, model, id, params, true, moment, directory);
            &&& one.sessions == two.sessions
            &&& one.running == two.running
            &&& lookup(one.tasks, other) == lookup(two.tasks, other)
            &&& lookup(one.tasks, task_id) is Some == lookup(two.tasks, task_id) is Some
            &&& lookup(one.tasks, task_id) matches Some(task) ==> without_send_note(task)
                == without_send_note(lookup(two.tasks, task_id)->0)
            &&& first.status == second.status
            &&& answer_without_send_note(first.payload) == answer_without_send_note(
                second.payload,
            )
            &&& first.cancel == second.cancel
            &&& first.save_tasks == second.save_tasks
            &&& first.save_contexts == second.save_contexts
            &&& first.start is Some == second.start is Some
            &&& first.start matches Some(run) ==> second.start == Some(
                RunModel { send_alias: true, ..run },
            )
        }),
{
    let task_id = wanted_id(params, moment);
    assert forall|value: JsonTree, key: Seq<char>| #[trigger] lookup(
        put(model.tasks, task_id, value),
        key,
    ) == (if key == task_id {
        Some(value)
    } else {
        lookup(model.tasks, key)
    }) by {
        lemma_lookup_put(model.tasks, task_id, value, key);
    }
    let (context_id, context_alias) = context_key(params, model.contexts_in_use(), moment);
    assert forall|state: Seq<char>, text: Seq<char>| #[trigger] without_send_note(
        annotated(
            task_tree(task_id, state, text, context_id),
            task_id,
            context_id,
            false,
            context_alias,
            moment.now,
        ),
    ) == without_send_note(
        annotated(
            task_tree(task_id, state, text, context_id),
            task_id,
            context_id,
            true,
            context_alias,
            moment.now,
        ),
    ) by {
        lemma_send_note(task_id, state, text, context_id, context_alias, moment.now);
    }
    assert forall|task: JsonTree| #[trigger] answer_without_send_note(result_tree(id, task))
        == result_tree(id, without_send_note(task)) by {
        lemma_answer_note(id, task);
    }
}

/// Without a token that is configured no request gets anything: each is answered with a refusal.
pub proof fn law_no_token_no_answer(config: Config, request: RequestModel)
    ensures
        routed(config, request, None) matches PlanModel::Answer(status, payload) && (status == 403
            || status == 401),
{
}

/// A request from a source that is not allowed is forbidden, whatever it asks for and whatever
/// token it has.
pub proof fn law_foreign_sources_are_forbidden(
    config: Config,
    request: RequestModel,
    expected: Option<Seq<char>>,
)
    requires
        !source_allowed(request.peer_ip, config.allowed_sources@),
    ensures
        routed(config, request, expected) matches PlanModel::Answer(status, payload) && status
            == 403,
{
}

/// A request without the token is answered with status 401 or 403, whatever it asks for.
pub proof fn law_all_requests_need_token(
    config: Config,
    request: RequestModel,
    expected: Option<Seq<char>>,
)
    requires
        !is_authorized(request.header("authorization"@), expected),
    ensures
        routed(config, request, expected) matches PlanModel::Answer(status, payload) && (status
            == 401 || status == 403),
{
}

/// Both names of the agent card give the same card.
pub proof fn law_card_has_two_names(
    config: Config,
    first: RequestModel,
    second: RequestModel,
    expected: Option<Seq<char>>,
)
    requires
        first.is_page("/.well-known/agent.json"@),
        second == (RequestModel { path: "/.well-known/agent-card.json"@, ..first }),
    ensures
        routed(config, first, expected) == routed(config, second, expected),
        source_allowed(first.peer_ip, config.allowed_sources@)
            && is_authorized(first.header("authorization"@), expected) ==> routed(
            config,
            first,
            expected,
        ) == PlanModel::Answer(200, agent_card_tree(config.public_url@)),
{
    reveal_strlit("/.well-known/agent.json");
    reveal_strlit("/.well-known/agent-card.json");
    reveal_strlit("/health");
    reveal_strlit("GET");
    reveal_strlit("POST");
    assert("/.well-known/agent.json"@.len() == 23);
    assert("/.well-known/agent-card.json"@.len() == 28);
    assert("/health"@.len() == 7);
    assert("GET"@.len() == 3);
    assert("POST"@.len() == 4);
}

/// Where local sessions are not exposed, what the backend knows of them does not show.
pub proof fn law_local_sessions_stay_hidden(
    config: Config,
    model: Model,
    id: JsonTree,
    params: JsonTree,
    local: Seq<SummaryModel>,
    other: Seq<SummaryModel>,
)
    requires
        !config.expose_local_sessions,
    ensures
        sessions_reply(config, model, id, params, local) == sessions_reply(
            config,
            model,
            id,
            params,
            other,
        ),
{
}

/// What is readable with some levels is readable with more.
proof fn lemma_readable_more(tree: JsonTree, levels: nat, more: nat)
    requires
        readable(tree, levels),
        levels <= more,
    ensures
        readable(tree, more),
    decreases levels,
{
    match tree {
        JsonTree::Array(items) => {
            assert forall|i: int| 0 <= i < items.len() implies readable(
                #[trigger] items[i],
                (more - 1) as nat,
            ) by {
                lemma_readable_more(items[i], (levels - 1) as nat, (more - 1) as nat);
            }
        },
        JsonTree::Object(fields) => {
            assert forall|k: Seq<char>| fields.dom().contains(k) implies readable(
                #[trigger] fields[k],
                (more - 1) as nat,
            ) by {
                lemma_readable_more(fields[k], (levels - 1) as nat, (more - 1) as nat);
            }
        },
        _ => {},
    }
}

/// A field of a readable object is readable.
proof fn lemma_readable_field(fields: Map<Seq<char>, JsonTree>, key: Seq<char>, levels: nat)
    requires
        readable(JsonTree::Object(fields), levels),
        fields.dom().contains(key),
    ensures
        levels > 0,
        readable(fields[key], (levels - 1) as nat),
{
    let tree = JsonTree::Object(fields);
    assert(readable(tree->Object_0[key], (levels - 1) as nat));
}

/// A field that is readable keeps an object readable.
proof fn lemma_readable_with(tree: JsonTree, key: Seq<char>, value: JsonTree, levels: nat)
    requires
        levels > 0,
        readable(tree, levels),
        readable(value, (levels - 1) as nat),
    ensures
        readable(tree.with(key, value), levels),
{
}

/// An object of readable fields is readable, field by field.
proof fn lemma_readable_fields(levels: nat)
    requires
        levels > 0,
    ensures
        readable(JsonTree::object(), levels),
        forall|tree: JsonTree, key: Seq<char>, value: JsonTree|
            #![trigger readable(tree.with(key, value), levels)]
            readable(tree, levels) && readable(value, (levels - 1) as nat) ==> readable(
                tree.with(key, value),
                levels,
            ),
{
    assert forall|tree: JsonTree, key: Seq<char>, value: JsonTree|
        #![trigger readable(tree.with(key, value), levels)]
        readable(tree, levels) && readable(value, (levels - 1) as nat) implies readable(
        tree.with(key, value),
        levels,
    ) by {
        lemma_readable_with(tree, key, value, levels);
    }
}

/// What a git command said can be read back.
proof fn lemma_capture_readable(outcome: GitOutcome)
    ensures
        readable(capture_tree(outcome), 1),
{
    lemma_readable_fields(1);
}

/// The git trace of a run can be read back.
pub proof fn law_traces_can_be_read_back(
    options: OptionsModel,
    head_before: GitOutcome,
    status_before: GitOutcome,
    head: GitOutcome,
    status: GitOutcome,
    diff: GitOutcome,
    diff_stat: GitOutcome,
)
    ensures
        readable(
            after_tree(
                before_tree(options, capture_tree(head_before), capture_tree(status_before)),
                capture_tree(head),
                capture_tree(status),
                capture_tree(diff),
                capture_tree(diff_stat),
            ),
            3,
        ),
{
    lemma_capture_readable(head_before);
    lemma_capture_readable(status_before);
    lemma_capture_readable(head);
    lemma_capture_readable(status);
    lemma_capture_readable(diff);
    lemma_capture_readable(diff_stat);
    lemma_readable_fields(2);
    lemma_readable_fields(3);
}

/// Tasks that are made here can be read back, where their trace can.
proof fn lemma_task_readable(
    task_id: Seq<char>,
    state: Seq<char>,
    text: Seq<char>,
    context_id: Seq<char>,
    options: OptionsModel,
    trace: JsonTree,
    send_alias: bool,
    context_alias: bool,
    now: u64,
)
    requires
        readable(trace, 3),
    ensures
        readable(
            annotated(
                task_tree(task_id, state, text, context_id),
                task_id,
                context_id,
                send_alias,
                context_alias,
                now,
            ),
            8,
        ),
        readable(
            annotated(
                traced_tree(task_id, state, text, context_id, options, trace),
                task_id,
                context_id,
                send_alias,
                context_alias,
                now,
            ),
            8,
        ),
{
    lemma_task_fields_differ();
    lemma_readable_fields(4);
    lemma_readable_fields(6);
    lemma_readable_fields(7);
    lemma_readable_fields(8);
    assert(readable(text_artifact(text), 6)) by {
        let part = JsonTree::object().with("type"@, JsonTree::Text("text"@)).with(
            "text"@,
            JsonTree::Text(text),
        );
        assert(readable(part, 4));
        assert(readable(JsonTree::Array(seq![part]), 5));
    }
    assert(readable(trace_artifact(trace), 6)) by {
        let part = JsonTree::object().with("type"@, JsonTree::Text("data"@)).with("data"@, trace);
        assert(readable(part, 4));
        assert(readable(JsonTree::Array(seq![part]), 5));
    }
    assert(readable(JsonTree::Array(seq![text_artifact(text)]), 7));
    assert(readable(JsonTree::Array(seq![text_artifact(text), trace_artifact(trace)]), 7));
    let status = JsonTree::object().with("state"@, JsonTree::Text(state));
    assert(readable(status, 7));
    assert(readable(options_tree(options), 7));
    let plain = task_tree(task_id, state, text, context_id);
    assert(readable(plain, 8));
    let traced = traced_tree(task_id, state, text, context_id, options, trace);
    assert(readable(traced, 8));
    assert(readable(metadata_of(plain), 7));
    assert(readable(metadata_of(traced), 7));
}

/// Each task that is kept can be read back from the registry file.
pub open spec fn durable(model: Model) -> bool {
    readable(JsonTree::Object(model.task_map()), 127)
}

/// A readable task keeps the tasks durable.
proof fn lemma_durable_with(model: Model, task_id: Seq<char>, task: JsonTree)
    requires
        model.wf(),
        durable(model),
        readable(task, 8),
    ensures
        durable(model.with_task(task_id, task)),
{
    lemma_put(model.tasks, task_id, task);
    lemma_readable_more(task, 8, 126);
    let before = model.task_map();
    let after = model.with_task(task_id, task).task_map();
    assert forall|k: Seq<char>| after.dom().contains(k) implies readable(
        #[trigger] after[k],
        126,
    ) by {
        if k != task_id {
            lemma_readable_field(before, k, 127);
        }
    }
}

/// What calls and runs keep stays readable from the registry file: no task is lost to what the
/// file cannot hold.
pub proof fn law_calls_keep_tasks_durable(
    config: Config,
    model: Model,
    call: CallModel,
    moment: Moment,
    directory: Option<Directory>,
    local: Seq<SummaryModel>,
)
    requires
        model.wf(),
        durable(model),
    ensures
        durable(answered(config, model, call, moment, directory, local).0),
{
    assert forall|task_id: Seq<char>, task: JsonTree| readable(task, 8) implies readable(
        JsonTree::Object(entry_map(#[trigger] put(model.tasks, task_id, task))),
        127,
    ) by {
        lemma_durable_with(model, task_id, task);
    }
    assert forall|
        task_id: Seq<char>,
        state: Seq<char>,
        text: Seq<char>,
        context_id: Seq<char>,
        send_alias: bool,
        context_alias: bool,
        now: u64,
    | readable(
        #[trigger] annotated(
            task_tree(task_id, state, text, context_id),
            task_id,
            context_id,
            send_alias,
            context_alias,
            now,
        ),
        8,
    ) by {
        lemma_task_readable(
            task_id,
            state,
            text,
            context_id,
            arbitrary(),
            JsonTree::Null,
            send_alias,
            context_alias,
            now,
        );
    }
    assert forall|task_id: Seq<char>, running: RunningModel, now: u64| readable(
        #[trigger] canceled_tree(task_id, running, now),
        8,
    ) by {
        lemma_task_readable(
            task_id,
            "canceled"@,
            "Task canceled by tasks/cancel"@,
            running.context_id,
            arbitrary(),
            JsonTree::Null,
            false,
            false,
            now,
        );
        lemma_readable_fields(7);
        lemma_readable_fields(8);
        lemma_task_fields_differ();
    }
    assert forall|task_id: Seq<char>, context_id: Seq<char>, now: u64| readable(
        #[trigger] withdrawn_tree(task_id, context_id, now),
        8,
    ) by {
        lemma_task_readable(
            task_id,
            "canceled"@,
            "Task canceled by tasks/cancel"@,
            context_id,
            arbitrary(),
            JsonTree::Null,
            false,
            false,
            now,
        );
        lemma_readable_fields(7);
        lemma_readable_fields(8);
        lemma_task_fields_differ();
    }
}

/// The end of a run keeps the tasks readable from the registry file, where its git trace is.
pub proof fn law_runs_keep_tasks_durable(
    config: Config,
    model: Model,
    run: RunModel,
    result: ExecutionModel,
    message: Seq<char>,
    trace: JsonTree,
    now: u64,
)
    requires
        model.wf(),
        durable(model),
        readable(trace, 3),
    ensures
        durable(finished(config, model, run, result, trace, now).0),
        durable(start_failed(model, run, message, trace, now).0),
{
    assert forall|state: Seq<char>, text: Seq<char>| readable(
        #[trigger] run.ended_task(state, text, trace, now),
        8,
    ) by {
        lemma_task_readable(
            run.task_id,
            state,
            text,
            run.context_id,
            run.options,
            trace,
            run.send_alias,
            run.context_alias,
            now,
        );
    }
    lemma_durable_with(model, run.task_id, result_task(run, result, trace, now));
    lemma_durable_with(model, run.task_id, run.ended_task("failed"@, message, trace, now));
    assert(finished(config, model, run, result, trace, now).0.tasks == model.tasks || finished(
        config,
        model,
        run,
        result,
        trace,
        now,
    ).0.tasks == model.with_task(run.task_id, result_task(run, result, trace, now)).tasks);
}

/// Decimal numerals hold digits alone.
pub proof fn lemma_decimal_digits(n: nat, i: int)
    requires
        0 <= i < decimal(n).len(),
    ensures
        decimal(n)[i] != '-',
    decreases n,
{
    if n >= 10 && i < decimal(n).len() - 1 {
        lemma_decimal_digits(n / 10, i);
    }
}

/// Different numbers have different numerals.
pub proof fn lemma_decimal_differs(a: nat, b: nat)
    requires
        decimal(a) == decimal(b),
    ensures
        a == b,
    decreases a,
{
    lemma_decimal_length(a);
    lemma_decimal_length(b);
    if a < 10 && b < 10 {
        assert(decimal(a)[0] == decimal(b)[0]);
        assert(decimal(a)[0] == digit(a) && decimal(b)[0] == digit(b));
        assert(digit(a) as int == 48 + a && digit(b) as int == 48 + b);
    } else {
        assert(decimal(a).last() == decimal(b).last());
        assert(decimal(a).last() == digit(a % 10) && decimal(b).last() == digit(b % 10));
        assert(digit(a % 10) as int == 48 + a % 10 && digit(b % 10) as int == 48 + b % 10);
        assert(decimal(a).drop_last() =~= decimal(a / 10));
        assert(decimal(b).drop_last() =~= decimal(b / 10));
        lemma_decimal_differs(a / 10, b / 10);
    }
}

/// A numeral has one digit exactly where the number is below ten.
proof fn lemma_decimal_length(n: nat)
    ensures
        decimal(n).len() > 0,
        decimal(n).len() == 1 <==> n < 10,
    decreases n,
{
    if n >= 10 {
        lemma_decimal_length(n / 10);
        assert(decimal(n).len() == decimal(n / 10).len() + 1);
    }
}

/// Names that are made for different requests differ.
pub proof fn law_new_names_differ(
    prefix: Seq<char>,
    nanos: u128,
    seq: u64,
    other_nanos: u128,
    other_seq: u64,
)
    requires
        stamped(prefix, nanos, seq) == stamped(prefix, other_nanos, other_seq),
    ensures
        nanos == other_nanos,
        seq == other_seq,
{
    reveal_strlit("-");
    let one = stamped(prefix, nanos, seq);
    let two = stamped(prefix, other_nanos, other_seq);
    let p = prefix.len() as int;
    let a = decimal(nanos as nat);
    let b = decimal(other_nanos as nat);
    if a.len() < b.len() {
        assert(one[p + a.len()] == '-');
        assert(two[p + a.len()] == b[a.len() as int]);
        lemma_decimal_digits(other_nanos as nat, a.len() as int);
    } else if b.len() < a.len() {
        assert(two[p + b.len()] == '-');
        assert(one[p + b.len()] == a[b.len() as int]);
        lemma_decimal_digits(nanos as nat, b.len() as int);
    }
    assert(one.subrange(p, p + a.len()) =~= a);
    assert(two.subrange(p, p + a.len()) =~= b);
    lemma_decimal_differs(nanos as nat, other_nanos as nat);
    assert(one.skip(p + a.len() + 1) =~= decimal(seq as nat));
    assert(two.skip(p + a.len() + 1) =~= decimal(other_seq as nat));
    lemma_decimal_differs(seq as nat, other_seq as nat);
}

/// Something that happens to the server.
pub enum Step {
    /// A call is answered.
    Call(CallModel, Moment, Option<Directory>, Seq<SummaryModel>),
    /// A stream is opened by a call.
    Stream(CallModel, Moment, Option<Directory>),
    /// A run is started by a process.
    Started(RunModel, u32, u64),
    /// A run cannot be started.
    StartFailed(RunModel, Seq<char>, JsonTree, u64),
    /// A run ends.
    Finished(RunModel, ExecutionModel, JsonTree, u64),
}

impl Step {
    /// The git trace of the step can be read back.
    pub open spec fn has_readable_trace(self) -> bool {
        match self {
            Step::StartFailed(_, _, trace, _) => readable(trace, 3),
            Step::Finished(_, _, trace, _) => readable(trace, 3),
            _ => true,
        }
    }
}

/// What the server keeps after a step.
pub open spec fn after_step(config: Config, model: Model, step: Step) -> Model {
    match step {
        Step::Call(call, moment, directory, local) => answered(
            config,
            model,
            call,
            moment,
            directory,
            local,
        ).0,
        Step::Stream(call, moment, directory) => sent(
            config,
            model,
            call.id,
            call.params,
            false,
            moment,
            directory,
        ).0,
        Step::Started(run, pid, now) => started(model, run, pid, now).0,
        Step::StartFailed(run, message, trace, now) => start_failed(
            model,
            run,
            message,
            trace,
            now,
        ).0,
        Step::Finished(run, result, trace, now) => finished(
            config,
            model,
            run,
            result,
            trace,
            now,
        ).0,
    }
}

/// What the server keeps after the steps.
pub open spec fn after_steps(config: Config, model: Model, steps: Seq<Step>) -> Model
    decreases steps.len(),
{
    if steps.len() == 0 {
        model
    } else {
        after_step(config, after_steps(config, model, steps.drop_last()), steps.last())
    }
}

/// A step keeps one entry of each name.
proof fn lemma_step_keeps_wf(config: Config, model: Model, step: Step)
    requires
        model.wf(),
    ensures
        after_step(config, model, step).wf(),
{
    assert forall|key: Seq<char>, value: JsonTree| distinct_keys(
        #[trigger] put(model.tasks, key, value),
    ) by {
        lemma_put(model.tasks, key, value);
    }
    assert forall|key: Seq<char>, value: ContextModel| distinct_keys(
        #[trigger] put(model.sessions, key, value),
    ) by {
        lemma_put(model.sessions, key, value);
    }
    assert forall|key: Seq<char>, value: RunningModel| distinct_keys(
        #[trigger] put(model.running, key, value),
    ) by {
        lemma_put(model.running, key, value);
    }
    assert forall|key: Seq<char>| distinct_keys(#[trigger] without(model.running, key)) by {
        lemma_without(model.running, key);
    }
}

/// Over any calls, streams and runs, in any order, there is one entry of each name, no more tasks are being
/// worked on than the configuration allows or were at first, and each task can be read back from
/// the registry file.
pub proof fn law_every_state_is_sound(config: Config, model: Model, steps: Seq<Step>)
    requires
        model.wf(),
        durable(model),
        forall|i: int| 0 <= i < steps.len() ==> (#[trigger] steps[i]).has_readable_trace(),
    ensures
        after_steps(config, model, steps).wf(),
        durable(after_steps(config, model, steps)),
        after_steps(config, model, steps).working() <= model.working() || after_steps(
            config,
            model,
            steps,
        ).working() <= config.max_concurrent_tasks,
    decreases steps.len(),
{
    if steps.len() > 0 {
        let rest = steps.drop_last();
        assert forall|i: int| 0 <= i < rest.len() implies (
        #[trigger] rest[i]).has_readable_trace() by {
            assert(rest[i] == steps[i]);
        }
        law_every_state_is_sound(config, model, rest);
        let before = after_steps(config, model, rest);
        let step = steps.last();
        assert(steps[steps.len() - 1].has_readable_trace());
        lemma_step_keeps_wf(config, before, step);
        match step {
            Step::Call(call, moment, directory, local) => {
                law_calls_respect_limit(config, before, call, moment, directory, local);
                law_calls_keep_tasks_durable(config, before, call, moment, directory, local);
            },
            Step::Stream(call, moment, directory) => {
                let send = as_send(call);
                law_streams_take_tasks_on(config, before, call, moment, directory, Seq::empty());
                law_calls_respect_limit(config, before, send, moment, directory, Seq::empty());
                law_calls_keep_tasks_durable(config, before, send, moment, directory, Seq::empty());
            },
            Step::Started(run, pid, now) => {},
            Step::StartFailed(run, message, trace, now) => {
                law_runs_release(config, before, run, arbitrary(), message, trace, now);
                law_runs_keep_tasks_durable(
                    config,
                    before,
                    run,
                    arbitrary(),
                    message,
                    trace,
                    now,
                );
            },
            Step::Finished(run, result, trace, now) => {
                law_runs_release(config, before, run, result, ""@, trace, now);
                law_runs_keep_tasks_durable(config, before, run, result, ""@, trace, now);
            },
        }
    }
}

/// A task is being worked on, or it is in a state that it does not leave.
pub open spec fn is_tracked(task: JsonTree) -> bool {
    in_state(task, "working"@) || has_ended(task)
}

/// Each kept task is being worked on or has ended.
pub open spec fn all_tracked(model: Model) -> bool {
    forall|i: int| 0 <= i < model.tasks.len() ==> is_tracked((#[trigger] model.tasks[i]).1)
}

/// A step keeps each task worked on or ended.
proof fn lemma_step_keeps_tracked(config: Config, model: Model, step: Step)
    requires
        all_tracked(model),
    ensures
        all_tracked(after_step(config, model, step)),
{
    lemma_states_differ();
    let after = after_step(config, model, step).tasks;
    assert forall|key: Seq<char>, value: JsonTree, i: int|
        is_tracked(value) && 0 <= i < put(model.tasks, key, value).len() implies is_tracked(
        (#[trigger] put(model.tasks, key, value)[i]).1,
    ) by {
        if i < model.tasks.len() {
            assert(is_tracked(model.tasks[i].1));
        }
    }
    assert forall|
        task_id: Seq<char>,
        state: Seq<char>,
        text: Seq<char>,
        context_id: Seq<char>,
        send_alias: bool,
        context_alias: bool,
        now: u64,
    | in_state(
        #[trigger] annotated(
            task_tree(task_id, state, text, context_id),
            task_id,
            context_id,
            send_alias,
            context_alias,
            now,
        ),
        state,
    ) by {
        lemma_made_state(
            task_id,
            state,
            text,
            context_id,
            arbitrary(),
            arbitrary(),
            send_alias,
            context_alias,
            now,
            state,
        );
    }
    assert forall|run: RunModel, state: Seq<char>, text: Seq<char>, trace: JsonTree, now: u64|
        in_state(#[trigger] run.ended_task(state, text, trace, now), state) by {
        lemma_made_state(
            run.task_id,
            state,
            text,
            run.context_id,
            run.options,
            trace,
            run.send_alias,
            run.context_alias,
            now,
            state,
        );
    }
    assert forall|task_id: Seq<char>, running: RunningModel, now: u64| in_state(
        #[trigger] canceled_tree(task_id, running, now),
        "canceled"@,
    ) by {
        lemma_canceled_state(task_id, running, now);
    }
    assert forall|task_id: Seq<char>, context_id: Seq<char>, now: u64| in_state(
        #[trigger] withdrawn_tree(task_id, context_id, now),
        "canceled"@,
    ) by {
        lemma_withdrawn_state(task_id, context_id, now);
    }
    assert(after == model.tasks || exists|key: Seq<char>, value: JsonTree|
        is_tracked(value) && after == #[trigger] put(model.tasks, key, value));
}

/// Over any calls, streams and runs each kept task is being worked on or has ended, where it was
/// so at first: canceling a task that the server made always reports an end.
pub proof fn law_tasks_work_or_have_ended(config: Config, model: Model, steps: Seq<Step>)
    requires
        all_tracked(model),
    ensures
        all_tracked(after_steps(config, model, steps)),
    decreases steps.len(),
{
    if steps.len() > 0 {
        let rest = steps.drop_last();
        law_tasks_work_or_have_ended(config, model, rest);
        lemma_step_keeps_tracked(config, after_steps(config, model, rest), steps.last());
    }
}

/// A step leaves a canceled task canceled.
#[verifier::spinoff_prover]
proof fn lemma_step_keeps_canceled(config: Config, model: Model, step: Step, task_id: Seq<char>)
    requires
        model.wf(),
        model.canceled(task_id),
    ensures
        after_step(config, model, step).canceled(task_id),
{
    lemma_states_differ();
    assert forall|key: Seq<char>, value: JsonTree| key != task_id implies lookup(
        #[trigger] put(model.tasks, key, value),
        task_id,
    ) == lookup(model.tasks, task_id) by {
        lemma_lookup_put(model.tasks, key, value, task_id);
    }
    assert forall|running: RunningModel, now: u64| lookup(
        #[trigger] put(model.tasks, task_id, canceled_tree(task_id, running, now)),
        task_id,
    ) matches Some(task) && in_state(task, "canceled"@) by {
        lemma_lookup_put(model.tasks, task_id, canceled_tree(task_id, running, now), task_id);
        lemma_canceled_state(task_id, running, now);
    }
}

/// Over any calls, streams and runs a canceled task stays canceled.
pub proof fn law_canceled_for_good(
    config: Config,
    model: Model,
    steps: Seq<Step>,
    task_id: Seq<char>,
)
    requires
        model.wf(),
        model.canceled(task_id),
    ensures
        after_steps(config, model, steps).wf(),
        after_steps(config, model, steps).canceled(task_id),
    decreases steps.len(),
{
    if steps.len() > 0 {
        let rest = steps.drop_last();
        law_canceled_for_good(config, model, rest, task_id);
        let before = after_steps(config, model, rest);
        lemma_step_keeps_wf(config, before, steps.last());
        lemma_step_keeps_canceled(config, before, steps.last(), task_id);
    }
}

} // verus!
