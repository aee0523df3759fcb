//! What holds of every run through `codex app-server`: what it is sent, and what is made of what it
//! says.

use crate::backend::cli::event_on;
use crate::backend::cli_laws::{
    ends_with, holds_text, lemma_first_text, lemma_preamble, lemma_wrapped, preamble_of,
};
use crate::backend::native::{
    attempt_words, call_stepped, cancel_stepped, closed_before, debug_text, finish_stepped,
    initialize_tree, line_of, list_tree, listed_threads, nameless, notification_tree, request_id,
    request_tree, run_ended, run_started, run_stepped, start_stepped, thread_model, thread_models,
    ActionModel, AttemptError, CallModel, CancelModel, FinishStep, NativeWire, PhaseModel, RunEvent,
    RunTask, StartModel,
};
use crate::json::{compact_bytes, compact_text, parsed_bytes, JsonTree};
use crate::laws::lemma_decimal_differs;
use crate::names::lemma_native_names;
use crate::text::{decimal, first_chars, joined, replaced, trimmed};
use vstd::prelude::*;
use vstd::utf8::*;

verus! {

/// The event is the answer to the request with the name.
pub open spec fn answers(event: RunEvent, id: Seq<char>) -> Option<JsonTree> {
    match event {
        RunEvent::Line(line) => match event_on(line@) {
            Some(answer) => if answer.text_at("id"@) == Some(id) {
                Some(answer)
            } else {
                None
            },
            None => None,
        },
        _ => None,
    }
}

/// A run begins with a request for its thread: one that resumes the session which it was given, or
/// starts a new one, in the directory and the sandbox of its options, and that never asks for
/// approval. The run then waits for the answer to that request.
pub proof fn law_threads_are_opened_as_asked(task: RunTask, seq: u64)
    ensures
        ({
            let (phase, action) = run_started(task, seq);
            &&& action matches ActionModel::Send(message)
            &&& phase matches PhaseModel::Opening(id)
            &&& message.text_at("id"@) == Some(id)
            &&& message.text_at("method"@) == Some(
                if task.session is Some {
                    "thread/resume"@
                } else {
                    "thread/start"@
                },
            )
            &&& message.at("params"@).text_at("threadId"@) == task.session
            &&& message.at("params"@).text_at("cwd"@) == Some(task.options.working_directory)
            &&& message.at("params"@).text_at("sandbox"@) == Some(task.options.sandbox_mode)
            &&& message.at("params"@).text_at("approvalPolicy"@) == Some("never"@)
            &&& message.at("params"@).get("persistExtendedHistory"@) == Some(JsonTree::Bool(true))
            &&& message.at("params"@).get("excludeTurns"@) == (if task.session is Some {
                Some(JsonTree::Bool(true))
            } else {
                None
            })
            &&& message.get("jsonrpc"@) == (if task.wire.include_jsonrpc {
                Some(JsonTree::Text("2.0"@))
            } else {
                None
            })
        }),
{
    lemma_native_names();
}

/// Permissions are granted to runs that may write, and to no others.
pub proof fn law_threads_grant_permissions_to_writers(task: RunTask, seq: u64)
    ensures
        ({
            let granted = run_started(task, seq).1->Send_0.at("params"@).at("config"@).at(
                "sandbox_permissions"@,
            );
            if task.options.write_enabled && task.permissions.len() > 0 {
                &&& granted matches JsonTree::Array(items)
                &&& items.len() == task.permissions.len()
                &&& forall|i: int|
                    0 <= i < items.len() ==> #[trigger] items[i] == JsonTree::Text(
                        task.permissions[i],
                    )
            } else {
                granted is Null
            }
        }),
{
    lemma_native_names();
}

/// Once its thread is open, a run sends its request as a turn of that thread: one input text, which
/// ends with the prompt after a word on the mode, in the directory of its options. The run then
/// waits for the answer to that request.
pub proof fn law_turns_are_given_the_prompt(
    task: RunTask,
    id: Seq<char>,
    event: RunEvent,
    thread_id: Seq<char>,
    seq: u64,
)
    requires
        answers(event, id) matches Some(answer) && answer.get("error"@) is None && answer.at(
            "result"@,
        ).at("thread"@).text_at("id"@) == Some(thread_id),
    ensures
        ({
            let (phase, action) = run_stepped(task, PhaseModel::Opening(id), event, seq);
            &&& action matches ActionModel::Send(message)
            &&& phase matches PhaseModel::Starting(thread, next)
            &&& thread == thread_id
            &&& message.text_at("id"@) == Some(next)
            &&& message.text_at("method"@) == Some("turn/start"@)
            &&& message.at("params"@).text_at("threadId"@) == Some(thread_id)
            &&& message.at("params"@).text_at("cwd"@) == Some(task.options.working_directory)
            &&& message.at("params"@).text_at("approvalPolicy"@) == Some("never"@)
            &&& message.at("params"@).at("input"@) matches JsonTree::Array(input)
            &&& input.len() == 1
            &&& input[0].text_at("type"@) == Some("text"@)
            &&& input[0].text_at("text"@) matches Some(given)
            &&& ends_with(given, task.prompt)
            &&& ends_with(preamble_of(given, task.prompt), "\n\nRequest:\n"@)
            &&& task.options.write_enabled ==> holds_text(
                preamble_of(given, task.prompt),
                "You are allowed to write files only inside the configured workspace"@,
            )
            &&& !task.options.write_enabled ==> holds_text(
                preamble_of(given, task.prompt),
                "You are running in read-only mode"@,
            )
            &&& message.get("jsonrpc"@) == (if task.wire.include_jsonrpc {
                Some(JsonTree::Text("2.0"@))
            } else {
                None
            })
        }),
{
    lemma_native_names();
    lemma_wrapped(task.prompt, task.options.write_enabled);
    lemma_preamble(task.options.write_enabled);
}

/// Two runs that differ in their prompts send different turns.
pub proof fn law_prompts_tell_turns_apart(
    one: RunTask,
    other: RunTask,
    id: Seq<char>,
    event: RunEvent,
    thread_id: Seq<char>,
    seq: u64,
)
    requires
        answers(event, id) matches Some(answer) && answer.get("error"@) is None && answer.at(
            "result"@,
        ).at("thread"@).text_at("id"@) == Some(thread_id),
        one.options == other.options,
        one.prompt != other.prompt,
    ensures
        run_stepped(one, PhaseModel::Opening(id), event, seq).1->Send_0.at("params"@).at("input"@)
            != run_stepped(other, PhaseModel::Opening(id), event, seq).1->Send_0.at("params"@).at(
            "input"@,
        ),
{
    law_turns_are_given_the_prompt(one, id, event, thread_id, seq);
    law_turns_are_given_the_prompt(other, id, event, thread_id, seq);
    lemma_native_names();
    lemma_wrapped(one.prompt, one.options.write_enabled);
    lemma_wrapped(other.prompt, other.options.write_enabled);
    let first = run_stepped(one, PhaseModel::Opening(id), event, seq).1->Send_0.at("params"@).at(
        "input"@,
    )->Array_0[0].text_at("text"@)->0;
    let second = run_stepped(other, PhaseModel::Opening(id), event, seq).1->Send_0.at(
        "params"@,
    ).at("input"@)->Array_0[0].text_at("text"@)->0;
    if first == second {
        let bare = preamble_of(first, one.prompt);
        assert(bare == preamble_of(second, other.prompt));
        assert(one.prompt =~= first.skip(bare.len() as int));
        assert(other.prompt =~= second.skip(bare.len() as int));
    }
}

/// A request that fails, an answer that names no thread or no turn, and an app server that goes
/// away end a run without a session and with a reason; the app server is ended by force. Where the
/// answer holds an error, the reason ends with that error, and where the app server answered or
/// closed its output, the reason names what it was asked for.
pub proof fn law_runs_that_do_not_begin_fail(
    task: RunTask,
    phase: PhaseModel,
    event: RunEvent,
    seq: u64,
)
    requires
        phase is Opening || phase is Starting,
        ({
            let id = match phase {
                PhaseModel::Opening(id) => id,
                PhaseModel::Starting(_, id) => id,
                _ => Seq::empty(),
            };
            let kind = if phase is Opening {
                "thread"@
            } else {
                "turn"@
            };
            ||| !(event is Line)
            ||| answers(event, id) matches Some(answer) && (answer.get("error"@) is Some
                || answer.at("result"@).at(kind).text_at("id"@) is None)
        }),
    ensures
        ({
            let (after, action) = run_stepped(task, phase, event, seq);
            &&& action == ActionModel::Finish(true)
            &&& after matches PhaseModel::Ended(thread_id, end)
            &&& thread_id is None
            &&& end matches Err(reason)
            &&& event matches RunEvent::ReadFailed(error) ==> reason == error@
            &&& event matches RunEvent::SendFailed(error) ==> reason == error@
            &&& event matches RunEvent::Line(line) ==> ((event_on(line@)->0).get("error"@) matches Some(
                error,
            ) ==> ends_with(reason, compact_text(error)))
            &&& event is Closed || event is Line ==> holds_text(
                reason,
                if phase is Starting {
                    "turn/start"@
                } else if task.session is Some {
                    "thread/resume"@
                } else {
                    "thread/start"@
                },
            )
        }),
{
    assert forall|start: Seq<char>, part: Seq<char>, tail: Seq<char>|
        holds_text(#[trigger] (start + part + tail), part) by {
        let text = start + part + tail;
        assert(text.subrange(start.len() as int, start.len() as int + part.len()) =~= part);
    }
    assert forall|start: Seq<char>, part: Seq<char>, tail: Seq<char>, more: Seq<char>|
        holds_text(#[trigger] (start + part + tail + more), part) by {
        let text = start + part + tail + more;
        assert(text.subrange(start.len() as int, start.len() as int + part.len()) =~= part);
    }
    assert forall|
        start: Seq<char>,
        part: Seq<char>,
        tail: Seq<char>,
        more: Seq<char>,
        last: Seq<char>,
    |
        holds_text(#[trigger] (start + part + tail + more + last), part) by {
        let text = start + part + tail + more + last;
        assert(text.subrange(start.len() as int, start.len() as int + part.len()) =~= part);
    }
    assert forall|start: Seq<char>, tail: Seq<char>| #[trigger] ends_with(start + tail, tail) by {
        assert((start + tail).skip(start.len() as int) =~= tail);
    }
}

/// What is not the answer that a run waits for leaves the run waiting.
pub proof fn law_runs_wait_for_their_answer(
    task: RunTask,
    phase: PhaseModel,
    event: RunEvent,
    seq: u64,
)
    requires
        event is Line,
        match phase {
            PhaseModel::Opening(id) => answers(event, id) is None,
            PhaseModel::Starting(_, id) => answers(event, id) is None,
            _ => false,
        },
    ensures
        run_stepped(task, phase, event, seq) == (phase, ActionModel::Read),
{
}

/// The answer that starts the turn makes it run, in the thread that was opened.
pub proof fn law_turns_run_once_they_are_named(
    task: RunTask,
    thread_id: Seq<char>,
    id: Seq<char>,
    event: RunEvent,
    turn_id: Seq<char>,
    seq: u64,
)
    requires
        answers(event, id) matches Some(answer) && answer.get("error"@) is None && answer.at(
            "result"@,
        ).at("turn"@).text_at("id"@) == Some(turn_id),
    ensures
        run_stepped(task, PhaseModel::Starting(thread_id, id), event, seq).1 == ActionModel::Read,
        run_stepped(task, PhaseModel::Starting(thread_id, id), event, seq).0 matches PhaseModel::Running(
            thread,
            turn,
            message,
        ) && thread == thread_id && turn == turn_id && message.len() == 0,
{
    reveal_strlit("");
}

/// The text of an agent message: its own, or else the first among its parts.
pub open spec fn says_natively(event: JsonTree, text: Seq<char>) -> bool {
    let item = event.at("params"@).at("item"@);
    &&& event.text_at("method"@) == Some("item/completed"@)
    &&& item.text_at("type"@) == Some("agentMessage"@)
    &&& {
        ||| item.text_at("text"@) == Some(text)
        ||| {
            &&& item.text_at("text"@) is None
            &&& item.at("content"@) matches JsonTree::Array(parts)
            &&& exists|k: int|
                0 <= k < parts.len() && (#[trigger] parts[k]).text_at("text"@) == Some(text)
                    && forall|j: int|
                    0 <= j < k ==> (#[trigger] parts[j]).text_at("text"@) is None
        }
    }
}

/// A message of the agent is what the run has as its last message from that line on; the run goes
/// on.
pub proof fn law_the_agent_is_heard(
    task: RunTask,
    thread_id: Seq<char>,
    turn_id: Seq<char>,
    message: Seq<char>,
    line: String,
    text: Seq<char>,
    seq: u64,
)
    requires
        event_on(line@) matches Some(event) && event.get("error"@) is None && says_natively(
            event,
            text,
        ),
    ensures
        run_stepped(
            task,
            PhaseModel::Running(thread_id, turn_id, message),
            RunEvent::Line(line),
            seq,
        ) == (PhaseModel::Running(thread_id, turn_id, text), ActionModel::Read),
{
    reveal_strlit("item/completed");
    reveal_strlit("turn/completed");
    assert("item/completed"@[0] == 'i' && "turn/completed"@[0] == 't');
    let event = event_on(line@)->0;
    let item = event.at("params"@).at("item"@);
    if item.text_at("text"@) is None {
        match item.at("content"@) {
            JsonTree::Array(parts) => {
                let k = choose|k: int|
                    0 <= k < parts.len() && (#[trigger] parts[k]).text_at("text"@) == Some(text)
                        && forall|j: int|
                        0 <= j < k ==> (#[trigger] parts[j]).text_at("text"@) is None;
                lemma_first_text(parts, k);
            },
            _ => {},
        }
    }
}

/// The event tells the end of the turn.
pub open spec fn ends_turn(event: JsonTree, turn_id: Seq<char>) -> bool {
    &&& event.text_at("method"@) == Some("turn/completed"@)
    &&& event.at("params"@).at("turn"@).text_at("id"@) == Some(turn_id)
}

/// Other notifications than those of completed items leave a run as it is, unless they hold an
/// error or tell the end of its turn; so do lines that are no JSON document.
pub proof fn law_other_lines_change_nothing(
    task: RunTask,
    thread_id: Seq<char>,
    turn_id: Seq<char>,
    message: Seq<char>,
    line: String,
    seq: u64,
)
    requires
        event_on(line@) matches Some(event) ==> event.get("error"@) is None && !ends_turn(
            event,
            turn_id,
        ) && event.text_at("method"@) != Some("item/completed"@),
    ensures
        run_stepped(
            task,
            PhaseModel::Running(thread_id, turn_id, message),
            RunEvent::Line(line),
            seq,
        ) == (PhaseModel::Running(thread_id, turn_id, message), ActionModel::Read),
{
}

/// The end of its turn ends a run. Where the turn is completed the run has succeeded with the last
/// message, and the app server may end by itself; any other end is a failure, with the error that
/// the turn tells. Either way the session is the thread.
pub proof fn law_turns_end_runs(
    task: RunTask,
    thread_id: Seq<char>,
    turn_id: Seq<char>,
    message: Seq<char>,
    line: String,
    seq: u64,
    stderr: Seq<char>,
)
    requires
        event_on(line@) matches Some(event) && event.get("error"@) is None && ends_turn(
            event,
            turn_id,
        ),
    ensures
        ({
            let turn = (event_on(line@)->0).at("params"@).at("turn"@);
            let (after, action) = run_stepped(
                task,
                PhaseModel::Running(thread_id, turn_id, message),
                RunEvent::Line(line),
                seq,
            );
            &&& after matches PhaseModel::Ended(thread, end)
            &&& run_ended(thread, end, stderr).resume_session_id == Some(thread_id)
            &&& if turn.text_at("status"@) == Some("completed"@) {
                &&& action == ActionModel::Finish(false)
                &&& run_ended(thread, end, stderr).success
                &&& run_ended(thread, end, stderr).message == message
            } else {
                &&& action == ActionModel::Finish(true)
                &&& !run_ended(thread, end, stderr).success
                &&& end matches Err(reason)
                &&& match turn.get("error"@) {
                    Some(error) => reason == compact_text(error),
                    None => ends_with(reason, debug_text(turn.text_at("status"@))),
                }
            }
        }),
{
    reveal_strlit("item/completed");
    reveal_strlit("turn/completed");
    assert("item/completed"@[0] == 'i' && "turn/completed"@[0] == 't');
    assert forall|start: Seq<char>, tail: Seq<char>| #[trigger] ends_with(start + tail, tail) by {
        assert((start + tail).skip(start.len() as int) =~= tail);
    }
}

/// An error, and an app server that goes away, end a run whose turn runs: it has failed, its
/// session is the thread, and the app server is ended by force.
pub proof fn law_errors_end_runs(
    task: RunTask,
    thread_id: Seq<char>,
    turn_id: Seq<char>,
    message: Seq<char>,
    event: RunEvent,
    seq: u64,
)
    requires
        event matches RunEvent::Line(line) ==> event_on(line@) is Some && (event_on(
            line@,
        )->0).get("error"@) is Some,
    ensures
        ({
            let (after, action) = run_stepped(
                task,
                PhaseModel::Running(thread_id, turn_id, message),
                event,
                seq,
            );
            &&& action == ActionModel::Finish(true)
            &&& after matches PhaseModel::Ended(thread, end)
            &&& thread == Some(thread_id)
            &&& end matches Err(reason)
            &&& event matches RunEvent::Line(line) ==> reason == compact_text(
                (event_on(line@)->0).get("error"@)->0,
            )
            &&& event matches RunEvent::ReadFailed(error) ==> ends_with(reason, error@)
            &&& event matches RunEvent::SendFailed(error) ==> reason == error@
        }),
{
    assert forall|start: Seq<char>, tail: Seq<char>| #[trigger] ends_with(start + tail, tail) by {
        assert((start + tail).skip(start.len() as int) =~= tail);
    }
}

/// What a run is answered with: where it succeeded the last message, and where it failed the reason
/// and after it what was written to the error output, where that is not blank.
pub proof fn law_results_tell_how_runs_ended(
    thread_id: Option<Seq<char>>,
    message: Seq<char>,
    stderr: Seq<char>,
)
    ensures
        run_ended(thread_id, Ok(message), stderr).success,
        run_ended(thread_id, Ok(message), stderr).message == message,
        run_ended(thread_id, Ok(message), stderr).resume_session_id == thread_id,
        !run_ended(thread_id, Err(message), stderr).success,
        run_ended(thread_id, Err(message), stderr).resume_session_id == thread_id,
        ({
            let told = run_ended(thread_id, Err(message), stderr).message;
            if trimmed(stderr).len() == 0 {
                told == message
            } else {
                told.len() > message.len() && told.take(message.len() as int) == message
                    && ends_with(told, trimmed(stderr))
            }
        }),
{
    let told = run_ended(thread_id, Err(message), stderr).message;
    if trimmed(stderr).len() > 0 {
        assert(told.take(message.len() as int) =~= message);
        assert(told.skip(told.len() - trimmed(stderr).len()) =~= trimmed(stderr));
    }
}

/// To cancel a run its turn is interrupted by the names of the thread and the turn, where both are
/// known and it was not tried yet; the process is ended where there is no turn to interrupt or the
/// interrupt could not be sent; and nothing more is done once it was sent.
pub proof fn law_cancellation_interrupts_before_it_terminates(
    thread_id: Option<Seq<char>>,
    turn_id: Option<Seq<char>>,
)
    ensures
        cancel_stepped(thread_id, turn_id, Some(true)) is Done,
        cancel_stepped(thread_id, turn_id, Some(false)) is Terminate,
        thread_id is None || turn_id is None ==> cancel_stepped(
            thread_id,
            turn_id,
            None,
        ) is Terminate,
        thread_id is Some && turn_id is Some ==> (cancel_stepped(
            thread_id,
            turn_id,
            None,
        ) matches CancelModel::Interrupt(params) && params.text_at("threadId"@) == thread_id
            && params.text_at("turnId"@) == turn_id),
{
    lemma_native_names();
}

/// The app server is first tried as `codex app-server --listen stdio://`, without the version of
/// JSON-RPC in each message and then with it; each way is tried once; and where all have failed,
/// the failure ends with their errors, in order.
pub proof fn law_starting_tries_each_way_once(errors: Seq<Seq<char>>, other: Seq<Seq<char>>)
    ensures
        errors.len() == 0 ==> start_stepped(errors) == StartModel::Try(
            seq!["app-server"@, "--listen"@, "stdio://"@],
            false,
        ),
        errors.len() == 1 ==> start_stepped(errors) == StartModel::Try(
            seq!["app-server"@, "--listen"@, "stdio://"@],
            true,
        ),
        errors.len() < 3 <==> start_stepped(errors) is Try,
        errors.len() < other.len() && other.len() < 3 ==> start_stepped(errors) != start_stepped(
            other,
        ),
        start_stepped(errors) matches StartModel::Failed(message) ==> ends_with(
            message,
            joined(errors, " | "@),
        ),
{
    reveal_strlit("app-server");
    reveal_strlit("remote-control");
    assert("app-server"@[0] == 'a' && "remote-control"@[0] == 'r');
    assert(seq!["app-server"@, "--listen"@, "stdio://"@][0] != seq!["remote-control"@][0]);
    assert(seq!["app-server"@, "--listen"@, "stdio://"@].len() == 3);
    assert(seq!["remote-control"@].len() == 1);
    assert forall|start: Seq<char>, tail: Seq<char>| #[trigger] ends_with(start + tail, tail) by {
        assert((start + tail).skip(start.len() as int) =~= tail);
    }
}

/// A process whose turn is over is looked at and given time, two seconds in all, before it is
/// ended by force; one that has ended by itself is not.
pub proof fn law_processes_get_time_to_end(waits: u32, ended: Option<bool>)
    ensures
        finish_stepped(true, waits, ended) is Terminate,
        waits < 20 ==> finish_stepped(false, waits, None) is Look,
        waits < 20 ==> finish_stepped(false, waits, Some(true)) is Collect,
        waits < 20 ==> (finish_stepped(false, waits, Some(false)) matches FinishStep::Wait(pause)
            && pause * 20 == 2000),
        waits >= 20 ==> finish_stepped(false, waits, ended) is Terminate,
{
}

/// The app server is asked for its newest threads, as many as are wanted, from all sources.
pub proof fn law_threads_are_asked_for_newest_first(limit: u64)
    ensures
        list_tree(limit).u64_at("limit"@) == Some(limit),
        list_tree(limit).text_at("sortKey"@) == Some("updated_at"@),
        list_tree(limit).text_at("sortDirection"@) == Some("desc"@),
        list_tree(limit).get("archived"@) == Some(JsonTree::Bool(false)),
        list_tree(limit).at("sourceKinds"@) matches JsonTree::Array(kinds) && kinds == seq![
            JsonTree::Text("appServer"@),
            JsonTree::Text("exec"@),
            JsonTree::Text("cli"@),
        ],
{
    lemma_native_names();
    assert(list_tree(limit).at("sourceKinds"@)->Array_0 =~= seq![
        JsonTree::Text("appServer"@),
        JsonTree::Text("exec"@),
        JsonTree::Text("cli"@),
    ]);
}

/// What is said of threads that all have names.
proof fn lemma_named_threads(threads: Seq<JsonTree>)
    requires
        forall|i: int| 0 <= i < threads.len() ==> (#[trigger] threads[i]).text_at("id"@) is Some,
    ensures
        thread_models(threads).len() == threads.len(),
        forall|i: int|
            0 <= i < threads.len() ==> #[trigger] thread_models(threads)[i] == thread_model(
                threads[i],
            )->0,
    decreases threads.len(),
{
    if threads.len() > 0 {
        let rest = threads.drop_last();
        assert forall|i: int| 0 <= i < rest.len() implies (#[trigger] rest[i]).text_at(
            "id"@,
        ) is Some by {
            assert(rest[i] == threads[i]);
        }
        lemma_named_threads(rest);
        assert(threads[threads.len() - 1].text_at("id"@) is Some);
        assert forall|i: int| 0 <= i < threads.len() implies #[trigger] thread_models(threads)[i]
            == thread_model(threads[i])->0 by {
            if i < rest.len() {
                assert(thread_models(rest)[i] == thread_model(rest[i])->0);
            }
        }
    }
}

/// The threads that the app server lists become sessions in the same order, up to the limit: each
/// with the name, the path, the time and the directory of its thread, and with the beginning of its
/// preview.
pub proof fn law_listed_threads_become_sessions(
    response: JsonTree,
    threads: Seq<JsonTree>,
    limit: nat,
    i: int,
)
    requires
        response.at("data"@) == JsonTree::Array(threads),
        forall|j: int| 0 <= j < threads.len() ==> (#[trigger] threads[j]).text_at("id"@) is Some,
        0 <= i < threads.len(),
        i < limit,
    ensures
        ({
            let sessions = listed_threads(response, limit);
            let thread = threads[i];
            &&& sessions.len() == (if limit < threads.len() {
                limit
            } else {
                threads.len()
            })
            &&& thread.text_at("id"@) == Some(sessions[i].id)
            &&& sessions[i].path == (match thread.text_at("path"@) {
                Some(path) => path,
                None => ""@,
            })
            &&& sessions[i].modified_unix == (match thread.u64_at("updatedAt"@) {
                Some(time) => time,
                None => 0,
            })
            &&& thread.text_at("preview"@) is None ==> sessions[i].last_message_preview is Null
            &&& sessions[i].cwd == thread.at("cwd"@)
            &&& thread.text_at("preview"@) matches Some(preview) ==> (
            sessions[i].last_message_preview matches JsonTree::Text(shown) && shown.len() == (
            if preview.len() <= 240 {
                preview.len()
            } else {
                240
            }) && shown == preview.take(shown.len() as int))
        }),
{
    lemma_named_threads(threads);
    assert(thread_models(threads)[i] == thread_model(threads[i])->0);
    match threads[i].text_at("preview"@) {
        Some(preview) => {
            assert(first_chars(preview, 240) =~= preview.take(
                first_chars(preview, 240).len() as int,
            ));
        },
        None => {},
    }
}

/// A thread without a name is left out, and nothing else changes.
pub proof fn law_nameless_threads_are_left_out(
    earlier: Seq<JsonTree>,
    nameless: JsonTree,
    later: Seq<JsonTree>,
)
    requires
        nameless.text_at("id"@) is None,
    ensures
        thread_models(earlier.push(nameless) + later) == thread_models(earlier + later),
    decreases later.len(),
{
    if later.len() == 0 {
        assert(earlier.push(nameless) + later =~= earlier.push(nameless));
        assert(earlier + later =~= earlier);
        assert(earlier.push(nameless).drop_last() =~= earlier);
    } else {
        law_nameless_threads_are_left_out(earlier, nameless, later.drop_last());
        assert((earlier.push(nameless) + later).drop_last() =~= earlier.push(nameless)
            + later.drop_last());
        assert((earlier + later).drop_last() =~= earlier + later.drop_last());
    }
}

/// Requests of one method have names of their own, so that each gets its own answer.
pub proof fn law_requests_have_names_of_their_own(method: Seq<char>, seq: u64, other: u64)
    requires
        seq != other,
    ensures
        request_id(method, seq) != request_id(method, other),
{
    let start = "native-"@ + replaced(method, '/', "-"@) + "-"@;
    let one = decimal(seq as nat);
    let two = decimal(other as nat);
    if request_id(method, seq) == request_id(method, other) {
        assert((start + one).skip(start.len() as int) =~= one);
        assert((start + two).skip(start.len() as int) =~= two);
        lemma_decimal_differs(seq as nat, other as nat);
    }
}

/// Completed items that are not messages of the agent leave a run as it is, and so does a message
/// without a text.
pub proof fn law_only_the_agent_is_heard(
    task: RunTask,
    thread_id: Seq<char>,
    turn_id: Seq<char>,
    message: Seq<char>,
    line: String,
    seq: u64,
)
    requires
        event_on(line@) matches Some(event) && event.get("error"@) is None && event.text_at(
            "method"@,
        ) == Some("item/completed"@) && ({
            let item = event.at("params"@).at("item"@);
            ||| item.text_at("type"@) != Some("agentMessage"@)
            ||| item.text_at("text"@) is None && !(item.at("content"@) is Array)
        }),
    ensures
        run_stepped(
            task,
            PhaseModel::Running(thread_id, turn_id, message),
            RunEvent::Line(line),
            seq,
        ) == (PhaseModel::Running(thread_id, turn_id, message), ActionModel::Read),
{
    reveal_strlit("item/completed");
    reveal_strlit("turn/completed");
    assert("item/completed"@[0] == 'i' && "turn/completed"@[0] == 't');
}

/// An attempt that failed with a reason is told by that reason, and the other two ways to fail by
/// words of their own.
pub proof fn law_attempts_tell_why_they_failed(reason: String)
    ensures
        attempt_words(AttemptError::Refused(reason)) == reason@,
        attempt_words(AttemptError::TimedOut) != attempt_words(AttemptError::Disconnected),
        holds_text(attempt_words(AttemptError::TimedOut), "timed out"@),
{
    reveal_strlit("timed out waiting for native initialize response");
    reveal_strlit("initialize worker disconnected");
    reveal_strlit("timed out");
    let words = "timed out waiting for native initialize response"@;
    assert(words.len() == 48 && "initialize worker disconnected"@.len() == 30);
    assert(words.subrange(0, 0int + "timed out"@.len()) =~= "timed out"@);
}

/// A request to the app server says its name, its method and its parameters, and which version of
/// JSON-RPC it is where it is to; a notification says its method, and its parameters where there
/// are any, and has no name. Either is written on a line of its own.
pub proof fn law_messages_to_the_app_server(
    wire: NativeWire,
    id: Seq<char>,
    method: Seq<char>,
    params: JsonTree,
)
    ensures
        ({
            let request = request_tree(wire, id, method, params);
            let note = notification_tree(wire, method, params);
            let version = if wire.include_jsonrpc {
                Some(JsonTree::Text("2.0"@))
            } else {
                None
            };
            &&& request.text_at("id"@) == Some(id)
            &&& request.text_at("method"@) == Some(method)
            &&& request.get("params"@) == Some(params)
            &&& request.get("jsonrpc"@) == version
            &&& note.get("id"@) is None
            &&& note.text_at("method"@) == Some(method)
            &&& note.get("params"@) == (if params is Null {
                None
            } else {
                Some(params)
            })
            &&& note.get("jsonrpc"@) == version
            &&& compact_bytes(request) matches Some(bytes) ==> line_of(request) == Some(
                bytes.push(10u8),
            )
        }),
{
    lemma_native_names();
}

/// Whoever waits for an answer gets the one with the name of the request: its result, or the
/// failure with its error at the end; other lines are not it.
pub proof fn law_callers_get_their_answer(line: Seq<char>, id: Seq<char>, method: Seq<char>)
    ensures
        event_on(line) == parsed_bytes(encode_utf8(line)),
        match event_on(line) {
            Some(answer) => if answer.text_at("id"@) != Some(id) {
                call_stepped(line, id, method) is Waiting
            } else {
                match answer.get("error"@) {
                    Some(error) => call_stepped(line, id, method) matches CallModel::Failed(reason)
                        && ends_with(reason, compact_text(error)) && holds_text(reason, method),
                    None => call_stepped(line, id, method) == CallModel::Done(
                        answer.at("result"@),
                    ),
                }
            },
            None => call_stepped(line, id, method) is Waiting,
        },
{
    match event_on(line) {
        Some(answer) => {
            match answer.get("error"@) {
                Some(error) => {
                    let start = "native "@;
                    let tail = compact_text(error);
                    let reason = start + method + " failed: "@ + tail;
                    assert(reason.skip(reason.len() - tail.len()) =~= tail);
                    assert(reason.subrange(start.len() as int, start.len() as int + method.len())
                        =~= method);
                },
                None => {},
            }
        },
        None => {},
    }
}

/// What is said where the app server closed its output, and where an answer has no name in it, holds
/// what was asked for; the latter also holds what should have been named.
pub proof fn law_missing_answers_are_told(method: Seq<char>, kind: Seq<char>)
    ensures
        holds_text(closed_before(method), method),
        holds_text(closed_before(method), "closed"@),
        holds_text(nameless(method, kind), method),
        holds_text(nameless(method, kind), kind),
{
    let closed = closed_before(method);
    let start = "native app-server closed before "@;
    reveal_strlit("native app-server closed before ");
    reveal_strlit("closed");
    assert(closed.subrange(start.len() as int, start.len() as int + method.len()) =~= method);
    assert(closed.subrange(18, 18int + "closed"@.len()) =~= "closed"@);
    let bare = nameless(method, kind);
    let first: int = "native "@.len() as int;
    let second: int = first + method.len() + " response did not include "@.len();
    assert(bare.subrange(first, first + method.len()) =~= method);
    assert(bare.subrange(second, second + kind.len()) =~= kind);
}

/// The app server is told who asks, and not to send what is said piece by piece.
pub proof fn law_the_app_server_is_told_who_asks()
    ensures
        initialize_tree().at("clientInfo"@).text_at("name"@) == Some("codex-a2a-rs"@),
        initialize_tree().at("capabilities"@).get("experimentalApi"@) == Some(JsonTree::Bool(true)),
        initialize_tree().at("capabilities"@).at("optOutNotificationMethods"@) matches JsonTree::Array(
            methods,
        ) && methods == seq![
            JsonTree::Text("command/exec/outputDelta"@),
            JsonTree::Text("item/agentMessage/delta"@),
            JsonTree::Text("item/plan/delta"@),
            JsonTree::Text("item/fileChange/outputDelta"@),
            JsonTree::Text("item/reasoning/summaryTextDelta"@),
            JsonTree::Text("item/reasoning/textDelta"@),
        ],
{
    lemma_native_names();
    assert(initialize_tree().at("capabilities"@).at("optOutNotificationMethods"@)->Array_0 =~= seq![
        JsonTree::Text("command/exec/outputDelta"@),
        JsonTree::Text("item/agentMessage/delta"@),
        JsonTree::Text("item/plan/delta"@),
        JsonTree::Text("item/fileChange/outputDelta"@),
        JsonTree::Text("item/reasoning/summaryTextDelta"@),
        JsonTree::Text("item/reasoning/textDelta"@),
    ]);
}

/// Canceling a run whose turn runs interrupts that turn of that thread; one whose turn was not
/// started yet, or that has ended, is ended with its process.
pub proof fn law_canceling_interrupts_the_turn_that_runs(phase: PhaseModel)
    ensures
        match phase {
            PhaseModel::Running(thread_id, turn_id, _) => cancel_stepped(
                phase.thread(),
                phase.turn(),
                None,
            ) matches CancelModel::Interrupt(params) && params.text_at("threadId"@) == Some(
                thread_id,
            ) && params.text_at("turnId"@) == Some(turn_id),
            _ => cancel_stepped(phase.thread(), phase.turn(), None) is Terminate,
        },
        phase matches PhaseModel::Starting(thread_id, _) ==> phase.thread() == Some(thread_id),
{
    law_cancellation_interrupts_before_it_terminates(phase.thread(), phase.turn());
}

} // verus!
