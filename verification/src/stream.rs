//! Streams of answers: the task at first, then each change of its state, and the task at the end.

use crate::json::{opt_tree, Json, JsonTree};
use crate::registry::lookup;
use crate::rpc::Call;
use crate::send::sent;
use crate::service::{Moment, Reply};
use crate::state::AppState;
use crate::task::{
    is_terminal, is_terminal_state, state_of, task_state, Directory,
};
use crate::text::same_text;
use vstd::prelude::*;
use vstd::string::*;

verus! {

/// How a call for a stream is answered.
pub enum Opening {
    /// With the one answer that refuses it.
    Refused(Json),
    /// With a stream: the name of the task, and the first event.
    Opened(String, Json),
}

/// How a call for a stream is answered.
pub enum OpeningModel {
    Refused(JsonTree),
    Opened(Seq<char>, JsonTree),
}

impl View for Opening {
    type V = OpeningModel;

    open spec fn view(&self) -> OpeningModel {
        match self {
            Opening::Refused(answer) => OpeningModel::Refused(answer@),
            Opening::Opened(task_id, event) => OpeningModel::Opened(task_id@, event@),
        }
    }
}

/// The first event of a stream.
pub open spec fn first_event(id: JsonTree, task: JsonTree) -> JsonTree {
    JsonTree::object().with("jsonrpc"@, JsonTree::Text("2.0"@)).with("id"@, id).with(
        "result"@,
        JsonTree::object().with("kind"@, JsonTree::Text("task"@)).with("task"@, task),
    )
}

/// The task in an answer.
pub open spec fn answered_task(answer: JsonTree) -> JsonTree {
    match answer.get("result"@) {
        Some(task) => task,
        None => JsonTree::object().with(
            "status"@,
            JsonTree::object().with("state"@, JsonTree::Text("failed"@)),
        ),
    }
}

/// How a call for a stream is answered, from the answer that `message/send` gives.
pub open spec fn opened(id: JsonTree, answer: JsonTree) -> OpeningModel {
    if answer.get("error"@) is Some {
        OpeningModel::Refused(answer)
    } else {
        let task = answered_task(answer);
        OpeningModel::Opened(
            match task.text_at("id"@) {
                Some(task_id) => task_id,
                None => ""@,
            },
            first_event(id, task),
        )
    }
}

/// Decides how a call for a stream is answered.
pub fn open_stream(id: Json, answer: Json) -> (opening: Opening)
    ensures
        opening@ == opened(id@, answer@),
{
    match answer.get("error") {
        Some(_) => return Opening::Refused(answer),
        None => {},
    }
    let task = match answer.get("result") {
        Some(task) => task.clone(),
        None => Json::object().with("status", Json::object().with("state", Json::text("failed"))),
    };
    let task_id = match task.text_at("id") {
        Some(task_id) => task_id.to_owned(),
        None => "".to_owned(),
    };
    let event = Json::object().with("jsonrpc", Json::text("2.0")).with("id", id).with(
        "result",
        Json::object().with("kind", Json::text("task")).with("task", task),
    );
    Opening::Opened(task_id, event)
}

/// The name of the state that a task is in, or `unknown`.
pub open spec fn state_name(task: JsonTree) -> Seq<char> {
    match state_of(task) {
        Some(name) => name,
        None => "unknown"@,
    }
}

/// The event that tells a change of state.
pub open spec fn status_event(task_id: Seq<char>, task: JsonTree) -> JsonTree {
    JsonTree::object().with("jsonrpc"@, JsonTree::Text("2.0"@)).with(
        "method"@,
        JsonTree::Text("tasks/status-update"@),
    ).with(
        "params"@,
        JsonTree::object().with("taskId"@, JsonTree::Text(task_id)).with(
            "contextId"@,
            task.at("contextId"@),
        ).with("status"@, task.at("status"@)).with(
            "final"@,
            JsonTree::Bool(is_terminal(state_name(task))),
        ),
    )
}

/// The event that ends a stream.
pub open spec fn final_event(task: JsonTree) -> JsonTree {
    JsonTree::object().with("jsonrpc"@, JsonTree::Text("2.0"@)).with(
        "method"@,
        JsonTree::Text("tasks/final"@),
    ).with("params"@, JsonTree::object().with("task"@, task))
}

/// What a look at the task adds to the stream.
pub struct StreamStep {
    pub status: Option<Json>,
    pub last: Option<Json>,
    /// The state that the next look is held against.
    pub state: String,
    /// The stream ends here.
    pub done: bool,
}

/// What a look at the task adds to the stream.
pub struct StepModel {
    pub status: Option<JsonTree>,
    pub last: Option<JsonTree>,
    pub state: Seq<char>,
    pub done: bool,
}

impl View for StreamStep {
    type V = StepModel;

    open spec fn view(&self) -> StepModel {
        StepModel {
            status: match self.status {
                Some(event) => Some(event@),
                None => None,
            },
            last: match self.last {
                Some(event) => Some(event@),
                None => None,
            },
            state: self.state@,
            done: self.done,
        }
    }
}

impl StepModel {
    /// The events of a step.
    pub open spec fn events(self) -> Seq<JsonTree> {
        let first = match self.status {
            Some(event) => seq![event],
            None => Seq::empty(),
        };
        match self.last {
            Some(event) => first.push(event),
            None => first,
        }
    }
}

/// What a look at the task adds to the stream: its state where it has changed, and the task itself
/// where the state is one that it does not leave. The stream ends there, and where there is no
/// task.
pub open spec fn stepped(task_id: Seq<char>, state: Seq<char>, task: Option<JsonTree>) -> StepModel {
    match task {
        None => StepModel { status: None, last: None, state, done: true },
        Some(task) => StepModel {
            status: if state_name(task) != state {
                Some(status_event(task_id, task))
            } else {
                None
            },
            last: if is_terminal(state_name(task)) {
                Some(final_event(task))
            } else {
                None
            },
            state: state_name(task),
            done: is_terminal(state_name(task)),
        },
    }
}

/// Decides what a look at the task adds to the stream. `state` is the state at the look before.
pub fn stream_step(task_id: &str, state: &str, task: Option<&Json>) -> (step: StreamStep)
    ensures
        step@ == stepped(task_id@, state@, opt_tree(task)),
{
    let task = match task {
        Some(task) => task,
        None => {
            return StreamStep { status: None, last: None, state: state.to_owned(), done: true };
        },
    };
    let name = match task_state(task) {
        Some(name) => name.to_owned(),
        None => "unknown".to_owned(),
    };
    let terminal = is_terminal_state(name.as_str());
    let status = if !same_text(name.as_str(), state) {
        let params = Json::object().with("taskId", Json::text(task_id)).with(
            "contextId",
            task.at("contextId"),
        ).with("status", task.at("status")).with("final", Json::Bool(terminal));
        Some(
            Json::object().with("jsonrpc", Json::text("2.0")).with(
                "method",
                Json::text("tasks/status-update"),
            ).with("params", params),
        )
    } else {
        None
    };
    let last = if terminal {
        Some(
            Json::object().with("jsonrpc", Json::text("2.0")).with(
                "method",
                Json::text("tasks/final"),
            ).with("params", Json::object().with("task", task.clone())),
        )
    } else {
        None
    };
    StreamStep { status, last, state: name, done: terminal }
}

impl AppState {
    /// Answers `message/stream`: takes the task on as `message/send` does, and opens the stream
    /// with it or refuses it.
    pub fn start_stream(&mut self, call: Call, moment: &Moment, directory: &Option<Directory>) -> (
        result: (Reply, Opening))
        requires
            old(self).wf(),
        ensures
            final(self).wf(),
            final(self).config == old(self).config,
            final(self).model() == sent(
                *old(self).config,
                old(self).model(),
                call.id@,
                call.params@,
                false,
                *moment,
                *directory,
            ).0,
            result.0@ == sent(
                *old(self).config,
                old(self).model(),
                call.id@,
                call.params@,
                false,
                *moment,
                *directory,
            ).1,
            result.1@ == opened(call.id@, result.0@.payload),
    {
        let reply = self.send_task(call.id.clone(), &call.params, false, moment, directory);
        let opening = open_stream(call.id, reply.payload.clone());
        (reply, opening)
    }

    /// Looks at the task of a stream.
    pub fn stream_look(&self, task_id: &str, state: &str) -> (step: StreamStep)
        requires
            self.wf(),
        ensures
            step@ == stepped(task_id@, state@, lookup(self.model().tasks, task_id@)),
    {
        stream_step(task_id, state, self.tasks.get(task_id))
    }
}

/// The events that looks at the task make: up to the look at which the stream ends.
pub open spec fn streamed(task_id: Seq<char>, state: Seq<char>, looks: Seq<Option<JsonTree>>) -> Seq<
    JsonTree,
>
    decreases looks.len(),
{
    if looks.len() == 0 {
        Seq::empty()
    } else {
        let step = stepped(task_id, state, looks[0]);
        if step.done {
            step.events()
        } else {
            step.events() + streamed(task_id, step.state, looks.drop_first())
        }
    }
}

/// The event ends a stream.
pub open spec fn is_final_event(event: JsonTree) -> bool {
    event.text_at("method"@) == Some("tasks/final"@)
}

/// The event tells a change of state.
pub open spec fn is_status_event(event: JsonTree) -> bool {
    event.text_at("method"@) == Some("tasks/status-update"@)
}

/// The state that an event tells.
pub open spec fn told_state(event: JsonTree) -> Seq<char> {
    match event.at("params"@).at("status"@).text_at("state"@) {
        Some(name) => name,
        None => "unknown"@,
    }
}

/// What the events of a step are.
proof fn lemma_events(task_id: Seq<char>, task: JsonTree)
    ensures
        is_final_event(final_event(task)),
        !is_status_event(final_event(task)),
        !is_final_event(status_event(task_id, task)),
        is_status_event(status_event(task_id, task)),
        told_state(status_event(task_id, task)) == state_name(task),
        final_event(task).at("params"@).get("task"@) == Some(task),
{
    reveal_strlit("jsonrpc");
    reveal_strlit("method");
    reveal_strlit("params");
    reveal_strlit("tasks/final");
    reveal_strlit("tasks/status-update");
    reveal_strlit("final");
    reveal_strlit("status");
    assert("jsonrpc"@.len() == 7);
    assert("method"@[0] == 'm' && "method"@.len() == 6);
    assert("params"@[0] == 'p' && "params"@.len() == 6);
    assert("tasks/final"@.len() == 11);
    assert("tasks/status-update"@.len() == 19);
    assert("final"@.len() == 5);
    assert("status"@.len() == 6);
}

/// A stream has no event after the one that ends it.
pub proof fn law_final_event_is_last(
    task_id: Seq<char>,
    state: Seq<char>,
    looks: Seq<Option<JsonTree>>,
    i: int,
)
    requires
        0 <= i < streamed(task_id, state, looks).len(),
        is_final_event(streamed(task_id, state, looks)[i]),
    ensures
        i == streamed(task_id, state, looks).len() - 1,
    decreases looks.len(),
{
    let step = stepped(task_id, state, looks[0]);
    if looks[0] is Some {
        lemma_events(task_id, looks[0]->0);
    }
    if !step.done {
        let rest = streamed(task_id, step.state, looks.drop_first());
        if i >= step.events().len() {
            assert(rest[i - step.events().len()] == streamed(task_id, state, looks)[i]);
            law_final_event_is_last(
                task_id,
                step.state,
                looks.drop_first(),
                i - step.events().len(),
            );
        }
    }
}

/// A stream ends at the first look at which the task is in a state that it does not leave, with
/// that task.
pub proof fn law_stream_ends_with_task(
    task_id: Seq<char>,
    state: Seq<char>,
    looks: Seq<Option<JsonTree>>,
    at: int,
)
    requires
        0 <= at < looks.len(),
        looks[at] matches Some(task) && is_terminal(state_name(task)),
        forall|i: int|
            0 <= i < at ==> ((#[trigger] looks[i]) matches Some(task) && !is_terminal(
                state_name(task),
            )),
    ensures
        streamed(task_id, state, looks).len() > 0,
        streamed(task_id, state, looks).last() == final_event(looks[at]->0),
    decreases at,
{
    if at > 0 {
        let step = stepped(task_id, state, looks[0]);
        let rest = looks.drop_first();
        assert forall|i: int| 0 <= i < at - 1 implies ((#[trigger] rest[i]) matches Some(task)
            && !is_terminal(state_name(task))) by {
            assert(rest[i] == looks[i + 1]);
        }
        law_stream_ends_with_task(task_id, step.state, rest, at - 1);
    }
}

/// Each status event of a stream tells another state than the one before it did, and the first
/// another than `state`.
pub proof fn law_status_events_tell_changes(
    task_id: Seq<char>,
    state: Seq<char>,
    looks: Seq<Option<JsonTree>>,
    i: int,
)
    requires
        0 <= i < streamed(task_id, state, looks).len(),
        is_status_event(streamed(task_id, state, looks)[i]),
    ensures
        i == 0 ==> told_state(streamed(task_id, state, looks)[i]) != state,
        i > 0 ==> is_status_event(streamed(task_id, state, looks)[i - 1]) && told_state(
            streamed(task_id, state, looks)[i],
        ) != told_state(streamed(task_id, state, looks)[i - 1]),
    decreases looks.len(),
{
    let events = streamed(task_id, state, looks);
    let step = stepped(task_id, state, looks[0]);
    if looks[0] is Some {
        lemma_events(task_id, looks[0]->0);
    }
    if !step.done && i >= step.events().len() {
        let rest = streamed(task_id, step.state, looks.drop_first());
        let j = i - step.events().len();
        assert(rest[j] == events[i]);
        if j > 0 {
            assert(rest[j - 1] == events[i - 1]);
        }
        law_status_events_tell_changes(task_id, step.state, looks.drop_first(), j);
    }
}

} // verus!
