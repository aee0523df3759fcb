//! What requests and runs do to the tasks and contexts that the server keeps.

use crate::backend::BackendCancelRequest;
use crate::config::{BackendKind, Config};
use crate::json::{Json, JsonTree};
use crate::registry::{entry_map, lemma_entry_names, lookup, put};
use crate::state::{AppState, ContextModel, ContextRecord, Model, OptionsModel, TaskOptions};
use crate::task::{in_state, task_in_state};
use crate::text::{decimal, decimal_text, opt_text, same_text};
use vstd::prelude::*;
use vstd::string::*;

verus! {

/// The time of a request, and a number that no other request has.
#[derive(Clone, Copy)]
pub struct Moment {
    /// Seconds since the epoch.
    pub now: u64,
    /// Nanoseconds since the epoch.
    pub nanos: u128,
    /// A number that no other request has.
    pub seq: u64,
}

/// A prefix, the time and the number of a request.
pub open spec fn stamped(prefix: Seq<char>, nanos: u128, seq: u64) -> Seq<char> {
    prefix + decimal(nanos as nat) + "-"@ + decimal(seq as nat)
}

/// A prefix, the time and the number of a request.
fn stamp(prefix: &str, nanos: u128, seq: u64) -> (id: String)
    ensures
        id@ == stamped(prefix@, nanos, seq),
{
    let mut id = prefix.to_owned();
    id.append(decimal_text(nanos).as_str());
    id.append("-");
    id.append(decimal_text(seq as u128).as_str());
    id
}

/// The name of a task that its request does not name.
pub fn new_id(nanos: u128, seq: u64) -> (id: String)
    ensures
        id@ == stamped("task-"@, nanos, seq),
{
    stamp("task-", nanos, seq)
}

/// A name with some plus signs after it.
pub open spec fn suffixed(base: Seq<char>, count: nat) -> Seq<char> {
    base + Seq::new(count, |i: int| '+')
}

/// The smallest number of plus signs that makes a name that is not taken.
pub open spec fn first_free(base: Seq<char>, taken: Set<Seq<char>>, count: nat) -> bool {
    &&& !taken.contains(suffixed(base, count))
    &&& forall|k: nat| k < count ==> taken.contains(#[trigger] suffixed(base, k))
}

/// A name that is not taken: `base`, or where that is taken, with as few plus signs after it as
/// it takes.
pub open spec fn fresh_name(base: Seq<char>, taken: Set<Seq<char>>) -> Seq<char> {
    suffixed(base, choose|count: nat| first_free(base, taken, count))
}

/// The context that a request names, and whether by the old name of the field.
pub open spec fn context_filter(params: JsonTree) -> (Option<Seq<char>>, bool) {
    match params.text_at("contextId"@) {
        Some(context_id) => (Some(context_id), false),
        None => match params.text_at("sessionId"@) {
            Some(session_id) => (Some(session_id), true),
            None => (None, false),
        },
    }
}

/// The context that a request names.
pub fn context_filter_from_params(params: &Json) -> (filter: (Option<String>, bool))
    ensures
        (opt_text(filter.0), filter.1) == context_filter(params@),
{
    match params.text_at("contextId") {
        Some(context_id) => (Some(context_id.to_owned()), false),
        None => match params.text_at("sessionId") {
            Some(session_id) => (Some(session_id.to_owned()), true),
            None => (None, false),
        },
    }
}

/// The context of a request: the one that it names, or a fresh one.
pub open spec fn context_key(params: JsonTree, contexts: Set<Seq<char>>, moment: Moment) -> (
    Seq<char>,
    bool,
) {
    match context_filter(params) {
        (Some(context_id), alias) => (context_id, alias),
        (None, _) => (
            fresh_name(stamped("context-"@, moment.nanos, moment.seq), contexts),
            false,
        ),
    }
}

/// A run that is to be started.
pub struct TaskRun {
    pub task_id: String,
    pub context_id: String,
    pub text: String,
    pub options: TaskOptions,
    pub send_alias: bool,
    pub context_alias: bool,
}

/// What a run is.
pub struct RunModel {
    pub task_id: Seq<char>,
    pub context_id: Seq<char>,
    pub text: Seq<char>,
    pub options: OptionsModel,
    pub send_alias: bool,
    pub context_alias: bool,
}

impl View for TaskRun {
    type V = RunModel;

    open spec fn view(&self) -> RunModel {
        RunModel {
            task_id: self.task_id@,
            context_id: self.context_id@,
            text: self.text@,
            options: self.options@,
            send_alias: self.send_alias,
            context_alias: self.context_alias,
        }
    }
}

/// The answer to a request, and what is to be done besides giving it.
pub struct Reply {
    pub status: u16,
    pub payload: Json,
    /// The task registry is to be saved.
    pub save_tasks: bool,
    /// The context registry is to be saved.
    pub save_contexts: bool,
    /// The run to start.
    pub start: Option<TaskRun>,
    /// The run to cancel.
    pub cancel: Option<BackendCancelRequest>,
}

/// What a reply is.
pub struct ReplyModel {
    pub status: u16,
    pub payload: JsonTree,
    pub save_tasks: bool,
    pub save_contexts: bool,
    pub start: Option<RunModel>,
    pub cancel: Option<u32>,
}

impl View for Reply {
    type V = ReplyModel;

    open spec fn view(&self) -> ReplyModel {
        ReplyModel {
            status: self.status,
            payload: self.payload@,
            save_tasks: self.save_tasks,
            save_contexts: self.save_contexts,
            start: match self.start {
                Some(run) => Some(run@),
                None => None,
            },
            cancel: match self.cancel {
                Some(request) => Some(request.pid),
                None => None,
            },
        }
    }
}

impl ReplyModel {
    /// An answer with nothing to be done besides giving it.
    pub open spec fn plain(payload: JsonTree) -> ReplyModel {
        ReplyModel {
            status: 200,
            payload,
            save_tasks: false,
            save_contexts: false,
            start: None,
            cancel: None,
        }
    }
}

/// An answer with nothing to be done besides giving it.
pub fn plain_reply(payload: Json) -> (reply: Reply)
    ensures
        reply@ == ReplyModel::plain(payload@),
{
    Reply {
        status: 200,
        payload,
        save_tasks: false,
        save_contexts: false,
        start: None,
        cancel: None,
    }
}

/// The answer with a result.
pub open spec fn result_tree(id: JsonTree, result: JsonTree) -> JsonTree {
    JsonTree::object().with("jsonrpc"@, JsonTree::Text("2.0"@)).with("result"@, result).with(
        "id"@,
        id,
    )
}

/// The answer with a result.
pub fn result_json(id: Json, result: Json) -> (json: Json)
    ensures
        json@ == result_tree(id@, result@),
{
    Json::object().with("jsonrpc", Json::text("2.0")).with("result", result).with("id", id)
}

/// The answer with an error.
pub open spec fn error_tree(id: JsonTree, code: int, message: Seq<char>) -> JsonTree {
    JsonTree::object().with("jsonrpc"@, JsonTree::Text("2.0"@)).with(
        "error"@,
        JsonTree::object().with("code"@, JsonTree::Integer(code)).with(
            "message"@,
            JsonTree::Text(message),
        ),
    ).with("id"@, id)
}

/// The answer with an error.
pub fn error_json(id: Json, code: i64, message: &str) -> (json: Json)
    ensures
        json@ == error_tree(id@, code as int, message@),
{
    Json::object().with("jsonrpc", Json::text("2.0")).with(
        "error",
        Json::object().with("code", Json::Signed(code)).with("message", Json::text(message)),
    ).with("id", id)
}

/// The answer to a request with wrong parameters.
pub fn invalid_params(id: Json, message: &str) -> (reply: Reply)
    ensures
        reply@ == ReplyModel::plain(error_tree(id@, -32602, message@)),
{
    plain_reply(error_json(id, -32602, message))
}

/// The answer to a request for one task too many.
pub fn server_busy(id: Json) -> (reply: Reply)
    ensures
        reply@ == ReplyModel::plain(error_tree(id@, -32004, "Server busy"@)),
{
    plain_reply(error_json(id, -32004, "Server busy"))
}

/// What is said of a task's name that is taken.
pub open spec fn duplicate_message(task_id: Seq<char>) -> Seq<char> {
    "Duplicate task id: "@ + task_id
}

/// What is said of a task's name that is taken.
pub fn duplicate_text(task_id: &str) -> (message: String)
    ensures
        message@ == duplicate_message(task_id@),
{
    let mut message = "Duplicate task id: ".to_owned();
    message.append(task_id);
    message
}

/// The record of a context bound to a session: it keeps the time of its making.
pub open spec fn bound_record(
    sessions: Seq<(Seq<char>, ContextModel)>,
    context_id: Seq<char>,
    codex_session_id: Seq<char>,
    backend_kind: Seq<char>,
    resume_source: Seq<char>,
    now: u64,
) -> ContextModel {
    ContextModel {
        codex_session_id,
        created_at: match lookup(sessions, context_id) {
            Some(record) => record.created_at,
            None => now,
        },
        updated_at: now,
        backend_kind,
        resume_source,
    }
}

impl Model {
    /// A context is in use: it has a record, or a kept or running task belongs to it.
    pub open spec fn uses_context(self, context_id: Seq<char>) -> bool {
        ||| self.session_map().dom().contains(context_id)
        ||| exists|i: int|
            0 <= i < self.tasks.len() && (#[trigger] self.tasks[i]).1.text_at("contextId"@) == Some(
                context_id,
            )
        ||| exists|i: int|
            0 <= i < self.running.len() && (#[trigger] self.running[i]).1.context_id == context_id
    }

    /// The contexts that are in use.
    pub open spec fn contexts_in_use(self) -> Set<Seq<char>> {
        Set::new(|context_id: Seq<char>| self.uses_context(context_id))
    }

    /// The model with a context bound to a session.
    pub open spec fn with_binding(
        self,
        config: Config,
        context_id: Seq<char>,
        codex_session_id: Seq<char>,
        resume_source: Seq<char>,
        now: u64,
    ) -> Model {
        Model {
            sessions: put(
                self.sessions,
                context_id,
                bound_record(
                    self.sessions,
                    context_id,
                    codex_session_id,
                    config.backend.kind_name(),
                    resume_source,
                    now,
                ),
            ),
            ..self
        }
    }

    /// The number of tasks that are being worked on.
    pub open spec fn working(self) -> nat {
        self.tasks.filter(|e: (Seq<char>, JsonTree)| in_state(e.1, "working"@)).len()
    }

    /// A task with the name is kept or runs.
    pub open spec fn knows(self, task_id: Seq<char>) -> bool {
        entry_map(self.tasks).dom().contains(task_id) || entry_map(self.running).dom().contains(
            task_id,
        )
    }

    /// The task is in flight: it runs, or it is kept as one that is worked on.
    pub open spec fn in_flight(self, task_id: Seq<char>) -> bool {
        entry_map(self.running).dom().contains(task_id) || (lookup(
            self.tasks,
            task_id,
        ) matches Some(task) && in_state(task, "working"@))
    }

    /// The task has been canceled.
    pub open spec fn canceled(self, task_id: Seq<char>) -> bool {
        lookup(self.tasks, task_id) matches Some(task) && in_state(task, "canceled"@)
    }
}

/// Why a task is not taken on.
#[derive(Debug, PartialEq, Eq, Structural)]
pub enum SubmitTaskError {
    /// A task with the name is kept.
    Duplicate,
    /// As many tasks as are allowed are being worked on.
    Busy,
}

impl AppState {
    /// Tells whether a context is in use.
    pub fn context_in_use(&self, context_id: &str) -> (used: bool)
        requires
            self.wf(),
        ensures
            used == self.model().uses_context(context_id@),
    {
        if self.sessions.contains_key(context_id) {
            return true;
        }
        let ghost model = self.model();
        let mut i: usize = 0;
        while i < self.tasks.list.len()
            invariant
                i <= self.tasks.list.len(),
                model == self.model(),
                forall|j: int|
                    0 <= j < i ==> (#[trigger] model.tasks[j]).1.text_at("contextId"@) != Some(
                        context_id@,
                    ),
            decreases self.tasks.list.len() - i,
        {
            assert(model.tasks[i as int].1 == self.tasks.list@[i as int].1@);
            match self.tasks.list[i].1.text_at("contextId") {
                Some(text) => {
                    if same_text(text, context_id) {
                        return true;
                    }
                },
                None => {},
            }
            i = i + 1;
        }
        let mut k: usize = 0;
        while k < self.running.list.len()
            invariant
                k <= self.running.list.len(),
                model == self.model(),
                forall|j: int|
                    0 <= j < k ==> (#[trigger] model.running[j]).1.context_id != context_id@,
            decreases self.running.list.len() - k,
        {
            assert(model.running[k as int].1 == self.running.list@[k as int].1@);
            if same_text(self.running.list[k].1.context_id.as_str(), context_id) {
                return true;
            }
            k = k + 1;
        }
        false
    }

    /// A length that no context in use has more than.
    fn longest_context(&self) -> (longest: usize)
        ensures
            forall|context_id: Seq<char>| #[trigger]
                self.model().uses_context(context_id) ==> context_id.len() <= longest,
    {
        let ghost model = self.model();
        let mut longest: usize = 0;
        let mut i: usize = 0;
        while i < self.sessions.list.len()
            invariant
                i <= self.sessions.list.len(),
                model == self.model(),
                forall|j: int| 0 <= j < i ==> (#[trigger] model.sessions[j]).0.len() <= longest,
            decreases self.sessions.list.len() - i,
        {
            assert(model.sessions[i as int].0 == self.sessions.list@[i as int].0@);
            let length = self.sessions.list[i].0.as_str().unicode_len();
            if length > longest {
                longest = length;
            }
            i = i + 1;
        }
        let mut k: usize = 0;
        while k < self.tasks.list.len()
            invariant
                k <= self.tasks.list.len(),
                model == self.model(),
                forall|j: int|
                    0 <= j < model.sessions.len() ==> (#[trigger] model.sessions[j]).0.len()
                        <= longest,
                forall|j: int|
                    0 <= j < k ==> ((#[trigger] model.tasks[j]).1.text_at("contextId"@) matches Some(
                        text,
                    ) ==> text.len() <= longest),
            decreases self.tasks.list.len() - k,
        {
            assert(model.tasks[k as int].1 == self.tasks.list@[k as int].1@);
            match self.tasks.list[k].1.text_at("contextId") {
                Some(text) => {
                    let length = text.unicode_len();
                    if length > longest {
                        longest = length;
                    }
                },
                None => {},
            }
            k = k + 1;
        }
        let mut m: usize = 0;
        while m < self.running.list.len()
            invariant
                m <= self.running.list.len(),
                model == self.model(),
                forall|j: int|
                    0 <= j < model.sessions.len() ==> (#[trigger] model.sessions[j]).0.len()
                        <= longest,
                forall|j: int|
                    0 <= j < model.tasks.len() ==> ((#[trigger] model.tasks[j]).1.text_at(
                        "contextId"@,
                    ) matches Some(text) ==> text.len() <= longest),
                forall|j: int|
                    0 <= j < m ==> (#[trigger] model.running[j]).1.context_id.len() <= longest,
            decreases self.running.list.len() - m,
        {
            assert(model.running[m as int].1 == self.running.list@[m as int].1@);
            let length = self.running.list[m].1.context_id.as_str().unicode_len();
            if length > longest {
                longest = length;
            }
            m = m + 1;
        }
        proof {
            assert forall|context_id: Seq<char>| #[trigger]
                model.uses_context(context_id) implies context_id.len() <= longest by {
                lemma_entry_names(model.sessions, context_id);
            }
        }
        longest
    }

    /// A name for a context that is not in use.
    fn fresh_context_id(&self, base: String) -> (name: String)
        requires
            self.wf(),
        ensures
            name@ == fresh_name(base@, self.model().contexts_in_use()),
            !self.model().uses_context(name@),
    {
        let ghost model = self.model();
        let longest = self.longest_context();
        let mut name = base.clone();
        let ghost mut count: nat = 0;
        assert(name@ =~= suffixed(base@, 0));
        while self.context_in_use(name.as_str())
            invariant
                self.wf(),
                model == self.model(),
                forall|context_id: Seq<char>| #[trigger]
                    model.uses_context(context_id) ==> context_id.len() <= longest,
                name@ == suffixed(base@, count),
                forall|k: nat| k < count ==> model.uses_context(#[trigger] suffixed(base@, k)),
            decreases longest + 1 - name@.len(),
        {
            name.push('+');
            proof {
                assert(name@ =~= suffixed(base@, count + 1));
                count = count + 1;
            }
        }
        proof {
            let taken = model.contexts_in_use();
            assert(first_free(base@, taken, count));
            let chosen = choose|count: nat| first_free(base@, taken, count);
            if chosen < count {
                assert(taken.contains(suffixed(base@, chosen)));
            } else if count < chosen {
                assert(taken.contains(suffixed(base@, count)));
            }
        }
        name
    }

    /// The context of a request: the one that it names, or a fresh one, which is not in use.
    pub fn context_key_from_params(&self, params: &Json, moment: &Moment) -> (key: (String, bool))
        requires
            self.wf(),
        ensures
            (key.0@, key.1) == context_key(params@, self.model().contexts_in_use(), *moment),
            context_filter(params@).0 is None ==> !self.model().uses_context(key.0@),
    {
        match context_filter_from_params(params) {
            (Some(context_id), alias) => (context_id, alias),
            (None, _) => (
                self.fresh_context_id(stamp("context-", moment.nanos, moment.seq)),
                false,
            ),
        }
    }

    /// Binds a context to a session.
    pub fn upsert_context_record(
        &mut self,
        context_id: &str,
        codex_session_id: &str,
        resume_source: &str,
        now: u64,
    )
        requires
            old(self).wf(),
        ensures
            final(self).wf(),
            final(self).config == old(self).config,
            final(self).model() == old(self).model().with_binding(
                *old(self).config,
                context_id@,
                codex_session_id@,
                resume_source@,
                now,
            ),
    {
        let created_at = match self.sessions.get(context_id) {
            Some(record) => record.created_at,
            None => now,
        };
        let backend_kind = match self.config.backend {
            BackendKind::Cli => "codex-cli".to_owned(),
            BackendKind::Native => "codex-native".to_owned(),
        };
        self.sessions.insert(
            context_id,
            ContextRecord {
                codex_session_id: codex_session_id.to_owned(),
                created_at,
                updated_at: now,
                backend_kind,
                resume_source: resume_source.to_owned(),
            },
        );
    }

    /// Tells whether a task with the name is kept or runs.
    pub fn task_id_exists(&self, task_id: &str) -> (exists_already: bool)
        requires
            self.wf(),
        ensures
            exists_already == self.model().knows(task_id@),
    {
        self.tasks.contains_key(task_id) || self.running.contains_key(task_id)
    }

    /// Tells whether the task has been canceled.
    pub fn task_is_canceled(&self, task_id: &str) -> (canceled: bool)
        requires
            self.wf(),
        ensures
            canceled == self.model().canceled(task_id@),
    {
        match self.tasks.get(task_id) {
            Some(task) => task_in_state(task, "canceled"),
            None => false,
        }
    }

    /// The number of tasks that are being worked on.
    pub fn active_count(&self) -> (count: usize)
        ensures
            count == self.model().working(),
    {
        let ghost all = self.tasks.entries();
        let ghost p = |e: (Seq<char>, JsonTree)| in_state(e.1, "working"@);
        let mut count: usize = 0;
        let mut i: usize = 0;
        proof {
            reveal(Seq::filter);
            assert(all.take(0) =~= Seq::<(Seq<char>, JsonTree)>::empty());
        }
        while i < self.tasks.list.len()
            invariant
                i <= self.tasks.list.len(),
                all == self.tasks.entries(),
                p == (|e: (Seq<char>, JsonTree)| in_state(e.1, "working"@)),
                count == all.take(i as int).filter(p).len(),
                count <= i,
            decreases self.tasks.list.len() - i,
        {
            proof {
                reveal(Seq::filter);
                assert(all.take(i + 1).drop_last() =~= all.take(i as int));
                assert(all.take(i + 1).last() == all[i as int]);
                assert(all[i as int].1 == self.tasks.list@[i as int].1@);
            }
            if task_in_state(&self.tasks.list[i].1, "working") {
                count = count + 1;
            }
            i = i + 1;
        }
        assert(all.take(i as int) =~= all);
        count
    }

    /// Keeps a task under its name.
    pub fn persist_task(&mut self, task_id: &str, task: Json)
        requires
            old(self).wf(),
        ensures
            final(self).wf(),
            final(self).config == old(self).config,
            final(self).model() == old(self).model().with_task(task_id@, task@),
    {
        self.tasks.insert(task_id, task);
    }

    /// Takes on a task, unless its name is taken or too many are being worked on.
    pub fn persist_new_working_task(&mut self, task_id: &str, task: Json) -> (result: Result<
        (),
        SubmitTaskError,
    >)
        requires
            old(self).wf(),
        ensures
            final(self).wf(),
            final(self).config == old(self).config,
            result == (if entry_map(old(self).model().tasks).dom().contains(task_id@) {
                Err(SubmitTaskError::Duplicate)
            } else if old(self).model().working() >= old(self).config.max_concurrent_tasks {
                Err(SubmitTaskError::Busy)
            } else {
                Ok::<(), SubmitTaskError>(())
            }),
            final(self).model() == (if result is Ok {
                old(self).model().with_task(task_id@, task@)
            } else {
                old(self).model()
            }),
    {
        if self.tasks.contains_key(task_id) {
            return Err(SubmitTaskError::Duplicate);
        }
        if self.active_count() >= self.config.max_concurrent_tasks {
            return Err(SubmitTaskError::Busy);
        }
        self.tasks.insert(task_id, task);
        Ok(())
    }
}

} // verus!
