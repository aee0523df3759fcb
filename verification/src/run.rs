//! The runs of tasks: what a backend is asked, and what becomes of its answer.

use crate::backend::{
    BackendCancelRequest, BackendExecutionResult, BackendRequest, ExecutionModel,
};
use crate::config::Config;
use crate::json::{Json, JsonTree};
use crate::registry::{lookup, put, without};
use crate::service::{RunModel, TaskRun};
use crate::state::{AppState, Model, OptionsModel, RunningModel, RunningTask};
use crate::task::{
    annotate_task, annotated, lemma_tasks_annotatable, task_result_with_trace, traced_tree,
};
use crate::text::{is_blank, opt_text, trimmed};
use vstd::prelude::*;

verus! {

/// Which registries are to be saved.
#[derive(Clone, Copy)]
pub struct Saves {
    pub tasks: bool,
    pub contexts: bool,
}

impl Model {
    /// The session that a context is bound to.
    pub open spec fn session_of(self, context_id: Seq<char>) -> Option<Seq<char>> {
        match lookup(self.sessions, context_id) {
            Some(record) => Some(record.codex_session_id),
            None => None,
        }
    }
}

impl RunModel {
    /// The task after its run.
    pub open spec fn ended_task(
        self,
        state: Seq<char>,
        text: Seq<char>,
        trace: JsonTree,
        now: u64,
    ) -> JsonTree {
        annotated(
            traced_tree(self.task_id, state, text, self.context_id, self.options, trace),
            self.task_id,
            self.context_id,
            self.send_alias,
            self.context_alias,
            now,
        )
    }
}

/// What the backend is asked for a run: its text, its options, and the session to go on with.
pub open spec fn asked(model: Model, run: RunModel) -> (
    Seq<char>,
    OptionsModel,
    Option<Seq<char>>,
) {
    (run.text, run.options, model.session_of(run.context_id))
}

/// A run has been started by a process. Where its task was canceled meanwhile, the process is to be
/// ended.
pub open spec fn started(model: Model, run: RunModel, pid: u32, now: u64) -> (Model, Option<u32>) {
    if model.canceled(run.task_id) {
        (model, Some(pid))
    } else {
        (
            Model {
                running: put(
                    model.running,
                    run.task_id,
                    RunningModel { pid, context_id: run.context_id, started_at: now },
                ),
                ..model
            },
            None,
        )
    }
}

/// A run could not be started: the task has failed, unless it was canceled.
pub open spec fn start_failed(
    model: Model,
    run: RunModel,
    message: Seq<char>,
    trace: JsonTree,
    now: u64,
) -> (Model, Saves) {
    if model.canceled(run.task_id) {
        (model, Saves { tasks: false, contexts: false })
    } else {
        (
            model.with_task(run.task_id, run.ended_task("failed"@, message, trace, now)),
            Saves { tasks: true, contexts: false },
        )
    }
}

/// The task after a run that ended with the result.
pub open spec fn result_task(
    run: RunModel,
    result: ExecutionModel,
    trace: JsonTree,
    now: u64,
) -> JsonTree {
    if result.success {
        let text = if trimmed(result.message).len() == 0 {
            "(empty response)"@
        } else {
            result.message
        };
        run.ended_task("completed"@, text, trace, now)
    } else {
        run.ended_task("failed"@, result.message, trace, now)
    }
}

/// A run has ended: the task does not run any more. One that has been canceled stays so; any other
/// is kept as completed or failed, and its context is bound to the session of the run.
pub open spec fn finished(
    config: Config,
    model: Model,
    run: RunModel,
    result: ExecutionModel,
    trace: JsonTree,
    now: u64,
) -> (Model, Saves) {
    let rest = Model { running: without(model.running, run.task_id), ..model };
    if model.canceled(run.task_id) {
        (rest, Saves { tasks: false, contexts: false })
    } else {
        let bound = match result.resume_session_id {
            Some(session) => rest.with_binding(
                config,
                run.context_id,
                session,
                "codex-thread-started"@,
                now,
            ),
            None => rest,
        };
        (
            bound.with_task(run.task_id, result_task(run, result, trace, now)),
            Saves { tasks: true, contexts: result.resume_session_id is Some },
        )
    }
}

/// The task after its run.
fn ended_json(run: &TaskRun, state: &str, text: &str, trace: Json, now: u64) -> (task: Json)
    ensures
        task@ == run@.ended_task(state@, text@, trace@, now),
{
    proof {
        lemma_tasks_annotatable(
            run.task_id@,
            state@,
            text@,
            run.context_id@,
            run.options@,
            trace@,
        );
    }
    annotate_task(
        task_result_with_trace(
            run.task_id.as_str(),
            state,
            text,
            run.context_id.as_str(),
            &run.options,
            trace,
        ),
        run.task_id.as_str(),
        run.context_id.as_str(),
        run.send_alias,
        run.context_alias,
        now,
    )
}

impl AppState {
    /// What the backend is asked for a run: to go on with the session that the context is bound
    /// to, where there is one.
    pub fn backend_request(&self, run: &TaskRun) -> (request: BackendRequest)
        requires
            self.wf(),
        ensures
            request.prompt@ == run.text@,
            request.options@ == run.options@,
            opt_text(request.resume_session_id) == self.model().session_of(run.context_id@),
            (request.prompt@, request.options@, opt_text(request.resume_session_id)) == asked(
                self.model(),
                run@,
            ),
    {
        let resume_session_id = match self.sessions.get(run.context_id.as_str()) {
            Some(record) => Some(record.codex_session_id.clone()),
            None => None,
        };
        BackendRequest {
            prompt: run.text.clone(),
            options: run.options.clone(),
            resume_session_id,
        }
    }

    /// Tells whether a run may be started: its task has not been canceled.
    pub fn may_start(&self, run: &TaskRun) -> (yes: bool)
        requires
            self.wf(),
        ensures
            yes == !self.model().canceled(run.task_id@),
    {
        !self.task_is_canceled(run.task_id.as_str())
    }

    /// Notes that a run has been started. Where its task was canceled meanwhile, the run is to be
    /// canceled.
    pub fn task_started(&mut self, run: &TaskRun, pid: u32, now: u64) -> (cancel: Option<
        BackendCancelRequest,
    >)
        requires
            old(self).wf(),
        ensures
            final(self).wf(),
            final(self).config == old(self).config,
            final(self).model() == started(old(self).model(), run@, pid, now).0,
            match cancel {
                Some(request) => started(old(self).model(), run@, pid, now).1 == Some(request.pid),
                None => started(old(self).model(), run@, pid, now).1 is None,
            },
    {
        if !self.may_start(run) {
            return Some(BackendCancelRequest { pid });
        }
        self.running.insert(
            run.task_id.as_str(),
            RunningTask { pid, context_id: run.context_id.clone(), started_at: now },
        );
        None
    }

    /// Notes that a run could not be started.
    pub fn task_start_failed(&mut self, run: &TaskRun, message: &str, trace: Json, now: u64) -> (
        saves: Saves)
        requires
            old(self).wf(),
        ensures
            final(self).wf(),
            final(self).config == old(self).config,
            final(self).model() == start_failed(
                old(self).model(),
                run@,
                message@,
                trace@,
                now,
            ).0,
            saves == start_failed(old(self).model(), run@, message@, trace@, now).1,
    {
        if !self.may_start(run) {
            return Saves { tasks: false, contexts: false };
        }
        let task = ended_json(run, "failed", message, trace, now);
        self.persist_task(run.task_id.as_str(), task);
        Saves { tasks: true, contexts: false }
    }

    /// Notes that a run has ended.
    pub fn task_finished(
        &mut self,
        run: &TaskRun,
        result: &BackendExecutionResult,
        trace: Json,
        now: u64,
    ) -> (saves: Saves)
        requires
            old(self).wf(),
        ensures
            final(self).wf(),
            final(self).config == old(self).config,
            final(self).model() == finished(
                *old(self).config,
                old(self).model(),
                run@,
                result@,
                trace@,
                now,
            ).0,
            saves == finished(
                *old(self).config,
                old(self).model(),
                run@,
                result@,
                trace@,
                now,
            ).1,
    {
        let _ = self.running.remove(run.task_id.as_str());
        if self.task_is_canceled(run.task_id.as_str()) {
            return Saves { tasks: false, contexts: false };
        }
        let mut contexts = false;
        match &result.resume_session_id {
            Some(session) => {
                self.upsert_context_record(
                    run.context_id.as_str(),
                    session.as_str(),
                    "codex-thread-started",
                    now,
                );
                contexts = true;
            },
            None => {},
        }
        let task = if !result.success {
            ended_json(run, "failed", result.message.as_str(), trace, now)
        } else if is_blank(result.message.as_str()) {
            ended_json(run, "completed", "(empty response)", trace, now)
        } else {
            ended_json(run, "completed", result.message.as_str(), trace, now)
        };
        self.persist_task(run.task_id.as_str(), task);
        Saves { tasks: true, contexts }
    }
}

} // verus!
