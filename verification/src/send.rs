//! Sending messages: how a task is taken on, and how a context is bound to a session.

use crate::config::Config;
use crate::json::{Json, JsonTree};
use crate::service::{
    context_key, duplicate_message, duplicate_text, error_tree,
    invalid_params, new_id, plain_reply, result_json, result_tree, server_busy, stamped, Moment,
    Reply, ReplyModel, RunModel, SubmitTaskError, TaskRun,
};
use crate::state::{AppState, Model, OptionsModel, TaskOptions};
use crate::task::{
    annotate_task, annotated, extract_text, lemma_tasks_annotatable, message_text, options_for,
    submitted_tree, task_options, task_result, task_tree, Directory,
};
use crate::text::{is_blank, opt_text, trimmed};
use vstd::prelude::*;
use vstd::string::*;

verus! {

/// What a task is made for, and the names that it was asked for by.
pub struct Order {
    pub task_id: String,
    pub context_id: String,
    pub send_alias: bool,
    pub context_alias: bool,
    pub now: u64,
    /// The context registry is to be saved.
    pub save_contexts: bool,
}

/// What an order says.
pub struct OrderModel {
    pub task_id: Seq<char>,
    pub context_id: Seq<char>,
    pub send_alias: bool,
    pub context_alias: bool,
    pub now: u64,
    pub save_contexts: bool,
}

impl View for Order {
    type V = OrderModel;

    open spec fn view(&self) -> OrderModel {
        OrderModel {
            task_id: self.task_id@,
            context_id: self.context_id@,
            send_alias: self.send_alias,
            context_alias: self.context_alias,
            now: self.now,
            save_contexts: self.save_contexts,
        }
    }
}

impl OrderModel {
    /// The task that has failed with the message.
    pub open spec fn failed_task(self, message: Seq<char>) -> JsonTree {
        annotated(
            task_tree(self.task_id, "failed"@, message, self.context_id),
            self.task_id,
            self.context_id,
            self.send_alias,
            self.context_alias,
            self.now,
        )
    }

    /// The task that has been taken on.
    pub open spec fn working_task(self) -> JsonTree {
        annotated(
            submitted_tree(self.task_id, self.context_id),
            self.task_id,
            self.context_id,
            self.send_alias,
            self.context_alias,
            self.now,
        )
    }

    /// The run of the task.
    pub open spec fn run(self, text: Seq<char>, options: OptionsModel) -> RunModel {
        RunModel {
            task_id: self.task_id,
            context_id: self.context_id,
            text,
            options,
            send_alias: self.send_alias,
            context_alias: self.context_alias,
        }
    }
}

/// The answer with an error, after the context registry may have changed.
pub open spec fn refusal(
    id: JsonTree,
    code: int,
    message: Seq<char>,
    save_contexts: bool,
) -> ReplyModel {
    ReplyModel { save_contexts, ..ReplyModel::plain(error_tree(id, code, message)) }
}

/// The answer with a task that is kept from now on.
pub open spec fn kept(
    id: JsonTree,
    task: JsonTree,
    save_contexts: bool,
    start: Option<RunModel>,
) -> ReplyModel {
    ReplyModel {
        status: 200,
        payload: result_tree(id, task),
        save_tasks: true,
        save_contexts,
        start,
        cancel: None,
    }
}

/// A task fails before it runs: it is kept, and it is the answer.
pub open spec fn failed_at_once(
    model: Model,
    id: JsonTree,
    order: OrderModel,
    message: Seq<char>,
) -> (Model, ReplyModel) {
    let task = order.failed_task(message);
    (model.with_task(order.task_id, task), kept(id, task, order.save_contexts, None))
}

/// A task is taken on, unless its name is taken or as many tasks are being worked on as are
/// allowed.
pub open spec fn admitted(
    model: Model,
    limit: usize,
    id: JsonTree,
    order: OrderModel,
    run: RunModel,
) -> (Model, ReplyModel) {
    if model.task_map().dom().contains(order.task_id) {
        (model, refusal(id, -32602, duplicate_message(order.task_id), order.save_contexts))
    } else if model.working() >= limit {
        (model, refusal(id, -32004, "Server busy"@, order.save_contexts))
    } else {
        let task = order.working_task();
        (model.with_task(order.task_id, task), kept(id, task, order.save_contexts, Some(run)))
    }
}

/// The name of the task that a message asks for.
pub open spec fn wanted_id(params: JsonTree, moment: Moment) -> Seq<char> {
    match params.text_at("id"@) {
        Some(id) => id,
        None => match params.at("message"@).text_at("messageId"@) {
            Some(id) => id,
            None => stamped("task-"@, moment.nanos, moment.seq),
        },
    }
}

/// The name of the task that a message asks for.
pub fn task_id_from_params(params: &Json, moment: &Moment) -> (task_id: String)
    ensures
        task_id@ == wanted_id(params@, *moment),
{
    match params.text_at("id") {
        Some(id) => id.to_owned(),
        None => match params.at("message").text_at("messageId") {
            Some(id) => id.to_owned(),
            None => new_id(moment.nanos, moment.seq),
        },
    }
}

/// The session that a message is to go on with: named in the metadata, or else beside it.
pub open spec fn wanted_session(params: JsonTree) -> Option<Seq<char>> {
    match params.at("metadata"@).get("resumeSessionId"@) {
        Some(session) => session.as_text(),
        None => params.text_at("resumeSessionId"@),
    }
}

/// The session that a message is to go on with.
fn session_from_params(params: &Json) -> (session: Option<String>)
    ensures
        opt_text(session) == wanted_session(params@),
{
    match params.at("metadata").get("resumeSessionId") {
        Some(session) => match session.as_str() {
            Some(text) => Some(text.to_owned()),
            None => None,
        },
        None => match params.text_at("resumeSessionId") {
            Some(text) => Some(text.to_owned()),
            None => None,
        },
    }
}

/// What `message/send` does: a task under a name that is known is refused; the context is bound
/// to the session that the message names; a task that may not write as it wants to, or has
/// nothing to say, fails at once; any other is taken on.
pub open spec fn sent(
    config: Config,
    model: Model,
    id: JsonTree,
    params: JsonTree,
    send_alias: bool,
    moment: Moment,
    directory: Option<Directory>,
) -> (Model, ReplyModel) {
    let task_id = wanted_id(params, moment);
    let (context_id, context_alias) = context_key(params, model.contexts_in_use(), moment);
    if model.knows(task_id) {
        (model, refusal(id, -32602, duplicate_message(task_id), false))
    } else {
        let bound = match wanted_session(params) {
            Some(session) => model.with_binding(
                config,
                context_id,
                session,
                if context_alias {
                    "deprecated-sessionId-alias"@
                } else {
                    "message-send"@
                },
                moment.now,
            ),
            None => model,
        };
        let order = OrderModel {
            task_id,
            context_id,
            send_alias,
            context_alias,
            now: moment.now,
            save_contexts: wanted_session(params) is Some,
        };
        let text = message_text(params.at("message"@));
        match options_for(params, config.default_working_directory@, directory) {
            Err(message) => failed_at_once(bound, id, order, message),
            Ok(options) => if trimmed(text).len() == 0 {
                failed_at_once(bound, id, order, "Empty message"@)
            } else {
                admitted(bound, config.max_concurrent_tasks, id, order, order.run(text, options))
            },
        }
    }
}

/// The session that a context is to be bound to.
pub open spec fn bound_session(params: JsonTree) -> Option<Seq<char>> {
    match params.get("resumeSessionId"@) {
        Some(session) => session.as_text(),
        None => params.text_at("codexSessionId"@),
    }
}

/// The session that a context is to be bound to.
fn bound_session_from_params(params: &Json) -> (session: Option<String>)
    ensures
        opt_text(session) == bound_session(params@),
{
    match params.get("resumeSessionId") {
        Some(session) => match session.as_str() {
            Some(text) => Some(text.to_owned()),
            None => None,
        },
        None => match params.text_at("codexSessionId") {
            Some(text) => Some(text.to_owned()),
            None => None,
        },
    }
}

/// What is said of the use of the old name of a context.
pub open spec fn alias_note(context_alias: bool) -> JsonTree {
    JsonTree::object().with("deprecatedSessionIdAliasUsed"@, JsonTree::Bool(context_alias))
}

/// What is said of the use of the old name of a context.
pub fn alias_note_json(context_alias: bool) -> (json: Json)
    ensures
        json@ == alias_note(context_alias),
{
    Json::object().with("deprecatedSessionIdAliasUsed", Json::Bool(context_alias))
}

/// What is said of a context that has been bound to a session.
pub open spec fn bound_tree(context_id: Seq<char>, session: Seq<char>, context_alias: bool)
    -> JsonTree {
    JsonTree::object().with("contextId"@, JsonTree::Text(context_id)).with(
        "resumeSessionId"@,
        JsonTree::Text(session),
    ).with("status"@, JsonTree::Text("bound"@)).with("metadata"@, alias_note(context_alias))
}

/// The name of the task that a resumed session is to go on with.
pub open spec fn resumed_id(params: JsonTree, moment: Moment) -> Seq<char> {
    match params.text_at("id"@) {
        Some(id) => id,
        None => stamped("task-"@, moment.nanos, moment.seq),
    }
}

/// What `sessions/resume` does: the context is bound to the session; where there is a message
/// with something to say, a task is taken on too, and fails at once where it may not write as it
/// wants to.
pub open spec fn resumed(
    config: Config,
    model: Model,
    id: JsonTree,
    params: JsonTree,
    moment: Moment,
    directory: Option<Directory>,
) -> (Model, ReplyModel) {
    let (context_id, context_alias) = context_key(params, model.contexts_in_use(), moment);
    match bound_session(params) {
        None => (model, refusal(id, -32602, "Missing resumeSessionId"@, false)),
        Some(session) => {
            let bound = model.with_binding(
                config,
                context_id,
                session,
                if context_alias {
                    "deprecated-sessionId-alias"@
                } else {
                    "sessions-resume"@
                },
                moment.now,
            );
            let text = message_text(params.at("message"@));
            if trimmed(text).len() == 0 {
                (
                    bound,
                    ReplyModel {
                        save_contexts: true,
                        ..ReplyModel::plain(
                            result_tree(id, bound_tree(context_id, session, context_alias)),
                        )
                    },
                )
            } else {
                let order = OrderModel {
                    task_id: resumed_id(params, moment),
                    context_id,
                    send_alias: false,
                    context_alias,
                    now: moment.now,
                    save_contexts: true,
                };
                if model.knows(order.task_id) {
                    (bound, refusal(id, -32602, duplicate_message(order.task_id), true))
                } else {
                    match options_for(params, config.default_working_directory@, directory) {
                        Ok(options) => admitted(
                            bound,
                            config.max_concurrent_tasks,
                            id,
                            order,
                            order.run(text, options),
                        ),
                        Err(message) => if bound.working() >= config.max_concurrent_tasks {
                            (bound, refusal(id, -32004, "Server busy"@, true))
                        } else {
                            failed_at_once(bound, id, order, message)
                        },
                    }
                }
            }
        },
    }
}

impl AppState {
    /// Keeps a task that has failed before it ran.
    fn fail_at_once(&mut self, id: Json, order: &Order, message: &str) -> (reply: Reply)
        requires
            old(self).wf(),
        ensures
            final(self).wf(),
            final(self).config == old(self).config,
            final(self).model() == failed_at_once(old(self).model(), id@, order@, message@).0,
            reply@ == failed_at_once(old(self).model(), id@, order@, message@).1,
    {
        let task = task_result(
            order.task_id.as_str(),
            "failed",
            message,
            order.context_id.as_str(),
        );
        proof {
            lemma_tasks_annotatable(
                order.task_id@,
                "failed"@,
                message@,
                order.context_id@,
                arbitrary(),
                arbitrary(),
            );
        }
        let task = annotate_task(
            task,
            order.task_id.as_str(),
            order.context_id.as_str(),
            order.send_alias,
            order.context_alias,
            order.now,
        );
        self.persist_task(order.task_id.as_str(), task.clone());
        Reply {
            status: 200,
            payload: result_json(id, task),
            save_tasks: true,
            save_contexts: order.save_contexts,
            start: None,
            cancel: None,
        }
    }

    /// Takes a task on, where its name is free and not too many are being worked on.
    fn take_on(&mut self, id: Json, order: Order, text: String, options: TaskOptions) -> (reply: Reply)
        requires
            old(self).wf(),
        ensures
            final(self).wf(),
            final(self).config == old(self).config,
            final(self).model() == admitted(
                old(self).model(),
                old(self).config.max_concurrent_tasks,
                id@,
                order@,
                order@.run(text@, options@),
            ).0,
            reply@ == admitted(
                old(self).model(),
                old(self).config.max_concurrent_tasks,
                id@,
                order@,
                order@.run(text@, options@),
            ).1,
    {
        let task = task_result(
            order.task_id.as_str(),
            "working",
            "(processing - poll with tasks/get)",
            order.context_id.as_str(),
        );
        proof {
            lemma_tasks_annotatable(
                order.task_id@,
                "working"@,
                "(processing - poll with tasks/get)"@,
                order.context_id@,
                arbitrary(),
                arbitrary(),
            );
        }
        let task = annotate_task(
            task,
            order.task_id.as_str(),
            order.context_id.as_str(),
            order.send_alias,
            order.context_alias,
            order.now,
        );
        match self.persist_new_working_task(order.task_id.as_str(), task.clone()) {
            Err(SubmitTaskError::Duplicate) => {
                let message = duplicate_text(order.task_id.as_str());
                let mut reply = invalid_params(id, message.as_str());
                reply.save_contexts = order.save_contexts;
                reply
            },
            Err(SubmitTaskError::Busy) => {
                let mut reply = server_busy(id);
                reply.save_contexts = order.save_contexts;
                reply
            },
            Ok(_) => Reply {
                status: 200,
                payload: result_json(id, task),
                save_tasks: true,
                save_contexts: order.save_contexts,
                start: Some(
                    TaskRun {
                        task_id: order.task_id,
                        context_id: order.context_id,
                        text,
                        options,
                        send_alias: order.send_alias,
                        context_alias: order.context_alias,
                    },
                ),
                cancel: None,
            },
        }
    }

    /// Answers `message/send`. `directory` is what the disk says of the directory that the task
    /// wants to write in.
    pub fn send_task(
        &mut self,
        id: Json,
        params: &Json,
        send_alias: bool,
        moment: &Moment,
        directory: &Option<Directory>,
    ) -> (reply: Reply)
        requires
            old(self).wf(),
        ensures
            final(self).wf(),
            final(self).config == old(self).config,
            final(self).model() == sent(
                *old(self).config,
                old(self).model(),
                id@,
                params@,
                send_alias,
                *moment,
                *directory,
            ).0,
            reply@ == sent(
                *old(self).config,
                old(self).model(),
                id@,
                params@,
                send_alias,
                *moment,
                *directory,
            ).1,
    {
        let task_id = task_id_from_params(params, moment);
        let (context_id, context_alias) = self.context_key_from_params(params, moment);
        if self.task_id_exists(task_id.as_str()) {
            let message = duplicate_text(task_id.as_str());
            return invalid_params(id, message.as_str());
        }
        let mut save_contexts = false;
        match session_from_params(params) {
            Some(session) => {
                let source = if context_alias {
                    "deprecated-sessionId-alias"
                } else {
                    "message-send"
                };
                self.upsert_context_record(
                    context_id.as_str(),
                    session.as_str(),
                    source,
                    moment.now,
                );
                save_contexts = true;
            },
            None => {},
        }
        let order = Order {
            task_id,
            context_id,
            send_alias,
            context_alias,
            now: moment.now,
            save_contexts,
        };
        let options = match task_options(params, &self.config, directory) {
            Ok(options) => options,
            Err(message) => return self.fail_at_once(id, &order, message.as_str()),
        };
        let text = extract_text(&params.at("message"));
        if is_blank(text.as_str()) {
            return self.fail_at_once(id, &order, "Empty message");
        }
        self.take_on(id, order, text, options)
    }

    /// Answers `sessions/resume`. `directory` is what the disk says of the directory that the
    /// task wants to write in.
    pub fn resume_session(
        &mut self,
        id: Json,
        params: &Json,
        moment: &Moment,
        directory: &Option<Directory>,
    ) -> (reply: Reply)
        requires
            old(self).wf(),
        ensures
            final(self).wf(),
            final(self).config == old(self).config,
            final(self).model() == resumed(
                *old(self).config,
                old(self).model(),
                id@,
                params@,
                *moment,
                *directory,
            ).0,
            reply@ == resumed(
                *old(self).config,
                old(self).model(),
                id@,
                params@,
                *moment,
                *directory,
            ).1,
    {
        let (context_id, context_alias) = self.context_key_from_params(params, moment);
        let session = match bound_session_from_params(params) {
            Some(session) => session,
            None => return invalid_params(id, "Missing resumeSessionId"),
        };
        let source = if context_alias {
            "deprecated-sessionId-alias"
        } else {
            "sessions-resume"
        };
        self.upsert_context_record(context_id.as_str(), session.as_str(), source, moment.now);
        let text = extract_text(&params.at("message"));
        if is_blank(text.as_str()) {
            let result = Json::object().with("contextId", Json::Text(context_id)).with(
                "resumeSessionId",
                Json::Text(session),
            ).with("status", Json::text("bound")).with("metadata", alias_note_json(context_alias));
            let mut reply = plain_reply(result_json(id, result));
            reply.save_contexts = true;
            return reply;
        }
        let task_id = match params.text_at("id") {
            Some(id) => id.to_owned(),
            None => new_id(moment.nanos, moment.seq),
        };
        if self.task_id_exists(task_id.as_str()) {
            let message = duplicate_text(task_id.as_str());
            let mut reply = invalid_params(id, message.as_str());
            reply.save_contexts = true;
            return reply;
        }
        let order = Order {
            task_id,
            context_id,
            send_alias: false,
            context_alias,
            now: moment.now,
            save_contexts: true,
        };
        match task_options(params, &self.config, directory) {
            Ok(options) => self.take_on(id, order, text, options),
            Err(message) => {
                if self.active_count() >= self.config.max_concurrent_tasks {
                    let mut reply = server_busy(id);
                    reply.save_contexts = true;
                    return reply;
                }
                self.fail_at_once(id, &order, message.as_str())
            },
        }
    }
}

} // verus!
