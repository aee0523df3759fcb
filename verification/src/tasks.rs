//! Reading, listing and canceling tasks.

use crate::backend::BackendCancelRequest;
use crate::json::{trees, Json, JsonTree};
use crate::order::{lemma_newest_first_map, newest_first, newest_order, places};
use crate::registry::{lookup, without, Registry};
use crate::send::{alias_note, alias_note_json};
use crate::service::{
    context_filter, context_filter_from_params, error_json, error_tree, plain_reply, result_json,
    result_tree, Reply, ReplyModel,
};
use crate::state::{AppState, Model, RunningModel, RunningTask};
use crate::task::{
    annotate_task, annotated, in_state, lemma_tasks_annotatable, metadata_of, task_in_state,
    task_result, task_tree, task_updated_at, updated_at,
};
use crate::text::{opt_text, same_text};
use vstd::prelude::*;
use vstd::string::*;

verus! {

/// What `tasks/get` answers: the task, as it is now.
pub open spec fn got(model: Model, id: JsonTree, params: JsonTree) -> ReplyModel {
    ReplyModel::plain(
        match params.text_at("id"@) {
            None => error_tree(id, -32602, "Missing task id"@),
            Some(task_id) => match lookup(model.tasks, task_id) {
                Some(task) => result_tree(id, task),
                None => error_tree(id, -32001, "Task not found"@),
            },
        },
    )
}

/// The name of the task that is to be canceled.
pub open spec fn canceled_id(params: JsonTree) -> Option<Seq<char>> {
    match params.get("id"@) {
        Some(id) => id.as_text(),
        None => params.text_at("taskId"@),
    }
}

/// A task that has been canceled, before it says more of that.
pub open spec fn canceled_task(task_id: Seq<char>, context_id: Seq<char>, now: u64) -> JsonTree {
    annotated(
        task_tree(task_id, "canceled"@, "Task canceled by tasks/cancel"@, context_id),
        task_id,
        context_id,
        false,
        false,
        now,
    )
}

/// A task that has been canceled, before it says more of that.
fn canceled_task_json(task_id: &str, context_id: &str, now: u64) -> (task: Json)
    ensures
        task@ == canceled_task(task_id@, context_id@, now),
{
    proof {
        lemma_tasks_annotatable(
            task_id@,
            "canceled"@,
            "Task canceled by tasks/cancel"@,
            context_id@,
            arbitrary(),
            arbitrary(),
        );
    }
    annotate_task(
        task_result(task_id, "canceled", "Task canceled by tasks/cancel", context_id),
        task_id,
        context_id,
        false,
        false,
        now,
    )
}

/// A task that has been canceled while it ran: which process ran it, since when, and when it was
/// canceled.
pub open spec fn canceled_tree(task_id: Seq<char>, running: RunningModel, now: u64) -> JsonTree {
    let task = canceled_task(task_id, running.context_id, now);
    task.with(
        "metadata"@,
        metadata_of(task).with("canceledPid"@, JsonTree::Integer(running.pid as int)).with(
            "startedAt"@,
            JsonTree::Integer(running.started_at as int),
        ).with("canceledAt"@, JsonTree::Integer(now as int)),
    )
}

/// A task that has been canceled while it ran.
fn canceled_json(task_id: &str, running: &RunningTask, now: u64) -> (task: Json)
    ensures
        task@ == canceled_tree(task_id@, running@, now),
{
    let task = canceled_task_json(task_id, running.context_id.as_str(), now);
    let metadata = task.at("metadata").with("canceledPid", Json::Unsigned(running.pid as u64)).with(
        "startedAt",
        Json::Unsigned(running.started_at),
    ).with("canceledAt", Json::Unsigned(now));
    task.with("metadata", metadata)
}

/// The context that a task says it belongs to.
pub open spec fn own_context(task: JsonTree) -> Seq<char> {
    match task.text_at("contextId"@) {
        Some(context_id) => context_id,
        None => ""@,
    }
}

/// A task that has been canceled before it ran: when it was canceled.
pub open spec fn withdrawn_tree(task_id: Seq<char>, context_id: Seq<char>, now: u64) -> JsonTree {
    let task = canceled_task(task_id, context_id, now);
    task.with(
        "metadata"@,
        metadata_of(task).with("canceledAt"@, JsonTree::Integer(now as int)),
    )
}

/// A task that has been canceled before it ran.
fn withdrawn_json(task_id: &str, task: &Json, now: u64) -> (result: Json)
    ensures
        result@ == withdrawn_tree(task_id@, own_context(task@), now),
{
    let context_id = match task.text_at("contextId") {
        Some(context_id) => context_id,
        None => "",
    };
    let task = canceled_task_json(task_id, context_id, now);
    let metadata = task.at("metadata").with("canceledAt", Json::Unsigned(now));
    task.with("metadata", metadata)
}

/// What `tasks/cancel` does: a task that runs does so no more, and it is kept as canceled; so is
/// one that is worked on but does not run yet; any other is answered as it is.
pub open spec fn canceled(model: Model, id: JsonTree, params: JsonTree, now: u64) -> (
    Model,
    ReplyModel,
) {
    match canceled_id(params) {
        None => (model, ReplyModel::plain(error_tree(id, -32602, "Missing task id"@))),
        Some(task_id) => match lookup(model.running, task_id) {
            Some(running) => {
                let task = canceled_tree(task_id, running, now);
                let rest = Model { running: without(model.running, task_id), ..model };
                (
                    rest.with_task(task_id, task),
                    ReplyModel {
                        save_tasks: true,
                        cancel: Some(running.pid),
                        ..ReplyModel::plain(result_tree(id, task))
                    },
                )
            },
            None => match lookup(model.tasks, task_id) {
                None => (
                    model,
                    ReplyModel::plain(
                        error_tree(id, -32001, "Task not found or already finished"@),
                    ),
                ),
                Some(kept) => if in_state(kept, "working"@) {
                    let task = withdrawn_tree(task_id, own_context(kept), now);
                    (
                        model.with_task(task_id, task),
                        ReplyModel {
                            save_tasks: true,
                            ..ReplyModel::plain(result_tree(id, task))
                        },
                    )
                } else {
                    (model, ReplyModel::plain(result_tree(id, kept)))
                },
            },
        },
    }
}

/// A task belongs to the context, where there is one to belong to.
pub open spec fn belongs(task: JsonTree, context: Option<Seq<char>>) -> bool {
    context matches Some(context_id) ==> task.text_at("contextId"@) == Some(context_id)
}

/// The tasks of a context, or all, newest first.
pub open spec fn listed(tasks: Seq<(Seq<char>, JsonTree)>, context: Option<Seq<char>>) -> Seq<
    JsonTree,
> {
    newest_first(
        tasks.map_values(|e: (Seq<char>, JsonTree)| e.1).filter(|t: JsonTree| belongs(t, context)),
        |t: JsonTree| updated_at(t) as int,
    )
}

/// The number of items that a request asks for.
pub open spec fn wanted_count(params: JsonTree, default: u64, most: u64) -> u64 {
    let wanted = match params.u64_at("limit"@) {
        Some(limit) => limit,
        None => default,
    };
    if wanted < most {
        wanted
    } else {
        most
    }
}

/// The number of items that a request asks for.
pub fn count_from_params(params: &Json, default: u64, most: u64) -> (count: u64)
    ensures
        count == wanted_count(params@, default, most),
{
    let wanted = match params.u64_at("limit") {
        Some(limit) => limit,
        None => default,
    };
    if wanted < most {
        wanted
    } else {
        most
    }
}

/// Where a page begins that a request asks for.
pub open spec fn wanted_cursor(params: JsonTree) -> nat {
    match params.u64_at("cursor"@) {
        Some(cursor) => cursor as nat,
        None => 0,
    }
}

/// At most `limit` items from the place `cursor` on.
pub open spec fn page<T>(items: Seq<T>, cursor: nat, limit: nat) -> Seq<T> {
    if cursor >= items.len() {
        Seq::empty()
    } else if limit >= items.len() - cursor {
        items.skip(cursor as int)
    } else {
        items.subrange(cursor as int, cursor as int + limit)
    }
}

/// Where the next page begins, if there is one.
pub open spec fn next_cursor<T>(items: Seq<T>, cursor: nat, limit: nat) -> Option<nat> {
    let end = cursor + page(items, cursor, limit).len();
    if end < items.len() {
        Some(end)
    } else {
        None
    }
}

/// What `tasks/list` answers: a page of the tasks, newest first.
pub open spec fn listed_reply(model: Model, id: JsonTree, params: JsonTree) -> ReplyModel {
    let (context, context_alias) = context_filter(params);
    let tasks = listed(model.tasks, context);
    let limit = wanted_count(params, 50, 200) as nat;
    let cursor = wanted_cursor(params);
    ReplyModel::plain(
        result_tree(
            id,
            JsonTree::object().with("tasks"@, JsonTree::Array(page(tasks, cursor, limit))).with(
                "nextCursor"@,
                match next_cursor(tasks, cursor, limit) {
                    Some(next) => JsonTree::Integer(next as int),
                    None => JsonTree::Null,
                },
            ).with("metadata"@, alias_note(context_alias)),
        ),
    )
}

/// Tells whether a task belongs to the context.
fn task_belongs(task: &Json, context: &Option<String>) -> (yes: bool)
    ensures
        yes == belongs(task@, opt_text(*context)),
{
    match context {
        None => true,
        Some(context_id) => match task.text_at("contextId") {
            Some(text) => same_text(text, context_id.as_str()),
            None => false,
        },
    }
}

/// The tasks of a context, or all, newest first.
pub fn newest_tasks(tasks: &Registry<Json>, context: &Option<String>) -> (list: Vec<Json>)
    ensures
        trees(list@) == listed(tasks.entries(), opt_text(*context)),
{
    let ghost wanted = opt_text(*context);
    let ghost p = |t: JsonTree| belongs(t, wanted);
    let ghost all = tasks.entries().map_values(|e: (Seq<char>, JsonTree)| e.1);
    let mut kept: Vec<usize> = Vec::new();
    let mut times: Vec<u64> = Vec::new();
    let mut i: usize = 0;
    proof {
        reveal(Seq::filter);
        assert(all.take(0) =~= Seq::<JsonTree>::empty());
    }
    while i < tasks.list.len()
        invariant
            i <= tasks.list.len() == all.len(),
            wanted == opt_text(*context),
            p == (|t: JsonTree| belongs(t, wanted)),
            all == tasks.entries().map_values(|e: (Seq<char>, JsonTree)| e.1),
            kept.len() == times.len(),
            forall|j: int| 0 <= j < kept.len() ==> #[trigger] kept@[j] < tasks.list.len(),
            forall|j: int|
                0 <= j < kept.len() ==> #[trigger] times@[j] == updated_at(all[kept@[j] as int]),
            all.take(i as int).filter(p) == kept@.map_values(|k: usize| all[k as int]),
        decreases tasks.list.len() - i,
    {
        proof {
            reveal(Seq::filter);
            assert(all.take(i + 1).drop_last() =~= all.take(i as int));
            assert(all.take(i + 1).last() == all[i as int]);
            assert(all[i as int] == tasks.list@[i as int].1@);
        }
        if task_belongs(&tasks.list[i].1, context) {
            let ghost earlier = kept@;
            kept.push(i);
            times.push(task_updated_at(&tasks.list[i].1));
            assert(kept@.map_values(|k: usize| all[k as int]) =~= earlier.map_values(
                |k: usize| all[k as int],
            ).push(all[i as int]));
        }
        i = i + 1;
    }
    assert(all.take(i as int) =~= all);
    let order = newest_order(&times);
    let ghost filtered = all.filter(p);
    let ghost f = |j: int| filtered[j];
    let ghost time = |j: int| times@[j] as int;
    let ghost tree_time = |t: JsonTree| updated_at(t) as int;
    proof {
        let spots = places(times@.len());
        lemma_newest_first_map(spots, f, time, tree_time);
        assert(spots.map_values(f) =~= filtered);
    }
    let mut list: Vec<Json> = Vec::new();
    let mut k: usize = 0;
    while k < order.len()
        invariant
            k <= order.len() == times.len() == kept.len(),
            list.len() == k,
            all == tasks.entries().map_values(|e: (Seq<char>, JsonTree)| e.1),
            filtered == kept@.map_values(|k: usize| all[k as int]),
            forall|j: int| 0 <= j < kept.len() ==> #[trigger] kept@[j] < tasks.list.len(),
            forall|j: int| 0 <= j < order.len() ==> #[trigger] order@[j] < times.len(),
            forall|j: int| 0 <= j < k ==> (#[trigger] list@[j])@ == filtered[order@[j] as int],
        decreases order.len() - k,
    {
        let at = kept[order[k]];
        assert(all[at as int] == tasks.list@[at as int].1@);
        list.push(tasks.list[at].1.clone());
        k = k + 1;
    }
    proof {
        let sorted = order@.map_values(|i: usize| i as int);
        assert(trees(list@) =~= sorted.map_values(f));
    }
    list
}

/// At most `limit` items from the place `cursor` on.
fn take_page(items: &Vec<Json>, cursor: u64, limit: u64) -> (result: Vec<Json>)
    ensures
        trees(result@) == page(trees(items@), cursor as nat, limit as nat),
{
    let mut result: Vec<Json> = Vec::new();
    if cursor >= items.len() as u64 {
        assert(trees(result@) =~= page(trees(items@), cursor as nat, limit as nat));
        return result;
    }
    let start = cursor as usize;
    let left: usize = items.len() - start;
    let count: usize = if limit >= left as u64 {
        left
    } else {
        limit as usize
    };
    let mut i: usize = 0;
    while i < count
        invariant
            i <= count <= items.len() - start,
            result.len() == i,
            forall|j: int| 0 <= j < i ==> (#[trigger] result@[j])@ == items@[start + j]@,
        decreases count - i,
    {
        result.push(items[start + i].clone());
        i = i + 1;
    }
    assert(trees(result@) =~= page(trees(items@), cursor as nat, limit as nat));
    result
}

impl AppState {
    /// Answers `tasks/get`.
    pub fn get_task(&self, id: Json, params: &Json) -> (reply: Reply)
        requires
            self.wf(),
        ensures
            reply@ == got(self.model(), id@, params@),
    {
        let task_id = match params.text_at("id") {
            Some(task_id) => task_id,
            None => return plain_reply(error_json(id, -32602, "Missing task id")),
        };
        match self.tasks.get(task_id) {
            Some(task) => plain_reply(result_json(id, task.clone())),
            None => plain_reply(error_json(id, -32001, "Task not found")),
        }
    }

    /// Answers `tasks/cancel`.
    pub fn cancel_task(&mut self, id: Json, params: &Json, now: u64) -> (reply: Reply)
        requires
            old(self).wf(),
        ensures
            final(self).wf(),
            final(self).config == old(self).config,
            final(self).model() == canceled(old(self).model(), id@, params@, now).0,
            reply@ == canceled(old(self).model(), id@, params@, now).1,
    {
        let named = match params.get("id") {
            Some(value) => value.as_str(),
            None => params.text_at("taskId"),
        };
        let task_id = match named {
            Some(task_id) => task_id,
            None => return plain_reply(error_json(id, -32602, "Missing task id")),
        };
        if self.running.contains_key(task_id) {
            if let Some(running) = self.running.remove(task_id) {
                let task = canceled_json(task_id, &running, now);
                self.persist_task(task_id, task.clone());
                let mut reply = plain_reply(result_json(id, task));
                reply.save_tasks = true;
                reply.cancel = Some(BackendCancelRequest { pid: running.pid });
                return reply;
            }
        }
        let task = match self.tasks.get(task_id) {
            Some(kept) => {
                if !task_in_state(kept, "working") {
                    return plain_reply(result_json(id, kept.clone()));
                }
                withdrawn_json(task_id, kept, now)
            },
            None => {
                return plain_reply(error_json(id, -32001, "Task not found or already finished"));
            },
        };
        self.persist_task(task_id, task.clone());
        let mut reply = plain_reply(result_json(id, task));
        reply.save_tasks = true;
        reply
    }

    /// Answers `tasks/list`.
    pub fn list_tasks(&self, id: Json, params: &Json) -> (reply: Reply)
        requires
            self.wf(),
        ensures
            reply@ == listed_reply(self.model(), id@, params@),
    {
        let limit = count_from_params(params, 50, 200);
        let cursor = match params.u64_at("cursor") {
            Some(cursor) => cursor,
            None => 0,
        };
        let (context, context_alias) = context_filter_from_params(params);
        let tasks = newest_tasks(&self.tasks, &context);
        let results = take_page(&tasks, cursor, limit);
        let total = tasks.len() as u64;
        let next = if cursor < total && (results.len() as u64) < total - cursor {
            Json::Unsigned(cursor + results.len() as u64)
        } else {
            Json::Null
        };
        let result = Json::object().with("tasks", Json::list(results)).with(
            "nextCursor",
            next,
        ).with("metadata", alias_note_json(context_alias));
        plain_reply(result_json(id, result))
    }
}

} // verus!
