//! Listing sessions.

use crate::backend::{summaries, BackendSessionSummary, SummaryModel};
use crate::config::Config;
use crate::json::{trees, Json, JsonTree};
use crate::order::{
    law_newest_first_sorts, lemma_newest_first_map, newest_first, newest_order, places,
};
use crate::registry::Registry;
use crate::rpc::{Call, CallModel};
use crate::service::{plain_reply, result_json, result_tree, Reply, ReplyModel};
use crate::state::{AppState, ContextModel, ContextRecord, Model};
use crate::tasks::{count_from_params, wanted_count};
use crate::text::same_text;
use vstd::prelude::*;
use vstd::seq_lib::*;

verus! {

/// What is said of a session of the backend.
pub open spec fn summary_tree(summary: SummaryModel) -> JsonTree {
    JsonTree::object().with("id"@, JsonTree::Text(summary.id)).with(
        "path"@,
        JsonTree::Text(summary.path),
    ).with("modifiedUnix"@, JsonTree::Integer(summary.modified_unix as int)).with(
        "cwd"@,
        summary.cwd,
    ).with("lastMessagePreview"@, summary.last_message_preview)
}

/// What is said of a session of the backend.
pub fn session_summary_value(summary: &BackendSessionSummary) -> (json: Json)
    ensures
        json@ == summary_tree(summary@),
{
    Json::object().with("id", Json::text(summary.id.as_str())).with(
        "path",
        Json::text(summary.path.as_str()),
    ).with("modifiedUnix", Json::Unsigned(summary.modified_unix)).with(
        "cwd",
        summary.cwd.clone(),
    ).with("lastMessagePreview", summary.last_message_preview.clone())
}

/// What is said of the session that a context is bound to.
pub open spec fn binding_tree(context_id: Seq<char>, record: ContextModel) -> JsonTree {
    JsonTree::object().with("id"@, JsonTree::Text(record.codex_session_id)).with(
        "contextId"@,
        JsonTree::Text(context_id),
    ).with("path"@, JsonTree::Text(""@)).with(
        "modifiedUnix"@,
        JsonTree::Integer(record.updated_at as int),
    ).with("cwd"@, JsonTree::Null).with("lastMessagePreview"@, JsonTree::Null).with(
        "metadata"@,
        JsonTree::object().with("backendKind"@, JsonTree::Text(record.backend_kind)).with(
            "resumeSource"@,
            JsonTree::Text(record.resume_source),
        ).with("createdAt"@, JsonTree::Integer(record.created_at as int)).with(
            "updatedAt"@,
            JsonTree::Integer(record.updated_at as int),
        ),
    )
}

/// What is said of the session that a context is bound to.
fn binding_json(context_id: &str, record: &ContextRecord) -> (json: Json)
    ensures
        json@ == binding_tree(context_id@, record@),
{
    Json::object().with("id", Json::text(record.codex_session_id.as_str())).with(
        "contextId",
        Json::text(context_id),
    ).with("path", Json::text("")).with("modifiedUnix", Json::Unsigned(record.updated_at)).with(
        "cwd",
        Json::Null,
    ).with("lastMessagePreview", Json::Null).with(
        "metadata",
        Json::object().with("backendKind", Json::text(record.backend_kind.as_str())).with(
            "resumeSource",
            Json::text(record.resume_source.as_str()),
        ).with("createdAt", Json::Unsigned(record.created_at)).with(
            "updatedAt",
            Json::Unsigned(record.updated_at),
        ),
    )
}

/// The first `count` items, or all.
pub open spec fn first_items<T>(items: Seq<T>, count: nat) -> Seq<T> {
    if count < items.len() {
        items.take(count as int)
    } else {
        items
    }
}

/// Of the items the newest are chosen, up to the limit: none is newer than one before it, each is
/// one of the items, and none that is left out is newer than one that is chosen.
pub proof fn law_newest_are_chosen<T>(items: Seq<T>, time: spec_fn(T) -> int, count: nat)
    ensures
        ({
            let chosen = first_items(newest_first(items, time), count);
            &&& chosen.len() == (if count < items.len() {
                count
            } else {
                items.len()
            })
            &&& forall|i: int, j: int|
                0 <= i < j < chosen.len() ==> time(#[trigger] chosen[i]) >= time(
                    #[trigger] chosen[j],
                )
            &&& forall|i: int| 0 <= i < chosen.len() ==> items.contains(#[trigger] chosen[i])
            &&& forall|x: T, i: int|
                #![trigger items.contains(x), chosen[i]]
                items.contains(x) && !chosen.contains(x) && 0 <= i < chosen.len() ==> time(x)
                    <= time(chosen[i])
            &&& items.no_duplicates() ==> chosen.no_duplicates()
        }),
{
    broadcast use group_to_multiset_ensures;

    law_newest_first_sorts(items, time);
    let sorted = newest_first(items, time);
    let chosen = first_items(sorted, count);
    assert forall|i: int| 0 <= i < chosen.len() implies items.contains(#[trigger] chosen[i]) by {
        assert(sorted.contains(sorted[i]));
        assert(sorted.to_multiset().count(sorted[i]) > 0);
    }
    assert forall|x: T, i: int|
        #![trigger items.contains(x), chosen[i]]
        items.contains(x) && !chosen.contains(x) && 0 <= i < chosen.len() implies time(x) <= time(
        chosen[i],
    ) by {
        assert(items.to_multiset().count(x) > 0);
        assert(sorted.contains(x));
        let k = choose|k: int| 0 <= k < sorted.len() && sorted[k] == x;
        if k < chosen.len() {
            assert(chosen[k] == x);
        }
        assert(sorted[i] == chosen[i]);
    }
    if items.no_duplicates() {
        items.lemma_multiset_has_no_duplicates();
        sorted.lemma_multiset_has_no_duplicates_conv();
    }
}

/// The sessions that contexts are bound to, newest first.
pub open spec fn managed(sessions: Seq<(Seq<char>, ContextModel)>, limit: nat) -> Seq<JsonTree> {
    first_items(
        newest_first(sessions, |e: (Seq<char>, ContextModel)| e.1.updated_at as int),
        limit,
    ).map_values(|e: (Seq<char>, ContextModel)| binding_tree(e.0, e.1))
}

/// The sessions that contexts are bound to, newest first.
pub fn managed_session_summaries(sessions: &Registry<ContextRecord>, limit: u64) -> (list: Vec<Json>)
    ensures
        trees(list@) == managed(sessions.entries(), limit as nat),
{
    let ghost all = sessions.entries();
    let mut times: Vec<u64> = Vec::new();
    let mut i: usize = 0;
    while i < sessions.list.len()
        invariant
            i <= sessions.list.len() == all.len(),
            all == sessions.entries(),
            times.len() == i,
            forall|j: int| 0 <= j < i ==> #[trigger] times@[j] == all[j].1.updated_at,
        decreases sessions.list.len() - i,
    {
        assert(all[i as int].1 == sessions.list@[i as int].1@);
        times.push(sessions.list[i].1.updated_at);
        i = i + 1;
    }
    let order = newest_order(&times);
    let ghost f = |j: int| all[j];
    let ghost time = |j: int| times@[j] as int;
    let ghost record_time = |e: (Seq<char>, ContextModel)| e.1.updated_at as int;
    proof {
        let spots = places(times@.len());
        lemma_newest_first_map(spots, f, time, record_time);
        assert(spots.map_values(f) =~= all);
    }
    let count: usize = if limit >= order.len() as u64 {
        order.len()
    } else {
        limit as usize
    };
    let mut list: Vec<Json> = Vec::new();
    let mut k: usize = 0;
    while k < count
        invariant
            k <= count <= order.len(),
            times.len() == sessions.list.len(),
            list.len() == k,
            all == sessions.entries(),
            forall|j: int| 0 <= j < order.len() ==> #[trigger] order@[j] < times.len(),
            forall|j: int|
                0 <= j < k ==> (#[trigger] list@[j])@ == binding_tree(
                    all[order@[j] as int].0,
                    all[order@[j] as int].1,
                ),
        decreases count - k,
    {
        let at = order[k];
        let entry = &sessions.list[at];
        assert(all[at as int] == (sessions.list@[at as int].0@, sessions.list@[at as int].1@));
        list.push(binding_json(entry.0.as_str(), &entry.1));
        k = k + 1;
    }
    proof {
        let sorted = order@.map_values(|i: usize| i as int);
        assert(newest_first(all, record_time) == sorted.map_values(f));
        assert(trees(list@) =~= managed(all, limit as nat));
    }
    list
}

/// The number of sessions that a request asks for.
pub fn session_limit(params: &Json) -> (limit: u64)
    ensures
        limit == wanted_count(params@, 10, 50),
{
    count_from_params(params, 10, 50)
}

/// How many sessions the backend is to list before a call is answered, where it is to list any: it
/// is asked by `sessions/list` alone, and only where local sessions are exposed.
pub open spec fn backend_limit(config: Config, call: CallModel) -> Option<u64> {
    if config.expose_local_sessions && call.method == "sessions/list"@ {
        Some(wanted_count(call.params, 10, 50))
    } else {
        None
    }
}

/// Tells how many sessions the backend has to list before a call is answered.
pub fn sessions_wanted(config: &Config, call: &Call) -> (limit: Option<u64>)
    ensures
        limit == backend_limit(*config, call@),
{
    if config.expose_local_sessions && same_text(call.method.as_str(), "sessions/list") {
        Some(session_limit(&call.params))
    } else {
        None
    }
}

/// What `sessions/list` answers: the sessions that contexts are bound to, or where it is so
/// configured the sessions that the backend knows.
pub open spec fn sessions_reply(
    config: Config,
    model: Model,
    id: JsonTree,
    params: JsonTree,
    local: Seq<SummaryModel>,
) -> ReplyModel {
    let sessions = if config.expose_local_sessions {
        local.map_values(|s: SummaryModel| summary_tree(s))
    } else {
        managed(model.sessions, wanted_count(params, 10, 50) as nat)
    };
    ReplyModel::plain(
        result_tree(id, JsonTree::object().with("sessions"@, JsonTree::Array(sessions))),
    )
}

impl AppState {
    /// Answers `sessions/list`. `local` is what the backend lists, and counts only where local
    /// sessions are exposed.
    pub fn list_sessions(&self, id: Json, params: &Json, local: &Vec<BackendSessionSummary>)
        -> (reply: Reply)
        requires
            self.wf(),
        ensures
            reply@ == sessions_reply(
                *self.config,
                self.model(),
                id@,
                params@,
                summaries(local@),
            ),
    {
        let sessions = if self.config.expose_local_sessions {
            let mut list: Vec<Json> = Vec::new();
            let mut i: usize = 0;
            while i < local.len()
                invariant
                    i <= local.len(),
                    list.len() == i,
                    forall|j: int| 0 <= j < i ==> (#[trigger] list@[j])@ == summary_tree(local@[j]@),
                decreases local.len() - i,
            {
                list.push(session_summary_value(&local[i]));
                i = i + 1;
            }
            assert(trees(list@) =~= summaries(local@).map_values(
                |s: SummaryModel| summary_tree(s),
            ));
            list
        } else {
            managed_session_summaries(&self.sessions, session_limit(params))
        };
        plain_reply(result_json(id, Json::object().with("sessions", Json::list(sessions))))
    }
}

} // verus!
