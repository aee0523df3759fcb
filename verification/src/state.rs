//! What the server keeps: tasks, context bindings, and the tasks that run.

use crate::config::Config;
use crate::json::{
    field_map, opt_bytes, parse, parsed_bytes, pretty_bytes, readable, render_pretty, tree, Json,
    JsonTree,
};
use crate::registry::{distinct_keys, entry_map, put, Registry};
use std::sync::Arc;
use vstd::prelude::*;

verus! {

/// The Codex session that a context is bound to.
pub struct ContextRecord {
    pub codex_session_id: String,
    pub created_at: u64,
    pub updated_at: u64,
    pub backend_kind: String,
    pub resume_source: String,
}

/// What a context record says.
pub struct ContextModel {
    pub codex_session_id: Seq<char>,
    pub created_at: u64,
    pub updated_at: u64,
    pub backend_kind: Seq<char>,
    pub resume_source: Seq<char>,
}

impl View for ContextRecord {
    type V = ContextModel;

    open spec fn view(&self) -> ContextModel {
        ContextModel {
            codex_session_id: self.codex_session_id@,
            created_at: self.created_at,
            updated_at: self.updated_at,
            backend_kind: self.backend_kind@,
            resume_source: self.resume_source@,
        }
    }
}

impl Clone for ContextRecord {
    fn clone(&self) -> (copy: ContextRecord)
        ensures
            copy@ == self@,
    {
        ContextRecord {
            codex_session_id: self.codex_session_id.clone(),
            created_at: self.created_at,
            updated_at: self.updated_at,
            backend_kind: self.backend_kind.clone(),
            resume_source: self.resume_source.clone(),
        }
    }
}

/// A task whose backend process runs.
pub struct RunningTask {
    pub pid: u32,
    pub context_id: String,
    pub started_at: u64,
}

/// What a running task says.
pub struct RunningModel {
    pub pid: u32,
    pub context_id: Seq<char>,
    pub started_at: u64,
}

impl View for RunningTask {
    type V = RunningModel;

    open spec fn view(&self) -> RunningModel {
        RunningModel {
            pid: self.pid,
            context_id: self.context_id@,
            started_at: self.started_at,
        }
    }
}

impl Clone for RunningTask {
    fn clone(&self) -> (copy: RunningTask)
        ensures
            copy@ == self@,
    {
        RunningTask {
            pid: self.pid,
            context_id: self.context_id.clone(),
            started_at: self.started_at,
        }
    }
}

/// How a task may touch the disk.
pub struct TaskOptions {
    pub sandbox_mode: String,
    pub working_directory: String,
    pub write_enabled: bool,
}

/// What task options say.
pub struct OptionsModel {
    pub sandbox_mode: Seq<char>,
    pub working_directory: Seq<char>,
    pub write_enabled: bool,
}

impl View for TaskOptions {
    type V = OptionsModel;

    open spec fn view(&self) -> OptionsModel {
        OptionsModel {
            sandbox_mode: self.sandbox_mode@,
            working_directory: self.working_directory@,
            write_enabled: self.write_enabled,
        }
    }
}

impl Clone for TaskOptions {
    fn clone(&self) -> (copy: TaskOptions)
        ensures
            copy@ == self@,
    {
        TaskOptions {
            sandbox_mode: self.sandbox_mode.clone(),
            working_directory: self.working_directory.clone(),
            write_enabled: self.write_enabled,
        }
    }
}

/// What the server keeps. Of each name there is one task, one context record and one running task.
pub struct AppState {
    pub config: Arc<Config>,
    pub tasks: Registry<Json>,
    pub sessions: Registry<ContextRecord>,
    pub running: Registry<RunningTask>,
}

/// The tasks, context records and running tasks under their names.
#[verifier::ext_equal]
pub struct Model {
    pub tasks: Seq<(Seq<char>, JsonTree)>,
    pub sessions: Seq<(Seq<char>, ContextModel)>,
    pub running: Seq<(Seq<char>, RunningModel)>,
}

impl Model {
    /// The tasks by name.
    pub open spec fn task_map(self) -> Map<Seq<char>, JsonTree> {
        entry_map(self.tasks)
    }

    /// The context records by name.
    pub open spec fn session_map(self) -> Map<Seq<char>, ContextModel> {
        entry_map(self.sessions)
    }

    /// The running tasks by name.
    pub open spec fn running_map(self) -> Map<Seq<char>, RunningModel> {
        entry_map(self.running)
    }

    /// Of each name there is one entry.
    pub open spec fn wf(self) -> bool {
        &&& distinct_keys(self.tasks)
        &&& distinct_keys(self.sessions)
        &&& distinct_keys(self.running)
    }

    /// The model with a task put under its name.
    pub open spec fn with_task(self, task_id: Seq<char>, task: JsonTree) -> Model {
        Model { tasks: put(self.tasks, task_id, task), ..self }
    }
}

impl AppState {
    /// Of each name there is one entry, and the configured networks are networks.
    pub open spec fn wf(&self) -> bool {
        &&& self.config.wf()
        &&& self.tasks.wf()
        &&& self.sessions.wf()
        &&& self.running.wf()
    }

    /// The tasks, context records and running tasks.
    pub open spec fn model(&self) -> Model {
        Model {
            tasks: self.tasks.entries(),
            sessions: self.sessions.entries(),
            running: self.running.entries(),
        }
    }
}

/// The object with a field for each task.
pub fn tasks_document(tasks: &Registry<Json>) -> (json: Json)
    requires
        tasks.wf(),
    ensures
        json@ == JsonTree::Object(tasks@),
{
    let mut fields: Vec<(String, Json)> = Vec::new();
    let mut i: usize = 0;
    while i < tasks.list.len()
        invariant
            i <= tasks.list.len(),
            field_map(fields@) == entry_map(tasks.entries().take(i as int)),
        decreases tasks.list.len() - i,
    {
        let ghost earlier = fields@;
        fields.push((tasks.list[i].0.clone(), tasks.list[i].1.clone()));
        proof {
            assert(fields@.drop_last() =~= earlier);
            assert(tasks.entries().take(i + 1).drop_last() =~= tasks.entries().take(i as int));
        }
        i = i + 1;
    }
    assert(tasks.entries().take(i as int) =~= tasks.entries());
    let json = Json::Object(fields);
    assert(json@ == JsonTree::Object(field_map(fields@)));
    json
}

/// The tasks that a registry file holds: the fields of an object, and none of anything else.
pub open spec fn tasks_in(tree: JsonTree) -> Map<Seq<char>, JsonTree> {
    match tree {
        JsonTree::Object(fields) => fields,
        _ => Map::empty(),
    }
}

/// The tasks in a registry document.
pub fn tasks_from_document(json: Json) -> (tasks: Registry<Json>)
    ensures
        tasks.wf(),
        tasks@ == tasks_in(json@),
{
    let mut tasks: Registry<Json> = Registry::new();
    match json {
        Json::Object(fields) => {
            let ghost all = fields@;
            assert(json@ == JsonTree::Object(field_map(all)));
            assert(all.take(0) =~= Seq::<(String, Json)>::empty());
            for field in it: fields
                invariant
                    it.seq() == all,
                    tasks.wf(),
                    tasks@ == field_map(all.take(it.index() as int)),
            {
                let ghost at = it.index() as int;
                let (name, task) = field;
                proof {
                    assert((name, task) == all[at]);
                    assert(all.take(at + 1).drop_last() =~= all.take(at));
                }
                tasks.insert(name.as_str(), task);
            }
            assert(all.take(all.len() as int) =~= all);
        },
        _ => {},
    }
    tasks
}

/// The tasks of a registry file: those of its document, and none where there is no file or it is
/// no JSON document.
pub open spec fn loaded_tasks(content: Option<Seq<u8>>) -> Map<Seq<char>, JsonTree> {
    match content {
        Some(bytes) => match parsed_bytes(bytes) {
            Some(tree) => tasks_in(tree),
            None => Map::empty(),
        },
        None => Map::empty(),
    }
}

/// Loads the tasks from the content of the registry file.
pub fn load_task_registry(content: Option<&[u8]>) -> (tasks: Registry<Json>)
    ensures
        tasks.wf(),
        tasks@ == loaded_tasks(
            match content {
                Some(bytes) => Some(bytes@),
                None => None,
            },
        ),
{
    match content {
        Some(bytes) => match parse(bytes) {
            Some(json) => tasks_from_document(json),
            None => Registry::new(),
        },
        None => Registry::new(),
    }
}

/// What the registry file holds for the tasks. Where no task has floats or is nested deeper than
/// 126 levels, loading the file gives the tasks back.
pub fn save_task_registry(tasks: &Registry<Json>) -> (content: Option<Vec<u8>>)
    requires
        tasks.wf(),
    ensures
        content is Some,
        opt_bytes(content) == pretty_bytes(JsonTree::Object(tasks@)),
        readable(JsonTree::Object(tasks@), 127) ==> loaded_tasks(opt_bytes(content)) == tasks@,
{
    let document = tasks_document(tasks);
    render_pretty(&document)
}

/// Named context records as their names and what they say.
pub open spec fn record_entries(records: Seq<(String, ContextRecord)>) -> Seq<
    (Seq<char>, ContextModel),
> {
    records.map_values(|e: (String, ContextRecord)| (e.0@, e.1@))
}

/// The context records of a registry file: those that it holds, and none where there is no file or
/// it cannot be read.
pub open spec fn loaded_contexts(records: Option<Seq<(Seq<char>, ContextModel)>>) -> Map<
    Seq<char>,
    ContextModel,
> {
    match records {
        Some(entries) => entry_map(entries),
        None => Map::empty(),
    }
}

/// Takes the context records over from the registry file.
pub fn load_context_registry(records: Option<Vec<(String, ContextRecord)>>) -> (sessions: Registry<
    ContextRecord,
>)
    ensures
        sessions.wf(),
        sessions@ == loaded_contexts(
            match records {
                Some(list) => Some(record_entries(list@)),
                None => None,
            },
        ),
{
    let mut sessions: Registry<ContextRecord> = Registry::new();
    match records {
        Some(list) => {
            let ghost all = list@;
            assert(record_entries(all.take(0)) =~= Seq::empty());
            for named in it: list
                invariant
                    it.seq() == all,
                    sessions.wf(),
                    sessions@ == entry_map(record_entries(all.take(it.index() as int))),
            {
                let ghost at = it.index() as int;
                let (name, record) = named;
                proof {
                    assert((name, record) == all[at]);
                    assert(record_entries(all.take(at + 1)).drop_last() =~= record_entries(
                        all.take(at),
                    ));
                }
                sessions.insert(name.as_str(), record);
            }
            assert(all.take(all.len() as int) =~= all);
        },
        None => {},
    }
    sessions
}

/// What the registry file is to hold of the context records: each under its name, once. Loading it
/// gives the records back.
pub fn save_context_registry(sessions: &Registry<ContextRecord>) -> (records: Vec<
    (String, ContextRecord),
>)
    requires
        sessions.wf(),
    ensures
        record_entries(records@) == sessions.entries(),
        distinct_keys(record_entries(records@)),
        loaded_contexts(Some(record_entries(records@))) == sessions@,
{
    let mut records: Vec<(String, ContextRecord)> = Vec::new();
    let mut i: usize = 0;
    while i < sessions.list.len()
        invariant
            i <= sessions.list.len(),
            record_entries(records@) == sessions.entries().take(i as int),
        decreases sessions.list.len() - i,
    {
        let ghost earlier = records@;
        records.push((sessions.list[i].0.clone(), sessions.list[i].1.clone()));
        proof {
            assert(record_entries(records@) =~= record_entries(earlier).push(
                (sessions.list@[i as int].0@, sessions.list@[i as int].1@),
            ));
            assert(sessions.entries().take(i + 1) =~= sessions.entries().take(i as int).push(
                sessions.entries()[i as int],
            ));
        }
        i = i + 1;
    }
    assert(record_entries(records@) =~= sessions.entries());
    records
}

} // verus!
