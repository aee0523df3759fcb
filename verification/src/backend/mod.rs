//! What backends are asked and what they answer.

pub mod cli;
pub mod cli_laws;
pub mod native;
pub mod native_laws;

use crate::backend::cli::CliBackend;
use crate::backend::native::NativeBackend;
use crate::config::{BackendKind, Config};
use crate::json::{Json, JsonTree};
use crate::state::TaskOptions;
use crate::text::opt_text;
use std::sync::Arc;
use vstd::prelude::*;
use vstd::string::*;

verus! {

/// What a backend is asked to run.
pub struct BackendRequest {
    pub prompt: String,
    pub options: TaskOptions,
    pub resume_session_id: Option<String>,
}

/// A run that has been started.
pub struct BackendJob {
    pub pid: u32,
}

/// How a run ended.
pub struct BackendExecutionResult {
    pub success: bool,
    pub message: String,
    pub resume_session_id: Option<String>,
}

/// How a run ended.
pub struct ExecutionModel {
    pub success: bool,
    pub message: Seq<char>,
    pub resume_session_id: Option<Seq<char>>,
}

impl View for BackendExecutionResult {
    type V = ExecutionModel;

    open spec fn view(&self) -> ExecutionModel {
        ExecutionModel {
            success: self.success,
            message: self.message@,
            resume_session_id: opt_text(self.resume_session_id),
        }
    }
}

/// A run that failed before it had a session.
pub open spec fn failure(message: Seq<char>) -> ExecutionModel {
    ExecutionModel { success: false, message, resume_session_id: None }
}

/// A run that failed before it had a session.
pub fn failed(message: String) -> (result: BackendExecutionResult)
    ensures
        result@ == failure(message@),
{
    BackendExecutionResult { success: false, message, resume_session_id: None }
}

/// Which run is to be canceled.
pub struct BackendCancelRequest {
    pub pid: u32,
}

/// A session that the backend knows.
pub struct BackendSessionSummary {
    pub id: String,
    pub path: String,
    pub modified_unix: u64,
    pub cwd: Json,
    pub last_message_preview: Json,
}

/// What a session summary says.
pub struct SummaryModel {
    pub id: Seq<char>,
    pub path: Seq<char>,
    pub modified_unix: u64,
    pub cwd: JsonTree,
    pub last_message_preview: JsonTree,
}

impl View for BackendSessionSummary {
    type V = SummaryModel;

    open spec fn view(&self) -> SummaryModel {
        SummaryModel {
            id: self.id@,
            path: self.path@,
            modified_unix: self.modified_unix,
            cwd: self.cwd@,
            last_message_preview: self.last_message_preview@,
        }
    }
}

/// The summaries of a list.
pub open spec fn summaries(list: Seq<BackendSessionSummary>) -> Seq<SummaryModel> {
    list.map_values(|s: BackendSessionSummary| s@)
}

/// The backend that is configured.
pub enum SelectedBackend {
    Cli(CliBackend),
    Native(NativeBackend),
}

impl SelectedBackend {
    /// The name of the backend in context records.
    pub open spec fn kind_name(self) -> Seq<char> {
        match self {
            SelectedBackend::Cli(_) => "codex-cli"@,
            SelectedBackend::Native(_) => "codex-native"@,
        }
    }

    /// The name of the backend in context records.
    pub fn kind(&self) -> (name: &'static str)
        ensures
            name@ == self.kind_name(),
    {
        match self {
            SelectedBackend::Cli(backend) => backend.kind(),
            SelectedBackend::Native(backend) => backend.kind(),
        }
    }
}

/// The backend that is configured.
pub fn from_config(config: Arc<Config>) -> (backend: SelectedBackend)
    ensures
        match config.backend {
            BackendKind::Cli => backend == SelectedBackend::Cli(CliBackend { config }),
            BackendKind::Native => backend == SelectedBackend::Native(NativeBackend { config }),
        },
        backend.kind_name() == config.backend.kind_name(),
{
    match config.backend {
        BackendKind::Cli => SelectedBackend::Cli(CliBackend::new(config)),
        BackendKind::Native => SelectedBackend::Native(NativeBackend::new(config)),
    }
}

/// The prompt for a request, with what the task may do said before it.
pub open spec fn wrapped_prompt(text: Seq<char>, write_enabled: bool) -> Seq<char> {
    if write_enabled {
        "You are Codex answering an A2A request from Hermes. Be direct and concise. You may read source material available through the Codex sandbox, including configured read-only disk access. You are allowed to write files only inside the configured workspace through the Codex sandbox. Keep changes minimal, preserve git traceability, and report changed files.\n\nRequest:\n"@
            + text
    } else {
        "You are Codex answering an A2A request from Hermes. Be direct and concise. You are running in read-only mode for this service. Preserve context across this session.\n\nRequest:\n"@
            + text
    }
}

/// The prompt for a request, with what the task may do said before it.
pub fn wrap_prompt(text: &str, options: &TaskOptions) -> (prompt: String)
    ensures
        prompt@ == wrapped_prompt(text@, options.write_enabled),
{
    let mut prompt = if options.write_enabled {
        "You are Codex answering an A2A request from Hermes. Be direct and concise. You may read source material available through the Codex sandbox, including configured read-only disk access. You are allowed to write files only inside the configured workspace through the Codex sandbox. Keep changes minimal, preserve git traceability, and report changed files.\n\nRequest:\n".to_owned()
    } else {
        "You are Codex answering an A2A request from Hermes. Be direct and concise. You are running in read-only mode for this service. Preserve context across this session.\n\nRequest:\n".to_owned()
    };
    prompt.append(text);
    prompt
}

} // verus!
