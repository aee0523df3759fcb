//! Ending processes: the commands that do it, and when each is run.

use crate::text::{decimal, decimal_text, views};
use vstd::prelude::*;
use vstd::string::*;

verus! {

/// The arguments of `kill` that end a group of processes: by asking first, and by force after it.
pub open spec fn kill_words(pid: u32, force: bool) -> Seq<Seq<char>> {
    seq![
        if force {
            "-KILL"@
        } else {
            "-TERM"@
        },
        "--"@,
        "-"@ + decimal(pid as nat),
    ]
}

/// The arguments of `kill` that end the group of processes that `pid` leads.
pub fn kill_arguments(pid: u32, force: bool) -> (arguments: Vec<String>)
    ensures
        views(arguments@) == kill_words(pid, force),
{
    let mut group = "-".to_owned();
    group.append(decimal_text(pid as u128).as_str());
    let signal = if force {
        "-KILL".to_owned()
    } else {
        "-TERM".to_owned()
    };
    let arguments: Vec<String> = vec![signal, "--".to_owned(), group];
    assert(views(arguments@) =~= kill_words(pid, force));
    arguments
}

/// The arguments of `taskkill` that end a process and those that it started.
pub open spec fn taskkill_words(pid: u32, force: bool) -> Seq<Seq<char>> {
    let asking = seq!["/PID"@, decimal(pid as nat), "/T"@];
    if force {
        asking.push("/F"@)
    } else {
        asking
    }
}

/// The arguments of `taskkill` that end a process and those that it started.
pub fn taskkill_arguments(pid: u32, force: bool) -> (arguments: Vec<String>)
    ensures
        views(arguments@) == taskkill_words(pid, force),
{
    let mut arguments: Vec<String> = vec!["/PID".to_owned(), decimal_text(pid as u128), "/T".to_owned()];
    assert(views(arguments@) =~= taskkill_words(pid, false));
    if force {
        arguments.push("/F".to_owned());
        assert(views(arguments@) =~= taskkill_words(pid, true));
    }
    arguments
}

/// What is said where `taskkill` failed with the status.
pub fn taskkill_failure(pid: u32, status: &str) -> (message: String)
    ensures
        message@ == "taskkill failed for pid "@ + decimal(pid as nat) + ": "@ + status@,
{
    let mut message = "taskkill failed for pid ".to_owned();
    message.append(decimal_text(pid as u128).as_str());
    message.append(": ");
    message.append(status);
    message
}

/// How a command went.
pub enum CommandOutcome {
    /// It ended: whether it succeeded, and its status in words.
    Ended(bool, String),
    /// It could not be started, for this reason.
    NotStarted(String),
}

/// What has happened so far of the end of a process.
pub enum EndEvent {
    /// Nothing.
    Nothing,
    /// The process was asked to end.
    Asked(CommandOutcome),
    /// The process was ended by force.
    Forced(CommandOutcome),
}

/// What is to be done next to end a process.
pub enum EndStep {
    /// Run the command with these arguments, to ask.
    Ask(Vec<String>),
    /// Pause for as many milliseconds and run the command with these arguments, to force.
    Force(u64, Vec<String>),
    /// Stop, with this result.
    Done(Result<(), String>),
}

/// What is to be done next to end a process.
pub enum EndModel {
    Ask(Seq<Seq<char>>),
    Force(u64, Seq<Seq<char>>),
    Succeeded,
    Failed(Seq<char>),
}

impl View for EndStep {
    type V = EndModel;

    open spec fn view(&self) -> EndModel {
        match self {
            EndStep::Ask(arguments) => EndModel::Ask(views(arguments@)),
            EndStep::Force(pause, arguments) => EndModel::Force(*pause, views(arguments@)),
            EndStep::Done(Ok(_)) => EndModel::Succeeded,
            EndStep::Done(Err(message)) => EndModel::Failed(message@),
        }
    }
}

/// What is to be done next to end a group of processes with `kill`.
pub open spec fn kill_stepped(pid: u32, event: EndEvent) -> EndModel {
    match event {
        EndEvent::Nothing => EndModel::Ask(kill_words(pid, false)),
        EndEvent::Asked(CommandOutcome::Ended(_, _)) => EndModel::Force(150, kill_words(pid, true)),
        EndEvent::Asked(CommandOutcome::NotStarted(error)) => EndModel::Failed(error@),
        EndEvent::Forced(CommandOutcome::Ended(_, _)) => EndModel::Succeeded,
        EndEvent::Forced(CommandOutcome::NotStarted(error)) => EndModel::Failed(error@),
    }
}

/// Decides what is to be done next to end a group of processes with `kill`: ask, then force,
/// whatever became of the request. A command that cannot be started is the end of it.
pub fn kill_step(pid: u32, event: EndEvent) -> (step: EndStep)
    ensures
        step@ == kill_stepped(pid, event),
{
    match event {
        EndEvent::Nothing => EndStep::Ask(kill_arguments(pid, false)),
        EndEvent::Asked(CommandOutcome::Ended(_, _)) => EndStep::Force(
            150,
            kill_arguments(pid, true),
        ),
        EndEvent::Asked(CommandOutcome::NotStarted(error)) => EndStep::Done(Err(error)),
        EndEvent::Forced(CommandOutcome::Ended(_, _)) => EndStep::Done(Ok(())),
        EndEvent::Forced(CommandOutcome::NotStarted(error)) => EndStep::Done(Err(error)),
    }
}

/// `kill` is first run to ask. It is run to force only once it was started to ask, and where it
/// could not be started it is not run again.
pub proof fn law_kill_asks_before_it_forces(pid: u32, event: EndEvent)
    ensures
        kill_stepped(pid, event) is Ask <==> event is Nothing,
        kill_stepped(pid, event) is Force <==> (event matches EndEvent::Asked(
            CommandOutcome::Ended(_, _),
        )),
{
}

/// What is to be done next to end a process with `taskkill`.
pub open spec fn taskkill_stepped(pid: u32, event: EndEvent) -> EndModel {
    match event {
        EndEvent::Nothing => EndModel::Ask(taskkill_words(pid, false)),
        EndEvent::Asked(_) => EndModel::Force(150, taskkill_words(pid, true)),
        EndEvent::Forced(CommandOutcome::Ended(true, _)) => EndModel::Succeeded,
        EndEvent::Forced(CommandOutcome::Ended(false, status)) => EndModel::Failed(
            "taskkill failed for pid "@ + decimal(pid as nat) + ": "@ + status@,
        ),
        EndEvent::Forced(CommandOutcome::NotStarted(error)) => EndModel::Failed(error@),
    }
}

/// Decides what is to be done next to end a process with `taskkill`: ask, then force in any case,
/// which has to succeed.
pub fn taskkill_step(pid: u32, event: EndEvent) -> (step: EndStep)
    ensures
        step@ == taskkill_stepped(pid, event),
{
    match event {
        EndEvent::Nothing => EndStep::Ask(taskkill_arguments(pid, false)),
        EndEvent::Asked(_) => EndStep::Force(150, taskkill_arguments(pid, true)),
        EndEvent::Forced(CommandOutcome::Ended(success, status)) => if success {
            EndStep::Done(Ok(()))
        } else {
            EndStep::Done(Err(taskkill_failure(pid, status.as_str())))
        },
        EndEvent::Forced(CommandOutcome::NotStarted(error)) => EndStep::Done(Err(error)),
    }
}

} // verus!
