use vstd::prelude::*;

use crate::realtime::WsCommand;
use crate::supervisor::{
    handle_start, handle_stop, start_next, start_spawns, stop_joins, stop_next, StartOutcome,
    StopOutcome, Supervisor, WorkerHandle,
};

verus! {

/// What one dispatched command asks of the host, beyond the state change the
/// dispatch itself performed:
/// - `Reply`: nothing, the text goes straight back to the caller;
/// - `SpawnWorker`: spawn the worker loop on `cancel_rx`, then reply `text`;
/// - `JoinWorker`: block until the worker behind `handle` has exited
///   (its cancellation signal is already sent), then reply `stop_done_reply`;
/// - `ScheduleExit`: reply `text`, then terminate the process after a short
///   delay;
/// - `RunTemplate`: run the one-shot fetch/render pipeline for `id` and reply
///   with its outcome through `template_reply`.
pub enum DispatchStep {
    Reply { text: String },
    SpawnWorker { cancel_rx: crossbeam_channel::Receiver<()>, text: String },
    JoinWorker { handle: WorkerHandle },
    ScheduleExit { text: String },
    RunTemplate { id: u32 },
}

/// What `handle_ws_command` promises: the supervisor moves as the lifecycle
/// model says, and each command maps to exactly one step with its reply.
pub open spec fn dispatch_post(
    cmd: WsCommand,
    pre: Supervisor,
    post: Supervisor,
    step: DispatchStep,
) -> bool {
    match cmd {
        WsCommand::Start => {
            &&& post.running() == start_next(pre.running())
            &&& if start_spawns(pre.running()) {
                step matches DispatchStep::SpawnWorker { text, .. } && text@ == "started"@
            } else {
                step matches DispatchStep::Reply { text } && text@ == "already running"@
            }
        },
        WsCommand::Stop => {
            &&& post.running() == stop_next(pre.running())
            &&& if stop_joins(pre.running()) {
                step is JoinWorker
            } else {
                step matches DispatchStep::Reply { text } && text@ == "not running"@
            }
        },
        WsCommand::Kill => {
            &&& post == pre
            &&& step matches DispatchStep::ScheduleExit { text } && text@ == "shutting down"@
        },
        WsCommand::Template { id } => {
            &&& post == pre
            &&& step matches DispatchStep::RunTemplate { id: i } && i == id
        },
    }
}

/// Acknowledgement for a kill command; the host schedules process
/// termination after replying, without stopping the watcher first.
pub fn handle_kill() -> (s: String)
    ensures
        s@ == "shutting down"@,
{
    String::from_str("shutting down")
}

/// Reply once a stop's join has completed: only then has the worker fully
/// exited.
pub fn stop_done_reply() -> (s: String)
    ensures
        s@ == "stopped"@,
{
    String::from_str("stopped")
}

/// The fixed reply for input that did not parse as a command.
pub fn invalid_command_reply() -> (s: String)
    ensures
        s@ == "unknown or invalid command"@,
{
    String::from_str("unknown or invalid command")
}

/// Wrap the outcome of the one-shot fetch/render pipeline into the reply sent
/// back to the caller.
pub fn template_reply(result: &str) -> (s: String)
    ensures
        s@ == "Template done: "@ + result@,
{
    let mut s = String::from_str("Template done: ");
    s.append(result);
    s
}

/// Translate one parsed command into exactly one supervisor or process
/// operation and the step the host still has to take. Stateless: all state
/// sits in the supervisor passed in.
pub fn handle_ws_command(cmd: WsCommand, sup: &mut Supervisor) -> (step: DispatchStep)
    ensures
        dispatch_post(cmd, *old(sup), *final(sup), step),
{
    match cmd {
        WsCommand::Start => {
            match handle_start(sup) {
                StartOutcome::Started { cancel_rx } => DispatchStep::SpawnWorker {
                    cancel_rx,
                    text: String::from_str("started"),
                },
                StartOutcome::AlreadyRunning => DispatchStep::Reply {
                    text: String::from_str("already running"),
                },
            }
        },
        WsCommand::Stop => {
            match handle_stop(sup) {
                StopOutcome::Stopping { handle } => DispatchStep::JoinWorker { handle },
                StopOutcome::NotRunning => DispatchStep::Reply {
                    text: String::from_str("not running"),
                },
            }
        },
        WsCommand::Kill => DispatchStep::ScheduleExit { text: handle_kill() },
        WsCommand::Template { id } => DispatchStep::RunTemplate { id },
    }
}

/// The reply decision at the parse boundary: a parsed command is dispatched;
/// unparseable input never reaches the dispatcher and gets the fixed
/// invalid-command reply, with the supervisor untouched.
pub fn ws_reply(parsed: Option<WsCommand>, sup: &mut Supervisor) -> (step: DispatchStep)
    ensures
        parsed matches Some(cmd) ==> dispatch_post(cmd, *old(sup), *final(sup), step),
        parsed is None ==> *final(sup) == *old(sup) && (step matches DispatchStep::Reply { text }
            && text@ == "unknown or invalid command"@),
{
    match parsed {
        Some(cmd) => handle_ws_command(cmd, sup),
        None => DispatchStep::Reply { text: invalid_command_reply() },
    }
}

} // verus!
