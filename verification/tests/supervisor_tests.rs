use pw_mover::handlers::{
    handle_kill, handle_ws_command, invalid_command_reply, stop_done_reply, template_reply, ws_reply,
    DispatchStep,
};
use pw_mover::realtime::WsCommand;
use pw_mover::supervisor::{handle_start, handle_stop, StartOutcome, StopOutcome, Supervisor};

/// Interpret one dispatch step the way the host loop does, minus the real
/// thread: spawning and joining are dropped, only the reply is kept.
fn reply_of(step: DispatchStep) -> String {
    match step {
        DispatchStep::Reply { text } => text,
        DispatchStep::SpawnWorker { text, .. } => text,
        DispatchStep::JoinWorker { .. } => stop_done_reply(),
        DispatchStep::ScheduleExit { text } => text,
        DispatchStep::RunTemplate { .. } => unreachable!("these tests never dispatch template"),
    }
}

#[test]
fn start_twice_spawns_once() {
    let mut sup = Supervisor::new();
    assert!(matches!(handle_start(&mut sup), StartOutcome::Started { .. }));
    assert!(matches!(handle_start(&mut sup), StartOutcome::AlreadyRunning));
}

#[test]
fn stop_twice_joins_once() {
    let mut sup = Supervisor::new();
    assert!(matches!(handle_start(&mut sup), StartOutcome::Started { .. }));
    assert!(matches!(handle_stop(&mut sup), StopOutcome::Stopping { .. }));
    assert!(matches!(handle_stop(&mut sup), StopOutcome::NotRunning));
}

#[test]
fn stop_without_start_is_a_no_op() {
    let mut sup = Supervisor::new();
    assert!(matches!(handle_stop(&mut sup), StopOutcome::NotRunning));
}

#[test]
fn stop_sends_the_cancellation_signal() {
    let mut sup = Supervisor::new();
    let rx = match handle_start(&mut sup) {
        StartOutcome::Started { cancel_rx } => cancel_rx,
        StartOutcome::AlreadyRunning => panic!("fresh supervisor reported a running worker"),
    };
    assert!(rx.try_recv().is_err(), "no signal may arrive before stop");
    assert!(matches!(handle_stop(&mut sup), StopOutcome::Stopping { .. }));
    assert!(rx.try_recv().is_ok(), "stop must have sent the cancellation signal");
}

#[test]
fn dispatch_lifecycle_replies() {
    let mut sup = Supervisor::new();
    assert_eq!(reply_of(handle_ws_command(WsCommand::Start, &mut sup)), "started");
    assert_eq!(reply_of(handle_ws_command(WsCommand::Start, &mut sup)), "already running");
    assert_eq!(reply_of(handle_ws_command(WsCommand::Stop, &mut sup)), "stopped");
    assert_eq!(reply_of(handle_ws_command(WsCommand::Stop, &mut sup)), "not running");
}

#[test]
fn dispatch_kill_schedules_exit() {
    let mut sup = Supervisor::new();
    let step = handle_ws_command(WsCommand::Kill, &mut sup);
    match step {
        DispatchStep::ScheduleExit { text } => assert_eq!(text, "shutting down"),
        _ => panic!("kill must schedule process exit"),
    }
    assert_eq!(handle_kill(), "shutting down");
}

#[test]
fn dispatch_template_runs_pipeline() {
    let mut sup = Supervisor::new();
    match handle_ws_command(WsCommand::Template { id: 7 }, &mut sup) {
        DispatchStep::RunTemplate { id } => assert_eq!(id, 7),
        _ => panic!("template must go to the pipeline"),
    }
    assert_eq!(template_reply("ok"), "Template done: ok");
}

#[test]
fn unparseable_input_never_reaches_the_dispatcher() {
    let mut sup = Supervisor::new();
    match ws_reply(None, &mut sup) {
        DispatchStep::Reply { text } => assert_eq!(text, "unknown or invalid command"),
        _ => panic!("malformed input must get the fixed reply"),
    }
    assert_eq!(invalid_command_reply(), "unknown or invalid command");
    // the supervisor was untouched: a start still spawns
    assert!(matches!(handle_start(&mut sup), StartOutcome::Started { .. }));
}

#[test]
fn dispatch_start_after_stop_spawns_again() {
    let mut sup = Supervisor::new();
    assert_eq!(reply_of(ws_reply(Some(WsCommand::Start), &mut sup)), "started");
    assert_eq!(reply_of(ws_reply(Some(WsCommand::Stop), &mut sup)), "stopped");
    assert_eq!(reply_of(ws_reply(Some(WsCommand::Start), &mut sup)), "started");
}
