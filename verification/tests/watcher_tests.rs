use pw_mover::geometry::{HostEnv, Rect};
use pw_mover::realtime::init_broadcaster;
use pw_mover::watcher::{
    starts_with_prefix, target_prefix, tick, worker_step, Entity, MoveCmd, WatcherRun,
    WorkerDirective, WorkerEvent,
};

fn entity(handle: isize, label: &str, left: i32, right: i32) -> Entity {
    Entity {
        handle,
        label: label.to_string(),
        rect: Rect { left, top: 0, right, bottom: 600 },
    }
}

fn env() -> HostEnv {
    HostEnv { work_area: Rect { left: 0, top: 0, right: 1920, bottom: 1040 }, screen_width: 1920 }
}

#[test]
fn prefix_match_rules() {
    assert!(starts_with_prefix("Playwright - run 3", "Playwright"));
    assert!(starts_with_prefix("Playwright", "Playwright"));
    assert!(!starts_with_prefix("playwright", "Playwright"));
    assert!(!starts_with_prefix("Playwrigh", "Playwright"));
    assert!(!starts_with_prefix("A Playwright", "Playwright"));
    assert!(starts_with_prefix("anything", ""));
    assert_eq!(target_prefix(), "Playwright");
}

#[test]
fn one_match_per_tick_over_three_entities() {
    let bcast = init_broadcaster();
    let entities = vec![
        entity(1, "Playwright A", 0, 100),
        entity(2, "Playwright B", 0, 200),
        entity(3, "Playwright C", 0, 300),
    ];
    let mut run = WatcherRun::new();
    let e = env();
    let first = tick(&mut run, &entities, &e, "Playwright", &bcast);
    assert_eq!(first.expect("tick must act").handle, 1);
    let second = tick(&mut run, &entities, &e, "Playwright", &bcast);
    assert_eq!(second.expect("tick must act").handle, 2);
    let third = tick(&mut run, &entities, &e, "Playwright", &bcast);
    assert_eq!(third.expect("tick must act").handle, 3);
    assert!(tick(&mut run, &entities, &e, "Playwright", &bcast).is_none());
}

#[test]
fn first_unhandled_match_in_adapter_order() {
    let bcast = init_broadcaster();
    let entities = vec![
        entity(10, "Browser", 0, 100),
        entity(11, "Playwright left", 0, 100),
        entity(12, "Playwright right", 0, 100),
    ];
    let mut run = WatcherRun::new();
    let cmd = tick(&mut run, &entities, &env(), "Playwright", &bcast);
    assert_eq!(cmd.expect("tick must act").handle, 11);
}

#[test]
fn exact_prefix_label_is_moved_to_top_right() {
    let bcast = init_broadcaster();
    let entities = vec![entity(5, "Playwright", 100, 900)];
    let mut run = WatcherRun::new();
    let e = env();
    let cmd: MoveCmd = tick(&mut run, &entities, &e, "Playwright", &bcast).expect("tick must act");
    assert_eq!(cmd.handle, 5);
    assert_eq!(cmd.target.left, 1920 - 800);
    assert_eq!(cmd.target.top, 0);
    assert_eq!(cmd.target.right - cmd.target.left, 800);
    assert_eq!(cmd.target.bottom - cmd.target.top, 1040);
}

#[test]
fn no_match_means_idle_tick() {
    let bcast = init_broadcaster();
    let entities = vec![entity(7, "Editor", 0, 100)];
    let mut run = WatcherRun::new();
    assert!(tick(&mut run, &entities, &env(), "Playwright", &bcast).is_none());
}

#[test]
fn fresh_run_forgets_handled_entities() {
    let bcast = init_broadcaster();
    let entities = vec![entity(42, "Playwright", 0, 100)];
    let e = env();
    let mut run = WatcherRun::new();
    assert_eq!(tick(&mut run, &entities, &e, "Playwright", &bcast).unwrap().handle, 42);
    assert!(tick(&mut run, &entities, &e, "Playwright", &bcast).is_none());
    // the run ends with a stop; a new start begins with an empty memory
    let mut next_run = WatcherRun::new();
    assert_eq!(tick(&mut next_run, &entities, &e, "Playwright", &bcast).unwrap().handle, 42);
}

#[test]
fn cancellation_always_exits_the_loop() {
    assert_eq!(worker_step(&WorkerEvent::Cancelled), WorkerDirective::Exit);
    assert_eq!(worker_step(&WorkerEvent::TickElapsed), WorkerDirective::RunTick);
}
