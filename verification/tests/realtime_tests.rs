use pw_mover::realtime::{clone_broadcaster, init_broadcaster, notify_session};

#[test]
fn publish_without_subscribers_never_blocks() {
    let bcast = init_broadcaster();
    // fire and forget: with no subscriber the pair is dropped, not queued
    notify_session(&bcast, "service", "found");
    notify_session(&bcast, "service", "found");
}

#[test]
fn cloned_broadcaster_publishes_too() {
    let bcast = init_broadcaster();
    let other = clone_broadcaster(&bcast);
    notify_session(&other, "service", "found");
}
