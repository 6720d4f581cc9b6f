use vstd::prelude::*;

verus! {

#[verifier::external_type_specification]
#[verifier::external_body]
#[verifier::reject_recursive_types(T)]
pub struct ExBroadcastSender<T>(tokio::sync::broadcast::Sender<T>);

/// A command received from a connected client, one dispatch per command.
#[derive(Clone, Copy, PartialEq, Eq, Structural, Debug)]
pub enum WsCommand {
    Start,
    Stop,
    Kill,
    Template { id: u32 },
}

/// The process-wide notification publish point. Publishing never blocks and
/// gives no delivery guarantee: with no subscriber the message is dropped.
pub struct Broadcaster {
    tx: tokio::sync::broadcast::Sender<(String, String)>,
}

/// Relies on tokio::sync::broadcast::channel: returns the send side of a new
/// broadcast channel with the given capacity; it panics only on a capacity
/// of zero or above half the address space.
#[verifier::external_body]
fn broadcast_channel(capacity: usize) -> (tx: tokio::sync::broadcast::Sender<(String, String)>)
    requires
        1 <= capacity <= usize::MAX / 2,
{
    tokio::sync::broadcast::channel(capacity).0
}

/// Relies on tokio::sync::broadcast::Sender::send: queues the pair for every
/// current subscriber without blocking; Err means there is no subscriber, and
/// the message is dropped. The result reports whether anyone was subscribed.
#[verifier::external_body]
fn broadcast_send(
    tx: &tokio::sync::broadcast::Sender<(String, String)>,
    session_id: String,
    message: String,
) -> (delivered: bool) {
    tx.send((session_id, message)).is_ok()
}

/// Relies on tokio::sync::broadcast::Sender::clone: a clone publishes into the
/// same channel.
#[verifier::external_body]
fn broadcast_clone(
    tx: &tokio::sync::broadcast::Sender<(String, String)>,
) -> (r: tokio::sync::broadcast::Sender<(String, String)>) {
    tx.clone()
}

/// Create the notification publish point. Capacity bounds how many messages a
/// slow subscriber may lag behind; a publish itself never blocks on it.
pub fn init_broadcaster() -> Broadcaster {
    Broadcaster { tx: broadcast_channel(100) }
}

/// A second handle on the same publish point, for an independent publisher
/// such as the watcher's own thread.
pub fn clone_broadcaster(b: &Broadcaster) -> Broadcaster {
    Broadcaster { tx: broadcast_clone(&b.tx) }
}

/// Publish one `(session_id, message)` pair, fire and forget: the publisher is
/// never blocked, and without subscribers the pair is dropped.
pub fn notify_session(b: &Broadcaster, session_id: &str, message: &str) {
    let _ = broadcast_send(&b.tx, String::from_str(session_id), String::from_str(message));
}

} // verus!
