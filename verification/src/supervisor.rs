use vstd::prelude::*;

verus! {

#[verifier::external_type_specification]
#[verifier::external_body]
#[verifier::reject_recursive_types(T)]
pub struct ExCbSender<T>(crossbeam_channel::Sender<T>);

#[verifier::external_type_specification]
#[verifier::external_body]
#[verifier::reject_recursive_types(T)]
pub struct ExCbReceiver<T>(crossbeam_channel::Receiver<T>);

/// Relies on crossbeam_channel::bounded: a fresh bounded channel. The
/// cancellation protocol uses a single buffered slot, so a signal sent before
/// the receiver looks is kept, not lost; a one-slot channel of units cannot
/// hit bounded's too-large-capacity panic.
#[verifier::external_body]
fn cancel_channel(capacity: usize) -> (r: (
    crossbeam_channel::Sender<()>,
    crossbeam_channel::Receiver<()>,
))
    requires
        capacity == 1,
{
    crossbeam_channel::bounded(capacity)
}

/// Relies on crossbeam_channel::Sender::try_send: hands the signal to the
/// channel without ever blocking. A false result means the channel was full
/// or the receiver is gone; either way the worker was already signalled or
/// already exited, so the failure is ignored.
#[verifier::external_body]
fn send_cancel(tx: &crossbeam_channel::Sender<()>) -> (accepted: bool) {
    tx.try_send(()).is_ok()
}

/// Stands for ownership of the running worker's execution handle. The host
/// layer pairs it with the join handle of the thread it spawned, and joins
/// that thread when `handle_stop` hands the value back.
pub struct WorkerHandle {
    owned: (),
}

/// The single shared record of the running system. It holds at most one live
/// worker; all mutation goes through `handle_start` and `handle_stop`, under
/// whatever mutual exclusion the host provides around the whole value.
pub struct Supervisor {
    worker_handle: Option<WorkerHandle>,
    cancel_sender: Option<crossbeam_channel::Sender<()>>,
}

impl Supervisor {
    /// The execution handle and the cancellation sender are filled together
    /// by a start and drained together by a stop: both present or both
    /// absent, never one without the other.
    #[verifier::type_invariant]
    spec fn wf(self) -> bool {
        (self.worker_handle is Some) <==> (self.cancel_sender is Some)
    }

    /// Whether a worker is currently live.
    pub closed spec fn running(self) -> bool {
        self.worker_handle is Some
    }

    /// At process start no worker runs.
    pub fn new() -> (s: Supervisor)
        ensures
            !s.running(),
    {
        Supervisor { worker_handle: None, cancel_sender: None }
    }
}

/// The lifecycle model: whether a worker is live after one start.
pub open spec fn start_next(running: bool) -> bool {
    true
}

/// Whether one start from the given state spawns a worker.
pub open spec fn start_spawns(running: bool) -> bool {
    !running
}

/// The lifecycle model: whether a worker is live after one stop.
pub open spec fn stop_next(running: bool) -> bool {
    false
}

/// Whether one stop from the given state has a worker to signal and join.
pub open spec fn stop_joins(running: bool) -> bool {
    running
}

/// What a start call asks of the host: spawn the worker loop on the receiving
/// end of the new cancellation channel, or nothing when one already runs.
pub enum StartOutcome {
    Started { cancel_rx: crossbeam_channel::Receiver<()> },
    AlreadyRunning,
}

/// What a stop call asks of the host: block on the drained execution handle
/// until the worker has exited (the cancellation signal is already sent), or
/// nothing when no worker runs.
pub enum StopOutcome {
    Stopping { handle: WorkerHandle },
    NotRunning,
}

/// Start the watcher, idempotently. If one is already live this is a no-op
/// and the state is untouched; otherwise a fresh cancellation channel is
/// created, its sender and the worker's handle are stored, and the receiving
/// end goes out for the host to bind the new worker to.
pub fn handle_start(sup: &mut Supervisor) -> (r: StartOutcome)
    ensures
        final(sup).running() == start_next(old(sup).running()),
        (r is Started) == start_spawns(old(sup).running()),
        old(sup).running() ==> *final(sup) == *old(sup),
{
    proof {
        use_type_invariant(&*sup);
    }
    if sup.worker_handle.is_some() {
        StartOutcome::AlreadyRunning
    } else {
        let (tx, rx) = cancel_channel(1);
        *sup = Supervisor {
            worker_handle: Some(WorkerHandle { owned: () }),
            cancel_sender: Some(tx),
        };
        StartOutcome::Started { cancel_rx: rx }
    }
}

/// Stop the watcher, idempotently. If none is live this is a no-op returning
/// at once. Otherwise both fields are drained in one step, the cancellation
/// signal is sent before this function returns, and the drained execution
/// handle goes out for the host to join; only after that join has completed
/// may the host report the stop as done.
pub fn handle_stop(sup: &mut Supervisor) -> (r: StopOutcome)
    ensures
        final(sup).running() == stop_next(old(sup).running()),
        (r is Stopping) == stop_joins(old(sup).running()),
        !old(sup).running() ==> *final(sup) == *old(sup),
{
    proof {
        use_type_invariant(&*sup);
    }
    let mut taken = Supervisor { worker_handle: None, cancel_sender: None };
    core::mem::swap(sup, &mut taken);
    match (taken.worker_handle, taken.cancel_sender) {
        (Some(handle), Some(tx)) => {
            let _ = send_cancel(&tx);
            StopOutcome::Stopping { handle }
        },
        _ => StopOutcome::NotRunning,
    }
}

/// Starting is idempotent: a start leaves a worker live, and a second start
/// without an intervening stop changes nothing and spawns nothing.
pub proof fn lemma_start_idempotent(running: bool)
    ensures
        start_next(start_next(running)) == start_next(running),
        !start_spawns(start_next(running)),
{
}

/// Stopping is idempotent: a stop leaves no worker live, and a second stop
/// in sequence has no worker to signal or join.
pub proof fn lemma_stop_idempotent(running: bool)
    ensures
        stop_next(stop_next(running)) == stop_next(running),
        !stop_joins(stop_next(running)),
{
}

/// How many of `n` consecutive starts from the given state spawn a worker.
/// Concurrent starts are serialized by the host's mutual exclusion around the
/// supervisor, so any interleaving is some such sequence.
pub open spec fn spawn_count(running: bool, n: nat) -> nat
    decreases n,
{
    if n == 0 {
        0
    } else {
        (if start_spawns(running) {
            1nat
        } else {
            0nat
        }) + spawn_count(start_next(running), (n - 1) as nat)
    }
}

/// At most one worker: out of any number of consecutive starts with no
/// worker live beforehand, exactly one spawns, and none does when a worker
/// was already live. (That the supervisor's two fields are never seen one
/// present and one absent is its type invariant, which every operation above
/// maintains.)
pub proof fn lemma_at_most_one_worker(n: nat)
    ensures
        n >= 1 ==> spawn_count(false, n) == 1,
        spawn_count(true, n) == 0,
    decreases n,
{
    if n >= 1 {
        lemma_at_most_one_worker((n - 1) as nat);
    }
}

} // verus!
