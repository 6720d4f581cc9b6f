use vstd::assert_sets_equal;
use vstd::prelude::*;

use crate::geometry::{HostEnv, Rect, spec_target_rect, target_rect};
use crate::realtime::{Broadcaster, notify_session};

verus! {

/// An entity the host environment reports: an opaque handle, a text label and
/// its current geometry. The library only observes entities, it never creates
/// or destroys them.
pub struct Entity {
    pub handle: isize,
    pub label: String,
    pub rect: Rect,
}

/// A label matches when it starts with the target prefix; a label exactly
/// equal to the prefix matches too.
pub open spec fn label_matches(label: Seq<char>, prefix: Seq<char>) -> bool {
    &&& prefix.len() <= label.len()
    &&& forall|k: int| 0 <= k < prefix.len() ==> label[k] == prefix[k]
}

/// Prefix test on strings, character by character.
pub fn starts_with_prefix(label: &str, prefix: &str) -> (b: bool)
    ensures
        b == label_matches(label@, prefix@),
{
    let llen = label.unicode_len();
    let plen = prefix.unicode_len();
    if plen > llen {
        return false;
    }
    let mut i: usize = 0;
    while i < plen
        invariant
            i <= plen,
            plen <= llen,
            plen == prefix@.len(),
            llen == label@.len(),
            forall|k: int| 0 <= k < i ==> label@[k] == prefix@[k],
        decreases plen - i,
    {
        if label.get_char(i) != prefix.get_char(i) {
            return false;
        }
        i = i + 1;
    }
    true
}

/// The label every watcher run looks for by default.
pub fn target_prefix() -> (s: &'static str)
    ensures
        s@ == "Playwright"@,
{
    "Playwright"
}

/// Local state of one watcher run: the handles already acted upon during this
/// run. It grows monotonically and is discarded when the run ends; a new run
/// starts empty.
pub struct WatcherRun {
    handled: Vec<isize>,
}

impl WatcherRun {
    /// The per-run memory, as a set of handles.
    pub closed spec fn handled_set(self) -> Set<isize> {
        self.handled@.to_set()
    }

    /// A fresh run remembers nothing: entities handled by an earlier run are
    /// eligible again.
    pub fn new() -> (run: WatcherRun)
        ensures
            run.handled_set() == Set::<isize>::empty(),
    {
        let run = WatcherRun { handled: Vec::new() };
        proof {
            assert(run.handled_set() =~= Set::<isize>::empty());
        }
        run
    }

    fn contains(&self, handle: isize) -> (b: bool)
        ensures
            b == self.handled_set().contains(handle),
    {
        let mut i: usize = 0;
        let n = self.handled.len();
        while i < n
            invariant
                i <= n,
                n == self.handled@.len(),
                forall|k: int| 0 <= k < i ==> self.handled@[k] != handle,
            decreases n - i,
        {
            if self.handled[i] == handle {
                proof {
                    assert(self.handled@.to_set().contains(handle));
                }
                return true;
            }
            i = i + 1;
        }
        proof {
            assert(!self.handled@.to_set().contains(handle));
        }
        false
    }

    fn record(&mut self, handle: isize)
        ensures
            final(self).handled_set() == old(self).handled_set().insert(handle),
    {
        self.handled.push(handle);
        proof {
            assert_sets_equal!(self.handled@.to_set(), old(self).handled@.to_set().insert(handle), h => {
                if h == handle {
                    assert(self.handled@[self.handled@.len() - 1] == handle);
                } else {
                    assert(forall|k: int| 0 <= k < old(self).handled@.len()
                        ==> self.handled@[k] == old(self).handled@[k]);
                    if old(self).handled@.to_set().contains(h) {
                        let k = choose|k: int| 0 <= k < old(self).handled@.len()
                            && old(self).handled@[k] == h;
                        assert(self.handled@[k] == h);
                    }
                    if self.handled@.to_set().contains(h) {
                        let k = choose|k: int| 0 <= k < self.handled@.len()
                            && self.handled@[k] == h;
                        assert(k < old(self).handled@.len());
                        assert(old(self).handled@[k] == h);
                    }
                }
            });
        }
    }
}

/// An entity is due for action when its label matches and its handle has not
/// been acted upon in this run.
pub open spec fn is_target(e: Entity, prefix: Seq<char>, handled: Set<isize>) -> bool {
    label_matches(e.label@, prefix) && !handled.contains(e.handle)
}

/// Index of the first entity due for action, in the order the host reported
/// them, or -1 when none is due.
pub open spec fn first_target_index(s: Seq<Entity>, prefix: Seq<char>, handled: Set<isize>) -> int
    decreases s.len(),
{
    if s.len() == 0 {
        -1
    } else if is_target(s[0], prefix, handled) {
        0
    } else {
        let rest = first_target_index(s.skip(1), prefix, handled);
        if rest == -1 {
            -1
        } else {
            rest + 1
        }
    }
}

/// The first target index is in range, is a target, and nothing before it is.
pub proof fn lemma_first_target_index(s: Seq<Entity>, prefix: Seq<char>, handled: Set<isize>)
    ensures
        first_target_index(s, prefix, handled) == -1 ==> forall|i: int|
            0 <= i < s.len() ==> !is_target(s[i], prefix, handled),
        first_target_index(s, prefix, handled) != -1 ==> {
            let f = first_target_index(s, prefix, handled);
            &&& 0 <= f < s.len()
            &&& is_target(s[f], prefix, handled)
            &&& forall|i: int| 0 <= i < f ==> !is_target(s[i], prefix, handled)
        },
    decreases s.len(),
{
    if s.len() > 0 && !is_target(s[0], prefix, handled) {
        let rest = first_target_index(s.skip(1), prefix, handled);
        lemma_first_target_index(s.skip(1), prefix, handled);
        if rest == -1 {
            assert forall|i: int| 0 <= i < s.len() implies !is_target(s[i], prefix, handled) by {
                if i > 0 {
                    assert(s.skip(1)[i - 1] == s[i]);
                    assert(!is_target(s.skip(1)[i - 1], prefix, handled));
                }
            }
        } else {
            let f = first_target_index(s, prefix, handled);
            assert(f == rest + 1);
            assert(s.skip(1)[rest] == s[f]);
            assert forall|i: int| 0 <= i < f implies !is_target(s[i], prefix, handled) by {
                if i > 0 {
                    assert(s.skip(1)[i - 1] == s[i]);
                    assert(!is_target(s.skip(1)[i - 1], prefix, handled));
                }
            }
        }
    }
}

/// The action a tick asks the host to perform: move one entity to its target
/// placement. Performing it is best effort; failure is logged, not retried.
pub struct MoveCmd {
    pub handle: isize,
    pub target: Rect,
}

/// One poll tick: select the first matching entity not yet handled in this
/// run, publish a notification for it, record its handle and hand back the
/// placement order; at most one entity is acted upon per tick. When every
/// matching entity was already handled, or none matches, the tick does
/// nothing.
pub fn tick(
    run: &mut WatcherRun,
    entities: &Vec<Entity>,
    env: &HostEnv,
    prefix: &str,
    bcast: &Broadcaster,
) -> (r: Option<MoveCmd>)
    requires
        forall|i: int| 0 <= i < entities@.len() ==> (#[trigger] entities@[i].rect).wf(),
        forall|i: int| 0 <= i < entities@.len()
            ==> env.fits((#[trigger] entities@[i].rect).spec_width()),
    ensures
        final(run).handled_set() == tick_handled(entities@, prefix@, old(run).handled_set()),
        ({
            let f = first_target_index(entities@, prefix@, old(run).handled_set());
            if f == -1 {
                &&& r is None
                &&& final(run).handled_set() == old(run).handled_set()
            } else {
                &&& r matches Some(cmd)
                &&& cmd.handle == entities@[f].handle
                &&& cmd.target == spec_target_rect(entities@[f].rect, *env)
                &&& final(run).handled_set() == old(run).handled_set().insert(entities@[f].handle)
            }
        }),
{
    let ghost handled0 = old(run).handled_set();
    let mut i: usize = 0;
    let n = entities.len();
    while i < n
        invariant
            i <= n,
            n == entities@.len(),
            handled0 == old(run).handled_set(),
            run.handled_set() == handled0,
            forall|i: int| 0 <= i < entities@.len() ==> (#[trigger] entities@[i].rect).wf(),
            forall|i: int| 0 <= i < entities@.len()
                ==> env.fits((#[trigger] entities@[i].rect).spec_width()),
            forall|k: int| 0 <= k < i ==> !is_target(entities@[k], prefix@, handled0),
        decreases n - i,
    {
        let e = &entities[i];
        if starts_with_prefix(e.label.as_str(), prefix) && !run.contains(e.handle) {
            notify_session(bcast, "service", "found");
            let target = target_rect(&e.rect, env);
            run.record(e.handle);
            proof {
                lemma_first_target_index(entities@, prefix@, handled0);
                assert(is_target(entities@[i as int], prefix@, handled0));
                assert(first_target_index(entities@, prefix@, handled0) == i as int) by {
                    let f = first_target_index(entities@, prefix@, handled0);
                    if f == -1 {
                        assert(!is_target(entities@[i as int], prefix@, handled0));
                    } else if f < i as int {
                        assert(!is_target(entities@[f], prefix@, handled0));
                    } else if f > i as int {
                        assert(!is_target(entities@[i as int], prefix@, handled0));
                    }
                }
                let f = first_target_index(entities@, prefix@, old(run).handled_set());
                assert(f == i as int);
                assert(e.handle == entities@[f].handle);
                assert(target == spec_target_rect(entities@[f].rect, *env));
                assert(run.handled_set() == old(run).handled_set().insert(entities@[f].handle));
            }
            return Some(MoveCmd { handle: e.handle, target });
        }
        i = i + 1;
    }
    proof {
        lemma_first_target_index(entities@, prefix@, handled0);
        let f = first_target_index(entities@, prefix@, handled0);
        if f != -1 {
            assert(!is_target(entities@[f], prefix@, handled0));
        }
    }
    None
}

/// What one tick does to the per-run memory: the first entity due for action
/// is recorded, and nothing else; with none due, nothing changes.
pub open spec fn tick_handled(s: Seq<Entity>, prefix: Seq<char>, handled: Set<isize>) -> Set<
    isize,
> {
    let f = first_target_index(s, prefix, handled);
    if f == -1 {
        handled
    } else {
        handled.insert(s[f].handle)
    }
}

/// The per-run memory after `n` ticks that all see the same entity list.
pub open spec fn ticks_handled(s: Seq<Entity>, prefix: Seq<char>, handled: Set<isize>, n: nat) -> Set<
    isize,
>
    decreases n,
{
    if n == 0 {
        handled
    } else {
        ticks_handled(s, prefix, tick_handled(s, prefix, handled), (n - 1) as nat)
    }
}

/// How many positions of the list are due for action.
pub open spec fn target_count(s: Seq<Entity>, prefix: Seq<char>, handled: Set<isize>) -> nat
    decreases s.len(),
{
    if s.len() == 0 {
        0
    } else {
        (if is_target(s[0], prefix, handled) {
            1nat
        } else {
            0nat
        }) + target_count(s.skip(1), prefix, handled)
    }
}

/// Recording one handle never makes more positions due, and recording the
/// handle of a position that was due makes strictly fewer due.
proof fn lemma_target_count_insert(s: Seq<Entity>, prefix: Seq<char>, handled: Set<isize>, x: isize)
    ensures
        target_count(s, prefix, handled.insert(x)) <= target_count(s, prefix, handled),
        (exists|i: int|
            0 <= i < s.len() && is_target(s[i], prefix, handled) && s[i].handle == x)
            ==> target_count(s, prefix, handled.insert(x)) < target_count(s, prefix, handled),
    decreases s.len(),
{
    if s.len() > 0 {
        lemma_target_count_insert(s.skip(1), prefix, handled, x);
        if exists|i: int|
            0 <= i < s.len() && is_target(s[i], prefix, handled) && s[i].handle == x {
            let i = choose|i: int|
                0 <= i < s.len() && is_target(s[i], prefix, handled) && s[i].handle == x;
            if i == 0 {
                assert(!is_target(s[0], prefix, handled.insert(x)));
            } else {
                assert(s.skip(1)[i - 1] == s[i]);
                assert(exists|k: int|
                    0 <= k < s.skip(1).len() && is_target(s.skip(1)[k], prefix, handled)
                        && s.skip(1)[k].handle == x);
            }
        }
    }
}

/// With no position due, none is first.
proof fn lemma_target_count_zero(s: Seq<Entity>, prefix: Seq<char>, handled: Set<isize>)
    ensures
        (target_count(s, prefix, handled) == 0) == (first_target_index(s, prefix, handled) == -1),
    decreases s.len(),
{
    if s.len() > 0 {
        lemma_target_count_zero(s.skip(1), prefix, handled);
        if is_target(s[0], prefix, handled) {
            assert(target_count(s, prefix, handled) >= 1);
            assert(first_target_index(s, prefix, handled) == 0);
        } else {
            lemma_first_target_index(s.skip(1), prefix, handled);
            assert(target_count(s, prefix, handled) == target_count(s.skip(1), prefix, handled));
        }
    }
}

/// One match per tick converges: each tick acts on exactly one due entity,
/// so after at least as many ticks as there are due positions, every
/// matching entity has been handled and a further tick does nothing.
pub proof fn lemma_ticks_converge(s: Seq<Entity>, prefix: Seq<char>, handled: Set<isize>, n: nat)
    requires
        n >= target_count(s, prefix, handled),
    ensures
        first_target_index(s, prefix, ticks_handled(s, prefix, handled, n)) == -1,
    decreases n,
{
    let f = first_target_index(s, prefix, handled);
    lemma_target_count_zero(s, prefix, handled);
    if n == 0 {
    } else if f == -1 {
        lemma_ticks_converge(s, prefix, handled, (n - 1) as nat);
    } else {
        lemma_first_target_index(s, prefix, handled);
        lemma_target_count_insert(s, prefix, handled, s[f].handle);
        lemma_ticks_converge(s, prefix, handled.insert(s[f].handle), (n - 1) as nat);
    }
}

/// Runs are independent: in a fresh run, whether an entity is due depends on
/// its label alone — whatever any earlier run had handled, a matching entity
/// the host still reports is acted upon again.
pub proof fn lemma_fresh_run_forgets(e: Entity, prefix: Seq<char>)
    ensures
        is_target(e, prefix, Set::<isize>::empty()) == label_matches(e.label@, prefix),
{
}

/// What the worker's timed wait observed: a cancellation signal (or a closed
/// channel), or the tick interval elapsing with nothing pending.
#[derive(Clone, Copy, PartialEq, Eq, Structural, Debug)]
pub enum WorkerEvent {
    Cancelled,
    TickElapsed,
}

/// What the worker does next: leave its loop, or run one tick.
#[derive(Clone, Copy, PartialEq, Eq, Structural, Debug)]
pub enum WorkerDirective {
    Exit,
    RunTick,
}

/// The worker's only exit is cancellation: on a cancellation signal it leaves
/// the loop before doing more work, whatever the tick interval; otherwise it
/// runs exactly one tick.
pub fn worker_step(event: &WorkerEvent) -> (d: WorkerDirective)
    ensures
        d is Exit <==> event is Cancelled,
        d is RunTick <==> event is TickElapsed,
{
    match event {
        WorkerEvent::Cancelled => WorkerDirective::Exit,
        WorkerEvent::TickElapsed => WorkerDirective::RunTick,
    }
}

} // verus!
