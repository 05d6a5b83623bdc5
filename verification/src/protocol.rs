//! The dispatcher protocol: one channel's queue together with its flush
//! workers, as an abstract transition system.
//!
//! A [`Batcher`] only ever changes under its lock, through one of four
//! operations: a producer enqueues or revises a message, and the flush
//! worker wakes from its sleep or checks for termination after sending.
//! This module states those four transitions over the batcher's map
//! abstraction, adds the one piece of state the batcher itself cannot see —
//! how many flush workers are alive — and proves the protocol laws: the
//! invariant tying the deadline to pending work, single-flight, quiescence
//! after a drain, liveness under late arrivals, and last-write-wins
//! coalescing. Refinement lemmas connect each verified batcher operation to
//! its transition.

use vstd::prelude::*;

use crate::batcher::Batcher;
use crate::batcher::lemma_map_of_empty_iff;
use crate::batcher::spec_next_generation;

verus! {

/// One notification channel with its flush workers: the batcher state as
/// the lock guards it, plus the number of live workers.
pub struct DispatcherModel {
    /// Latest pending message per key.
    pub pending: Map<u32, Seq<char>>,
    /// The scheduled flush instant, in ticks; `None` means quiescent.
    pub deadline: Option<u64>,
    /// Bumped by every enqueue; lets a waking worker spot late arrivals.
    pub generation: u64,
    /// How many flush workers are currently running.
    pub live_flushers: nat,
    /// Ticks between the latest enqueue and the flush.
    pub debounce_window: u64,
}

/// What can happen to a channel, each under one critical section.
pub enum DispatcherEvent {
    /// A producer records `message` for `key` at tick `now`, spawning a
    /// flush worker when none was running.
    Enqueue { key: u32, message: Seq<char>, now: u64 },
    /// A producer replaces the pending text for `key`, touching nothing
    /// else; without a pending entry it sends directly instead.
    Revise { key: u32, message: Seq<char> },
    /// The flush worker's sleep ends; it drains the queue unless an enqueue
    /// moved the generation past its snapshot.
    Wake { snapshot_generation: u64 },
    /// The flush worker, done sending, either terminates on an empty queue
    /// or runs another cycle.
    Finish,
}

/// Who may take an event: producers act at will (an enqueue only needs its
/// deadline arithmetic to fit), while waking and finishing belong to the
/// one live flush worker.
pub open spec fn event_enabled(s: DispatcherModel, e: DispatcherEvent) -> bool {
    match e {
        DispatcherEvent::Enqueue { key, message, now } => now + s.debounce_window <= u64::MAX,
        DispatcherEvent::Revise { key, message } => true,
        DispatcherEvent::Wake { snapshot_generation } => s.live_flushers == 1,
        DispatcherEvent::Finish => s.live_flushers == 1,
    }
}

/// The channel after one event.
pub open spec fn step(s: DispatcherModel, e: DispatcherEvent) -> DispatcherModel {
    match e {
        DispatcherEvent::Enqueue { key, message, now } => DispatcherModel {
            pending: s.pending.insert(key, message),
            deadline: Some((now + s.debounce_window) as u64),
            generation: spec_next_generation(s.generation),
            live_flushers: if s.deadline is None {
                (s.live_flushers + 1) as nat
            } else {
                s.live_flushers
            },
            ..s
        },
        DispatcherEvent::Revise { key, message } => if s.pending.contains_key(key) {
            DispatcherModel { pending: s.pending.insert(key, message), ..s }
        } else {
            s
        },
        DispatcherEvent::Wake { snapshot_generation } => if s.generation == snapshot_generation {
            DispatcherModel { pending: Map::empty(), ..s }
        } else {
            s
        },
        DispatcherEvent::Finish => if s.pending.dom() == Set::<u32>::empty() {
            DispatcherModel { deadline: None, live_flushers: (s.live_flushers - 1) as nat, ..s }
        } else {
            s
        },
    }
}

/// The protocol invariant: never more than one flush worker, and a deadline
/// is scheduled exactly while there is pending work or a worker mid-flight.
pub open spec fn model_inv(s: DispatcherModel) -> bool {
    &&& s.live_flushers <= 1
    &&& ((s.deadline is Some) <==> (s.pending.dom() != Set::<u32>::empty() || s.live_flushers
        == 1))
}

/// A channel as constructed: nothing pending, no deadline, no worker.
pub open spec fn initial_model(debounce_window: u64) -> DispatcherModel {
    DispatcherModel {
        pending: Map::empty(),
        deadline: None,
        generation: 0,
        live_flushers: 0,
        debounce_window,
    }
}

pub proof fn lemma_initial_model_inv(debounce_window: u64)
    ensures
        model_inv(initial_model(debounce_window)),
{
    assert(Map::<u32, Seq<char>>::empty().dom() =~= Set::<u32>::empty());
}

/// Every event preserves the invariant. In particular an enqueue spawns a
/// worker only out of the quiescent state, where none is running, so the
/// worker count never passes one.
pub proof fn lemma_step_preserves_invariant(s: DispatcherModel, e: DispatcherEvent)
    requires
        model_inv(s),
        event_enabled(s, e),
    ensures
        model_inv(step(s, e)),
        step(s, e).live_flushers <= 1,
{
    match e {
        DispatcherEvent::Enqueue { key, message, now } => {
            assert(step(s, e).pending.dom().contains(key));
            assert(!Set::<u32>::empty().contains(key));
        },
        DispatcherEvent::Revise { key, message } => {
            if s.pending.contains_key(key) {
                assert(step(s, e).pending.dom() =~= s.pending.dom());
            }
        },
        DispatcherEvent::Wake { snapshot_generation } => {
            if s.generation == snapshot_generation {
                assert(Map::<u32, Seq<char>>::empty().dom() =~= Set::<u32>::empty());
            }
        },
        DispatcherEvent::Finish => {},
    }
}

/// A channel's history: the state after a sequence of events.
pub open spec fn run(s: DispatcherModel, events: Seq<DispatcherEvent>) -> DispatcherModel
    decreases events.len(),
{
    if events.len() == 0 {
        s
    } else {
        run(step(s, events.first()), events.drop_first())
    }
}

/// Each event of the sequence is enabled in the state it meets.
pub open spec fn events_enabled(s: DispatcherModel, events: Seq<DispatcherEvent>) -> bool
    decreases events.len(),
{
    events.len() == 0 || (event_enabled(s, events.first()) && events_enabled(
        step(s, events.first()),
        events.drop_first(),
    ))
}

/// Single-flight: along any history of enqueues, revisions and worker
/// cycles from an invariant state, at most one flush worker is ever alive.
/// No message is lost or duplicated on the way out either: a drain moves
/// the pending map wholesale, and `lemma_chunks_cover_messages` accounts
/// for every drained message exactly once.
pub proof fn lemma_single_flight(s: DispatcherModel, events: Seq<DispatcherEvent>)
    requires
        model_inv(s),
        events_enabled(s, events),
    ensures
        model_inv(run(s, events)),
        run(s, events).live_flushers <= 1,
    decreases events.len(),
{
    if events.len() > 0 {
        lemma_step_preserves_invariant(s, events.first());
        lemma_single_flight(step(s, events.first()), events.drop_first());
    }
}

/// Quiescence after a drain: a worker that finishes over an empty queue
/// clears the deadline and dies, and the very next enqueue finds the
/// channel quiescent and starts a fresh worker.
pub proof fn lemma_quiescence(s: DispatcherModel, key: u32, message: Seq<char>, now: u64)
    requires
        model_inv(s),
        s.live_flushers == 1,
        s.pending.dom() == Set::<u32>::empty(),
        now + s.debounce_window <= u64::MAX,
    ensures
        ({
            let settled = step(s, DispatcherEvent::Finish);
            &&& settled.deadline is None
            &&& settled.live_flushers == 0
            &&& step(settled, DispatcherEvent::Enqueue { key, message, now }).live_flushers == 1
        }),
{
}

/// Liveness under late arrivals: an enqueue that lands while the worker is
/// still mid-flight starts no second worker, and the worker's post-send
/// check then finds the queue non-empty and keeps it running, deadline and
/// all.
pub proof fn lemma_late_arrival_keeps_flusher(
    s: DispatcherModel,
    key: u32,
    message: Seq<char>,
    now: u64,
)
    requires
        model_inv(s),
        s.live_flushers == 1,
        now + s.debounce_window <= u64::MAX,
    ensures
        ({
            let busy = step(s, DispatcherEvent::Enqueue { key, message, now });
            &&& busy.live_flushers == 1
            &&& step(busy, DispatcherEvent::Finish) == busy
            &&& step(busy, DispatcherEvent::Finish).live_flushers == 1
            &&& step(busy, DispatcherEvent::Finish).deadline is Some
        }),
{
    let busy = step(s, DispatcherEvent::Enqueue { key, message, now });
    assert(busy.pending.dom().contains(key));
    assert(!Set::<u32>::empty().contains(key));
}

/// Repeated enqueues for one key, each at its own tick.
pub open spec fn enqueue_all(
    s: DispatcherModel,
    key: u32,
    messages: Seq<Seq<char>>,
    times: Seq<u64>,
) -> DispatcherModel
    decreases messages.len(),
{
    if messages.len() == 0 {
        s
    } else {
        enqueue_all(
            step(s, DispatcherEvent::Enqueue { key, message: messages.first(), now: times.first() }),
            key,
            messages.drop_first(),
            times.drop_first(),
        )
    }
}

/// Coalescing: any sequence of enqueues for one key before a drain leaves
/// exactly one pending message for that key — the last one — and touches no
/// other key's entry.
pub proof fn lemma_coalescing(
    s: DispatcherModel,
    key: u32,
    messages: Seq<Seq<char>>,
    times: Seq<u64>,
)
    requires
        messages.len() >= 1,
        times.len() == messages.len(),
    ensures
        ({
            let queued = enqueue_all(s, key, messages, times);
            &&& queued.pending.contains_key(key)
            &&& queued.pending[key] == messages.last()
            &&& forall|other: u32|
                other != key ==> queued.pending.contains_key(other) == s.pending.contains_key(
                    other,
                )
            &&& forall|other: u32|
                other != key && s.pending.contains_key(other) ==> queued.pending[other]
                    == s.pending[other]
        }),
    decreases messages.len(),
{
    let stepped = step(
        s,
        DispatcherEvent::Enqueue { key, message: messages.first(), now: times.first() },
    );
    if messages.len() == 1 {
        assert(messages.last() == messages.first());
    } else {
        lemma_coalescing(stepped, key, messages.drop_first(), times.drop_first());
        assert(messages.drop_first().last() == messages.last());
    }
}

/// A batcher state seen abstractly, with a given worker count alongside it.
pub open spec fn abstraction(b: Batcher, live_flushers: nat) -> DispatcherModel {
    DispatcherModel {
        pending: b.pending_map(),
        deadline: b.spec_deadline(),
        generation: b.spec_generation(),
        live_flushers,
        debounce_window: b.window(),
    }
}

/// `Batcher::enqueue` refines the enqueue transition: a pre and post state
/// related as its contract states, with the worker spawned exactly when it
/// returns true, is one `Enqueue` step of the model.
pub proof fn lemma_enqueue_refines(
    pre: Batcher,
    post: Batcher,
    key: u32,
    message: Seq<char>,
    now: u64,
    start: bool,
    live_flushers: nat,
)
    requires
        post.pending_map() == pre.pending_map().insert(key, message),
        post.spec_deadline() == Some((now + pre.window()) as u64),
        post.spec_generation() == spec_next_generation(pre.spec_generation()),
        post.window() == pre.window(),
        start == (pre.spec_deadline() is None),
    ensures
        abstraction(
            post,
            if start {
                (live_flushers + 1) as nat
            } else {
                live_flushers
            },
        ) == step(
            abstraction(pre, live_flushers),
            DispatcherEvent::Enqueue { key, message, now },
        ),
{
}

/// `Batcher::revise` refines the revise transition.
pub proof fn lemma_revise_refines(
    pre: Batcher,
    post: Batcher,
    key: u32,
    message: Seq<char>,
    replaced: bool,
    live_flushers: nat,
)
    requires
        replaced == pre.pending_map().contains_key(key),
        replaced ==> {
            &&& post.pending_map() == pre.pending_map().insert(key, message)
            &&& post.spec_deadline() == pre.spec_deadline()
            &&& post.spec_generation() == pre.spec_generation()
            &&& post.window() == pre.window()
        },
        !replaced ==> post == pre,
    ensures
        abstraction(post, live_flushers) == step(
            abstraction(pre, live_flushers),
            DispatcherEvent::Revise { key, message },
        ),
{
}

/// `Batcher::try_drain` refines the wake transition: on a generation match
/// the queue empties, otherwise nothing moves.
pub proof fn lemma_drain_refines(
    pre: Batcher,
    post: Batcher,
    snapshot_generation: u64,
    live_flushers: nat,
)
    requires
        if pre.spec_generation() == snapshot_generation {
            &&& post.pending_map() == Map::<u32, Seq<char>>::empty()
            &&& post.spec_deadline() == pre.spec_deadline()
            &&& post.spec_generation() == pre.spec_generation()
            &&& post.window() == pre.window()
        } else {
            post == pre
        },
    ensures
        abstraction(post, live_flushers) == step(
            abstraction(pre, live_flushers),
            DispatcherEvent::Wake { snapshot_generation },
        ),
{
}

/// `Batcher::finish_cycle` refines the finish transition: the worker dies
/// exactly on an empty queue, clearing the deadline.
pub proof fn lemma_finish_refines(pre: Batcher, post: Batcher, done: bool, live_flushers: nat)
    requires
        live_flushers == 1,
        done == (pre.pending_entries().len() == 0),
        done ==> {
            &&& post.pending_entries() == pre.pending_entries()
            &&& post.spec_deadline() is None
            &&& post.spec_generation() == pre.spec_generation()
            &&& post.window() == pre.window()
        },
        !done ==> post == pre,
    ensures
        abstraction(
            post,
            if done {
                0
            } else {
                live_flushers
            },
        ) == step(abstraction(pre, live_flushers), DispatcherEvent::Finish),
{
    lemma_map_of_empty_iff(pre.pending_entries());
}

} // verus!
