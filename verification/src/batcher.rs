//! The coalescing queue at the heart of the notification dispatcher.
//!
//! A `Batcher` maps notification keys to their latest pending message text
//! and carries an optional flush deadline. Producers call [`Batcher::enqueue`]
//! under a lock; a single background flush worker drives
//! [`Batcher::snapshot`], [`Batcher::try_drain`] and [`Batcher::finish_cycle`]
//! under the same lock, sleeping and sending between calls. Time enters as a
//! tick count supplied by the caller, so every decision here is a pure,
//! verified state transition.

use vstd::prelude::*;

use crate::chunk::batch_messages;
use crate::chunk::chunk_messages;
use crate::chunk::spec_chunks;
use crate::chunk::string_views;

verus! {

/// Ticks an enqueue pushes the flush deadline into the future when the
/// channel is not configured otherwise: five minutes of seconds.
pub const DEFAULT_DEBOUNCE_WINDOW: u64 = 300;

/// Character budget of one outbound chunk when the channel is not
/// configured otherwise: the receiving channel's message size limit.
pub const DEFAULT_MAX_CHUNK_SIZE: usize = 2000;

/// The association a pending vector denotes: each key maps to the message
/// text stored with it, later entries winning (entries are unique anyway).
pub open spec fn map_of(entries: Seq<(u32, String)>) -> Map<u32, Seq<char>>
    decreases entries.len(),
{
    if entries.len() == 0 {
        Map::empty()
    } else {
        map_of(entries.drop_last()).insert(entries.last().0, entries.last().1@)
    }
}

/// No key occurs twice in the pending vector.
pub open spec fn unique_keys(entries: Seq<(u32, String)>) -> bool {
    forall|i: int, j: int| 0 <= i < j < entries.len() ==> entries[i].0 != entries[j].0
}

/// The generation counter after one more enqueue.
pub open spec fn spec_next_generation(generation: u64) -> u64 {
    if generation == u64::MAX {
        0
    } else {
        (generation + 1) as u64
    }
}

proof fn lemma_map_of_contains(entries: Seq<(u32, String)>, key: u32)
    ensures
        map_of(entries).contains_key(key) <==> exists|i: int|
            0 <= i < entries.len() && entries[i].0 == key,
    decreases entries.len(),
{
    if entries.len() > 0 {
        lemma_map_of_contains(entries.drop_last(), key);
        if entries.last().0 == key {
            assert(entries[entries.len() - 1].0 == key);
        }
        if exists|i: int| 0 <= i < entries.len() && entries[i].0 == key {
            let i = choose|i: int| 0 <= i < entries.len() && entries[i].0 == key;
            if i < entries.len() - 1 {
                assert(entries.drop_last()[i].0 == key);
            }
        }
    }
}

/// The pending vector is empty exactly when the map it denotes is.
pub proof fn lemma_map_of_empty_iff(entries: Seq<(u32, String)>)
    ensures
        (entries.len() == 0) <==> (map_of(entries).dom() == Set::<u32>::empty()),
{
    if entries.len() == 0 {
        assert(map_of(entries).dom() =~= Set::<u32>::empty());
    } else {
        lemma_map_of_contains(entries, entries.last().0);
        assert(entries[entries.len() - 1].0 == entries.last().0);
        assert(map_of(entries).dom().contains(entries.last().0));
        assert(!Set::<u32>::empty().contains(entries.last().0));
    }
}

/// Under unique keys the vector and its map abstraction agree entry by
/// entry: each entry's key is in the map and maps to exactly that entry's
/// text. So a drained batch carries, for every key, the one coalesced
/// message the map held for it.
pub proof fn lemma_map_of_value(entries: Seq<(u32, String)>, i: int)
    requires
        unique_keys(entries),
        0 <= i < entries.len(),
    ensures
        map_of(entries).contains_key(entries[i].0),
        map_of(entries)[entries[i].0] == entries[i].1@,
    decreases entries.len(),
{
    if i == entries.len() - 1 {
    } else {
        assert(entries.drop_last()[i] == entries[i]);
        lemma_map_of_value(entries.drop_last(), i);
        assert(entries[i].0 != entries.last().0);
    }
}

proof fn lemma_map_of_update(entries: Seq<(u32, String)>, i: int, entry: (u32, String))
    requires
        unique_keys(entries),
        0 <= i < entries.len(),
        entry.0 == entries[i].0,
    ensures
        map_of(entries.update(i, entry)) == map_of(entries).insert(entry.0, entry.1@),
        unique_keys(entries.update(i, entry)),
    decreases entries.len(),
{
    let updated = entries.update(i, entry);
    if i == entries.len() - 1 {
        assert(updated.drop_last() =~= entries.drop_last());
        assert(map_of(updated) =~= map_of(entries).insert(entry.0, entry.1@));
    } else {
        assert(updated.drop_last() =~= entries.drop_last().update(i, entry));
        lemma_map_of_update(entries.drop_last(), i, entry);
        assert(entries[i].0 != entries.last().0);
        assert(map_of(updated) == map_of(entries.drop_last()).insert(entry.0, entry.1@).insert(
            entries.last().0,
            entries.last().1@,
        ));
        assert(map_of(entries.drop_last()).insert(entry.0, entry.1@).insert(
            entries.last().0,
            entries.last().1@,
        ) =~= map_of(entries).insert(entry.0, entry.1@));
    }
}

proof fn lemma_map_of_push(entries: Seq<(u32, String)>, entry: (u32, String))
    ensures
        map_of(entries.push(entry)) == map_of(entries).insert(entry.0, entry.1@),
{
    assert(entries.push(entry).drop_last() =~= entries);
}

/// Shared state of one notification channel: the pending messages, the
/// debounce deadline, the generation counter that the flush worker uses to
/// recognise late enqueues, and the channel's configuration.
pub struct Batcher {
    pending: Vec<(u32, String)>,
    deadline: Option<u64>,
    generation: u64,
    debounce_window: u64,
    max_chunk_size: usize,
    separator: String,
}

impl Batcher {
    /// The pending entries, in insertion order.
    pub closed spec fn pending_entries(self) -> Seq<(u32, String)> {
        self.pending@
    }

    /// The pending entries as a key-to-message map.
    pub open spec fn pending_map(self) -> Map<u32, Seq<char>> {
        map_of(self.pending_entries())
    }

    /// The scheduled flush deadline, in ticks; `None` when the channel is
    /// quiescent and no flush worker is running.
    pub closed spec fn spec_deadline(self) -> Option<u64> {
        self.deadline
    }

    /// The generation counter, bumped by every enqueue.
    pub closed spec fn spec_generation(self) -> u64 {
        self.generation
    }

    /// How many ticks after an enqueue the flush fires.
    pub closed spec fn window(self) -> u64 {
        self.debounce_window
    }

    /// The outbound chunk size budget, in characters.
    pub closed spec fn budget(self) -> usize {
        self.max_chunk_size
    }

    /// The characters placed between messages inside one chunk.
    pub closed spec fn separator_chars(self) -> Seq<char> {
        self.separator@
    }

    /// Well-formedness: every key has at most one pending entry.
    pub open spec fn wf(self) -> bool {
        unique_keys(self.pending_entries())
    }

    /// The configuration fields of two states agree.
    pub open spec fn same_config(self, other: Batcher) -> bool {
        &&& self.window() == other.window()
        &&& self.budget() == other.budget()
        &&& self.separator_chars() == other.separator_chars()
    }

    /// A fresh, quiescent channel with the given configuration.
    pub fn new(debounce_window: u64, max_chunk_size: usize, separator: String) -> (r: Batcher)
        ensures
            r.wf(),
            r.pending_entries() == Seq::<(u32, String)>::empty(),
            r.pending_map() == Map::<u32, Seq<char>>::empty(),
            r.spec_deadline() is None,
            r.spec_generation() == 0,
            r.window() == debounce_window,
            r.budget() == max_chunk_size,
            r.separator_chars() == separator@,
    {
        let r = Batcher {
            pending: Vec::new(),
            deadline: None,
            generation: 0,
            debounce_window,
            max_chunk_size,
            separator,
        };
        proof {
            assert(r.pending_map() =~= Map::<u32, Seq<char>>::empty());
        }
        r
    }

    /// Records `message` as the one pending text for `key`, superseding any
    /// earlier one, and pushes the flush deadline `window` ticks past `now`.
    /// Returns whether the caller must start a flush worker: exactly when no
    /// deadline was set, which under the dispatcher invariant means no worker
    /// is running. The caller performs this call and, if asked, the spawn
    /// under one critical section.
    pub fn enqueue(&mut self, key: u32, message: String, now: u64) -> (start: bool)
        requires
            old(self).wf(),
            now + old(self).window() <= u64::MAX,
        ensures
            final(self).wf(),
            final(self).pending_map() == old(self).pending_map().insert(key, message@),
            final(self).pending_entries().len() >= 1,
            old(self).pending_map().contains_key(key) ==> exists|i: int|
                0 <= i < old(self).pending_entries().len()
                    && old(self).pending_entries()[i].0 == key && final(self).pending_entries()
                    == old(self).pending_entries().update(i, (key, message)),
            !old(self).pending_map().contains_key(key) ==> final(self).pending_entries() == old(
                self,
            ).pending_entries().push((key, message)),
            final(self).spec_deadline() == Some((now + old(self).window()) as u64),
            final(self).spec_generation() == spec_next_generation(old(self).spec_generation()),
            start == (old(self).spec_deadline() is None),
            final(self).same_config(*old(self)),
    {
        let start = self.deadline.is_none();
        self.deadline = Some(now + self.debounce_window);
        self.generation = if self.generation == u64::MAX {
            0
        } else {
            self.generation + 1
        };
        let ghost entries = self.pending@;
        proof {
            lemma_map_of_contains(entries, key);
        }
        match find_key(&self.pending, key) {
            Some(i) => {
                self.pending[i] = (key, message);
                proof {
                    lemma_map_of_update(entries, i as int, (key, message));
                }
            },
            None => {
                self.pending.push((key, message));
                proof {
                    lemma_map_of_push(entries, (key, message));
                }
            },
        }
        start
    }

    /// Replaces the pending text for `key` if one is queued, leaving the
    /// deadline and generation alone, and reports whether it did. When it
    /// returns false nothing changed and the caller is expected to send the
    /// message directly, outside the batch.
    pub fn revise(&mut self, key: u32, message: String) -> (replaced: bool)
        requires
            old(self).wf(),
        ensures
            final(self).wf(),
            replaced == old(self).pending_map().contains_key(key),
            replaced ==> {
                &&& final(self).pending_map() == old(self).pending_map().insert(key, message@)
                &&& final(self).pending_entries().len() == old(self).pending_entries().len()
                &&& exists|i: int|
                    0 <= i < old(self).pending_entries().len() && old(self).pending_entries()[i].0
                        == key && final(self).pending_entries() == old(
                        self,
                    ).pending_entries().update(i, (key, message))
                &&& final(self).spec_deadline() == old(self).spec_deadline()
                &&& final(self).spec_generation() == old(self).spec_generation()
                &&& final(self).same_config(*old(self))
            },
            !replaced ==> *final(self) == *old(self),
    {
        proof {
            lemma_map_of_contains(self.pending@, key);
        }
        let ghost entries = self.pending@;
        match find_key(&self.pending, key) {
            Some(i) => {
                self.pending[i] = (key, message);
                proof {
                    lemma_map_of_update(entries, i as int, (key, message));
                }
                true
            },
            None => false,
        }
    }

    /// The deadline and generation the flush worker snapshots before it
    /// sleeps; `None` when the channel is quiescent.
    pub fn snapshot(&self) -> (r: Option<(u64, u64)>)
        ensures
            r == match self.spec_deadline() {
                Some(d) => Some((d, self.spec_generation())),
                None => None::<(u64, u64)>,
            },
    {
        match self.deadline {
            Some(d) => Some((d, self.generation)),
            None => None,
        }
    }

    /// The drain decision the flush worker takes when its sleep ends. If an
    /// enqueue moved the generation past the worker's snapshot the cycle is
    /// abandoned untouched and the worker re-reads the deadline; otherwise
    /// the whole pending batch is handed out and the queue is left empty.
    /// Any concurrent enqueue lands either in the returned batch or in the
    /// fresh queue, never in both and never in neither, because the caller
    /// holds the lock across this call.
    pub fn try_drain(&mut self, snapshot_generation: u64) -> (drained: Option<Vec<(u32, String)>>)
        requires
            old(self).wf(),
        ensures
            final(self).wf(),
            if old(self).spec_generation() == snapshot_generation {
                &&& drained matches Some(batch) && batch@ == old(self).pending_entries()
                &&& final(self).pending_entries() == Seq::<(u32, String)>::empty()
                &&& final(self).pending_map() == Map::<u32, Seq<char>>::empty()
                &&& final(self).spec_deadline() == old(self).spec_deadline()
                &&& final(self).spec_generation() == old(self).spec_generation()
                &&& final(self).same_config(*old(self))
            } else {
                &&& drained is None
                &&& *final(self) == *old(self)
            },
    {
        if self.generation == snapshot_generation {
            let mut taken: Vec<(u32, String)> = Vec::new();
            core::mem::swap(&mut self.pending, &mut taken);
            proof {
                assert(self.pending_map() =~= Map::<u32, Seq<char>>::empty());
            }
            Some(taken)
        } else {
            None
        }
    }

    /// The decision after the worker has sent a batch: with nothing newly
    /// pending the deadline is cleared and the worker terminates, restoring
    /// the quiescent state, so the next enqueue starts a fresh worker; with
    /// late arrivals queued the worker keeps running and nothing changes.
    pub fn finish_cycle(&mut self) -> (done: bool)
        requires
            old(self).wf(),
        ensures
            final(self).wf(),
            done == (old(self).pending_entries().len() == 0),
            if done {
                &&& final(self).pending_entries() == old(self).pending_entries()
                &&& final(self).spec_deadline() is None
                &&& final(self).spec_generation() == old(self).spec_generation()
                &&& final(self).same_config(*old(self))
            } else {
                *final(self) == *old(self)
            },
    {
        if self.pending.is_empty() {
            self.deadline = None;
            true
        } else {
            false
        }
    }

    /// Splits a drained batch into outbound chunks under this channel's
    /// separator and size budget.
    pub fn chunk_batch(&self, batch: &Vec<(u32, String)>) -> (chunks: Vec<String>)
        ensures
            string_views(chunks@) == spec_chunks(
                batch_messages(batch@),
                self.separator_chars(),
                self.budget() as nat,
            ),
    {
        chunk_messages(batch, self.separator.as_str(), self.max_chunk_size)
    }
}

impl Default for Batcher {
    /// A quiescent channel with the stock configuration: a five minute
    /// debounce window, the receiving channel's two-thousand character
    /// message limit, and one message per line.
    fn default() -> (r: Batcher)
        ensures
            r.wf(),
            r.pending_entries() == Seq::<(u32, String)>::empty(),
            r.pending_map() == Map::<u32, Seq<char>>::empty(),
            r.spec_deadline() is None,
            r.spec_generation() == 0,
            r.window() == DEFAULT_DEBOUNCE_WINDOW,
            r.budget() == DEFAULT_MAX_CHUNK_SIZE,
            r.separator_chars() == "\n"@,
    {
        Batcher::new(DEFAULT_DEBOUNCE_WINDOW, DEFAULT_MAX_CHUNK_SIZE, String::from_str("\n"))
    }
}

/// Position of `key` in the pending vector, if any.
fn find_key(pending: &Vec<(u32, String)>, key: u32) -> (r: Option<usize>)
    ensures
        match r {
            Some(i) => i < pending@.len() && pending@[i as int].0 == key,
            None => forall|j: int| 0 <= j < pending@.len() ==> pending@[j].0 != key,
        },
{
    let mut i: usize = 0;
    while i < pending.len()
        invariant
            i <= pending@.len(),
            forall|j: int| 0 <= j < i ==> pending@[j].0 != key,
        decreases pending@.len() - i,
    {
        if pending[i].0 == key {
            return Some(i);
        }
        i += 1;
    }
    None
}

} // verus!
