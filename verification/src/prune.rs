//! Pruning: removing the least recently used files from a cache that has grown too large.

use vstd::prelude::*;

verus! {

/// A file of the cache.
#[derive(Clone, Copy, Debug, Eq, PartialEq, Structural)]
pub struct CacheEntry {
    pub size: u64,
    /// When the file was last written or shown, in nanoseconds since 1970-01-01 00:00 UTC.
    pub modified: i128,
}

/// What has become of a file.
#[derive(Clone, Copy, Debug, Eq, PartialEq, Structural)]
pub enum EntryState {
    /// It has been left alone.
    Kept,
    /// It has been removed.
    Removed,
    /// It could not be removed.
    Stuck,
}

/// The size of all files together.
pub open spec fn size_of_all(entries: Seq<CacheEntry>) -> nat
    decreases entries.len(),
{
    if entries.len() == 0 {
        0
    } else {
        size_of_all(entries.drop_last()) + entries.last().size as nat
    }
}

/// The size of the files, together, that have not been removed.
pub open spec fn size_left(entries: Seq<CacheEntry>, states: Seq<EntryState>) -> nat
    decreases entries.len(),
{
    if entries.len() == 0 {
        0
    } else {
        size_left(entries.drop_last(), states.drop_last()) + if states.last() is Removed {
            0nat
        } else {
            entries.last().size as nat
        }
    }
}

/// A pruning on its way.
#[verifier::ext_equal]
pub struct PruningView {
    pub entries: Seq<CacheEntry>,
    pub states: Seq<EntryState>,
    /// What the files that are left are taken to need, together.
    pub total: int,
    pub limit: int,
}

impl PruningView {
    /// Whether file number `i` may be removed next: no other file that is left alone was used
    /// less recently.
    pub open spec fn is_oldest(self, i: int) -> bool {
        &&& 0 <= i < self.entries.len()
        &&& self.states[i] is Kept
        &&& forall|j: int|
            0 <= j < self.entries.len() && (#[trigger] self.states[j]) is Kept
                ==> self.entries[i].modified <= self.entries[j].modified
    }

    /// Whether there is nothing left to do: the limit is met, or each file has been tried.
    pub open spec fn is_done(self) -> bool {
        self.total <= self.limit || forall|i: int|
            0 <= i < self.entries.len() ==> !((#[trigger] self.states[i]) is Kept)
    }

    /// The files that were tried were used no more recently than those left alone, and the total
    /// is the size of the files that are left, as far as 64 bits can hold the size of all.
    pub open spec fn wf(self) -> bool {
        let all = size_of_all(self.entries);
        let left = size_left(self.entries, self.states);
        &&& self.states.len() == self.entries.len()
        &&& 0 <= self.limit <= u64::MAX
        &&& forall|i: int, j: int|
            0 <= i < self.entries.len() && 0 <= j < self.entries.len() && !((
            #[trigger] self.states[i]) is Kept) && (#[trigger] self.states[j]) is Kept
                ==> self.entries[i].modified <= self.entries[j].modified
        &&& self.total == if all <= u64::MAX {
            left as int
        } else if all - left <= u64::MAX {
            u64::MAX - (all - left)
        } else {
            0
        }
    }

    /// The pruning of these files, before any was tried.
    pub open spec fn start(entries: Seq<CacheEntry>, limit: int) -> PruningView {
        let all = size_of_all(entries);
        PruningView {
            entries,
            states: Seq::new(entries.len(), |i: int| EntryState::Kept),
            total: if all <= u64::MAX {
                all as int
            } else {
                u64::MAX as int
            },
            limit,
        }
    }

    /// The pruning once file number `i` was tried.
    pub open spec fn tried(self, i: int, removed: bool) -> PruningView {
        PruningView {
            states: self.states.update(
                i,
                if removed {
                    EntryState::Removed
                } else {
                    EntryState::Stuck
                },
            ),
            total: if !removed {
                self.total
            } else if self.entries[i].size <= self.total {
                self.total - self.entries[i].size
            } else {
                0
            },
            ..self
        }
    }
}

/// A pruning on its way.
pub struct CachePruning {
    entries: Vec<CacheEntry>,
    states: Vec<EntryState>,
    total: u64,
    limit: u64,
}

impl View for CachePruning {
    type V = PruningView;

    closed spec fn view(&self) -> PruningView {
        PruningView {
            entries: self.entries@,
            states: self.states@,
            total: self.total as int,
            limit: self.limit as int,
        }
    }
}

proof fn lemma_size_left_of_kept(entries: Seq<CacheEntry>, states: Seq<EntryState>)
    requires
        states.len() == entries.len(),
        forall|i: int| 0 <= i < states.len() ==> states[i] is Kept,
    ensures
        size_left(entries, states) == size_of_all(entries),
    decreases entries.len(),
{
    if entries.len() > 0 {
        lemma_size_left_of_kept(entries.drop_last(), states.drop_last());
    }
}

proof fn lemma_size_left_updated(
    entries: Seq<CacheEntry>,
    states: Seq<EntryState>,
    i: int,
    state: EntryState,
)
    requires
        states.len() == entries.len(),
        0 <= i < entries.len(),
        states[i] is Kept,
    ensures
        size_left(entries, states.update(i, state)) == size_left(entries, states) - if state
            is Removed {
            entries[i].size as int
        } else {
            0int
        },
    decreases entries.len(),
{
    let updated = states.update(i, state);
    if i < entries.len() - 1 {
        lemma_size_left_updated(entries.drop_last(), states.drop_last(), i, state);
        assert(updated.drop_last() =~= states.drop_last().update(i, state));
    } else {
        assert(updated.drop_last() =~= states.drop_last());
    }
}

proof fn lemma_size_left_at_most_all(entries: Seq<CacheEntry>, states: Seq<EntryState>)
    requires
        states.len() == entries.len(),
    ensures
        size_left(entries, states) <= size_of_all(entries),
    decreases entries.len(),
{
    if entries.len() > 0 {
        lemma_size_left_at_most_all(entries.drop_last(), states.drop_last());
    }
}

proof fn lemma_size_left_at_least_each(entries: Seq<CacheEntry>, states: Seq<EntryState>, i: int)
    requires
        states.len() == entries.len(),
        0 <= i < entries.len(),
        !(states[i] is Removed),
    ensures
        entries[i].size <= size_left(entries, states),
    decreases entries.len(),
{
    if i < entries.len() - 1 {
        lemma_size_left_at_least_each(entries.drop_last(), states.drop_last(), i);
    }
}

proof fn lemma_size_left_of_removed(entries: Seq<CacheEntry>, states: Seq<EntryState>)
    requires
        states.len() == entries.len(),
        forall|i: int| 0 <= i < states.len() ==> states[i] is Removed,
    ensures
        size_left(entries, states) == 0,
    decreases entries.len(),
{
    if entries.len() > 0 {
        lemma_size_left_of_removed(entries.drop_last(), states.drop_last());
    }
}

proof fn lemma_tried_is_wf(pruning: PruningView, victim: int, removed: bool)
    requires
        pruning.wf(),
        pruning.is_oldest(victim),
    ensures
        pruning.tried(victim, removed).wf(),
{
    let state = if removed {
        EntryState::Removed
    } else {
        EntryState::Stuck
    };
    lemma_size_left_updated(pruning.entries, pruning.states, victim, state);
    lemma_size_left_at_most_all(pruning.entries, pruning.states);
    lemma_size_left_at_most_all(pruning.entries, pruning.states.update(victim, state));
}

impl CachePruning {
    /// Starts to prune a cache of these files down to `limit` bytes.
    pub fn new(entries: Vec<CacheEntry>, limit: u64) -> (pruning: CachePruning)
        ensures
            pruning@ == PruningView::start(entries@, limit as int),
            pruning@.wf(),
    {
        let mut total: u64 = 0;
        let mut states: Vec<EntryState> = Vec::new();
        let mut i: usize = 0;
        while i < entries.len()
            invariant
                i <= entries@.len(),
                states@ == Seq::new(i as nat, |k: int| EntryState::Kept),
                total == PruningView::start(entries@.take(i as int), 0).total,
            decreases entries@.len() - i,
        {
            proof {
                assert(entries@.take(i + 1).drop_last() =~= entries@.take(i as int));
            }
            total = total.saturating_add(entries[i].size);
            states.push(EntryState::Kept);
            i = i + 1;
            proof {
                assert(states@ =~= Seq::new(i as nat, |k: int| EntryState::Kept));
            }
        }
        proof {
            assert(entries@.take(entries@.len() as int) =~= entries@);
            lemma_size_left_of_kept(entries@, states@);
        }
        CachePruning { entries, states, total, limit }
    }

    /// The place of the file to remove next: of the files left alone, one that was used least
    /// recently; none if nothing is left to do.
    pub fn next_victim(&self) -> (victim: Option<usize>)
        requires
            self@.wf(),
        ensures
            match victim {
                Some(i) => !self@.is_done() && self@.is_oldest(i as int),
                None => self@.is_done(),
            },
    {
        if self.total <= self.limit {
            return None;
        }
        let mut oldest: Option<usize> = None;
        let mut i: usize = 0;
        while i < self.entries.len()
            invariant
                self@.wf(),
                i <= self.entries@.len(),
                match oldest {
                    Some(o) => {
                        &&& o < i
                        &&& self@.states[o as int] is Kept
                        &&& forall|j: int|
                            0 <= j < i && (#[trigger] self@.states[j]) is Kept
                                ==> self@.entries[o as int].modified <= self@.entries[j].modified
                    },
                    None => forall|j: int|
                        0 <= j < i ==> !((#[trigger] self@.states[j]) is Kept),
                },
            decreases self.entries@.len() - i,
        {
            if self.states[i] == EntryState::Kept {
                match oldest {
                    Some(o) => {
                        if self.entries[i].modified < self.entries[o].modified {
                            oldest = Some(i);
                        }
                    },
                    None => {
                        oldest = Some(i);
                    },
                }
            }
            i = i + 1;
        }
        oldest
    }

    /// Takes note of what came of removing file number `victim`.
    pub fn record(&mut self, victim: usize, removed: bool)
        requires
            old(self)@.wf(),
            old(self)@.is_oldest(victim as int),
        ensures
            final(self)@ == old(self)@.tried(victim as int, removed),
            final(self)@.wf(),
    {
        let ghost before = self@;
        let state = if removed {
            EntryState::Removed
        } else {
            EntryState::Stuck
        };
        proof {
            lemma_tried_is_wf(before, victim as int, removed);
        }
        self.states.set(victim, state);
        if removed {
            self.total = self.total.saturating_sub(self.entries[victim].size);
        }
        proof {
            assert(self@ =~= before.tried(victim as int, removed));
        }
    }
}

/// Where every removal succeeded, what is left of the cache meets the limit.
pub proof fn law_pruned_cache_meets_limit(pruning: PruningView)
    requires
        pruning.wf(),
        pruning.is_done(),
        size_of_all(pruning.entries) <= u64::MAX,
        forall|i: int| 0 <= i < pruning.entries.len() ==> !((#[trigger] pruning.states[i]) is Stuck),
    ensures
        size_left(pruning.entries, pruning.states) <= pruning.limit,
{
    if pruning.total > pruning.limit {
        lemma_size_left_of_removed(pruning.entries, pruning.states);
    }
}

/// Where every removal succeeded, a file that alone is larger than the limit does not stay.
pub proof fn law_oversized_file_leaves(pruning: PruningView, i: int)
    requires
        pruning.wf(),
        pruning.is_done(),
        size_of_all(pruning.entries) <= u64::MAX,
        forall|i: int| 0 <= i < pruning.entries.len() ==> !((#[trigger] pruning.states[i]) is Stuck),
        0 <= i < pruning.entries.len(),
        pruning.entries[i].size > pruning.limit,
    ensures
        pruning.states[i] is Removed,
{
    law_pruned_cache_meets_limit(pruning);
    if !(pruning.states[i] is Removed) {
        lemma_size_left_at_least_each(pruning.entries, pruning.states, i);
    }
}

/// A cache that meets the limit is left alone.
pub proof fn law_small_cache_is_left_alone(entries: Seq<CacheEntry>, limit: int)
    requires
        size_of_all(entries) <= limit <= u64::MAX,
    ensures
        PruningView::start(entries, limit).is_done(),
{
}

/// A file that was used more recently than one that is left alone is left alone too.
pub proof fn law_recently_used_file_stays(pruning: PruningView, recent: int, other: int)
    requires
        pruning.wf(),
        0 <= recent < pruning.entries.len(),
        0 <= other < pruning.entries.len(),
        pruning.states[other] is Kept,
        pruning.entries[recent].modified > pruning.entries[other].modified,
    ensures
        pruning.states[recent] is Kept,
{
}

/// Nothing is removed needlessly: whenever a file is to be removed, what is left of the cache is
/// above the limit.
pub proof fn law_nothing_is_removed_needlessly(pruning: PruningView)
    requires
        pruning.wf(),
        size_of_all(pruning.entries) <= u64::MAX,
        !pruning.is_done(),
    ensures
        size_left(pruning.entries, pruning.states) > pruning.limit,
{
}

/// Where every removal succeeded, the file that was used most recently is not removed, unless it
/// alone is larger than the limit.
pub proof fn law_newest_file_stays(pruning: PruningView, newest: int, victim: int)
    requires
        pruning.wf(),
        size_of_all(pruning.entries) <= u64::MAX,
        forall|i: int| 0 <= i < pruning.entries.len() ==> !((#[trigger] pruning.states[i]) is Stuck),
        0 <= newest < pruning.entries.len(),
        forall|i: int|
            0 <= i < pruning.entries.len() && i != newest ==> (
            #[trigger] pruning.entries[i]).modified < pruning.entries[newest].modified,
        pruning.entries[newest].size <= pruning.limit,
        !pruning.is_done(),
        pruning.is_oldest(victim),
    ensures
        victim != newest,
{
    if victim == newest {
        assert forall|j: int| 0 <= j < pruning.entries.len() && j != newest implies (
        #[trigger] pruning.states[j]) is Removed by {
            assert(pruning.entries[j].modified < pruning.entries[newest].modified);
        }
        lemma_size_left_of_one(pruning.entries, pruning.states, newest);
    }
}

proof fn lemma_size_left_of_one(entries: Seq<CacheEntry>, states: Seq<EntryState>, i: int)
    requires
        states.len() == entries.len(),
        0 <= i < entries.len(),
        forall|j: int| 0 <= j < states.len() && j != i ==> (#[trigger] states[j]) is Removed,
    ensures
        size_left(entries, states) <= entries[i].size,
    decreases entries.len(),
{
    if i < entries.len() - 1 {
        lemma_size_left_of_one(entries.drop_last(), states.drop_last(), i);
    } else {
        lemma_size_left_of_removed(entries.drop_last(), states.drop_last());
    }
}

/// The pruning once these files were tried, one after the other, each with whether it could be
/// removed.
pub open spec fn after_attempts(pruning: PruningView, attempts: Seq<(int, bool)>) -> PruningView
    decreases attempts.len(),
{
    if attempts.len() == 0 {
        pruning
    } else {
        after_attempts(pruning, attempts.drop_last()).tried(attempts.last().0, attempts.last().1)
    }
}

/// Whether these files are tried, one after the other: each while there is something left to do,
/// and none that was used more recently than another that is left alone.
pub open spec fn is_course(pruning: PruningView, attempts: Seq<(int, bool)>) -> bool
    decreases attempts.len(),
{
    attempts.len() == 0 || {
        let before = after_attempts(pruning, attempts.drop_last());
        &&& is_course(pruning, attempts.drop_last())
        &&& !before.is_done()
        &&& before.is_oldest(attempts.last().0)
    }
}

proof fn lemma_course_is_wf(pruning: PruningView, attempts: Seq<(int, bool)>)
    requires
        pruning.wf(),
        is_course(pruning, attempts),
    ensures
        after_attempts(pruning, attempts).wf(),
        after_attempts(pruning, attempts).entries == pruning.entries,
        after_attempts(pruning, attempts).limit == pruning.limit,
    decreases attempts.len(),
{
    if attempts.len() > 0 {
        lemma_course_is_wf(pruning, attempts.drop_last());
        lemma_tried_is_wf(
            after_attempts(pruning, attempts.drop_last()),
            attempts.last().0,
            attempts.last().1,
        );
    }
}

/// No file was removed in vain: what is left after the last removal, together with the file that
/// it removed, is above the limit.
pub proof fn law_last_removal_was_needed(
    entries: Seq<CacheEntry>,
    limit: u64,
    attempts: Seq<(int, bool)>,
)
    requires
        size_of_all(entries) <= u64::MAX,
        is_course(PruningView::start(entries, limit as int), attempts),
        attempts.len() > 0,
        attempts.last().1,
    ensures
        size_left(
            entries,
            after_attempts(PruningView::start(entries, limit as int), attempts).states,
        ) + entries[attempts.last().0].size > limit,
{
    let start = PruningView::start(entries, limit as int);
    lemma_size_left_of_kept(entries, start.states);
    let before = after_attempts(start, attempts.drop_last());
    lemma_course_is_wf(start, attempts.drop_last());
    lemma_size_left_updated(entries, before.states, attempts.last().0, EntryState::Removed);
}

/// The files that have not been removed.
pub open spec fn survivors(entries: Seq<CacheEntry>, states: Seq<EntryState>) -> Seq<CacheEntry>
    decreases entries.len(),
{
    if entries.len() == 0 {
        entries
    } else {
        let before = survivors(entries.drop_last(), states.drop_last());
        if states.last() is Removed {
            before
        } else {
            before.push(entries.last())
        }
    }
}

proof fn lemma_size_of_survivors(entries: Seq<CacheEntry>, states: Seq<EntryState>)
    requires
        states.len() == entries.len(),
    ensures
        size_of_all(survivors(entries, states)) == size_left(entries, states),
    decreases entries.len(),
{
    if entries.len() > 0 {
        let before = survivors(entries.drop_last(), states.drop_last());
        lemma_size_of_survivors(entries.drop_last(), states.drop_last());
        if !(states.last() is Removed) {
            assert(before.push(entries.last()).drop_last() =~= before);
        }
    }
}

/// Where every removal succeeded, pruning again removes nothing: the files that are left are left
/// alone.
pub proof fn law_second_pruning_removes_nothing(
    entries: Seq<CacheEntry>,
    limit: u64,
    attempts: Seq<(int, bool)>,
)
    requires
        size_of_all(entries) <= u64::MAX,
        is_course(PruningView::start(entries, limit as int), attempts),
        after_attempts(PruningView::start(entries, limit as int), attempts).is_done(),
        forall|i: int| 0 <= i < attempts.len() ==> (#[trigger] attempts[i]).1,
    ensures
        ({
            let done = after_attempts(PruningView::start(entries, limit as int), attempts);
            PruningView::start(survivors(entries, done.states), limit as int).is_done()
        }),
{
    let start = PruningView::start(entries, limit as int);
    let done = after_attempts(start, attempts);
    lemma_size_left_of_kept(entries, start.states);
    lemma_course_is_wf(start, attempts);
    lemma_nothing_stuck(start, attempts);
    law_pruned_cache_meets_limit(done);
    lemma_size_of_survivors(entries, done.states);
}

proof fn lemma_nothing_stuck(pruning: PruningView, attempts: Seq<(int, bool)>)
    requires
        pruning.wf(),
        is_course(pruning, attempts),
        forall|i: int| 0 <= i < pruning.states.len() ==> !((#[trigger] pruning.states[i]) is Stuck),
        forall|i: int| 0 <= i < attempts.len() ==> (#[trigger] attempts[i]).1,
    ensures
        forall|i: int|
            0 <= i < pruning.entries.len() ==> !((#[trigger] after_attempts(
                pruning,
                attempts,
            ).states[i]) is Stuck),
    decreases attempts.len(),
{
    if attempts.len() > 0 {
        assert(attempts[attempts.len() - 1].1);
        assert forall|i: int| 0 <= i < attempts.drop_last().len() implies (
        #[trigger] attempts.drop_last()[i]).1 by {
            assert(attempts[i].1);
        }
        lemma_nothing_stuck(pruning, attempts.drop_last());
        lemma_course_is_wf(pruning, attempts.drop_last());
    }
}

/// How many files have been left alone.
pub open spec fn count_kept(states: Seq<EntryState>) -> nat
    decreases states.len(),
{
    if states.len() == 0 {
        0
    } else {
        count_kept(states.drop_last()) + if states.last() is Kept {
            1nat
        } else {
            0nat
        }
    }
}

/// Each attempt to remove a file takes one from those left alone, so that a pruning ends.
pub proof fn law_pruning_proceeds(pruning: PruningView, victim: int, removed: bool)
    requires
        pruning.wf(),
        pruning.is_oldest(victim),
    ensures
        count_kept(pruning.tried(victim, removed).states) == count_kept(pruning.states) - 1,
{
    let state = if removed {
        EntryState::Removed
    } else {
        EntryState::Stuck
    };
    lemma_count_kept_updated(pruning.states, victim, state);
}

proof fn lemma_count_kept_updated(states: Seq<EntryState>, i: int, state: EntryState)
    requires
        0 <= i < states.len(),
        states[i] is Kept,
        !(state is Kept),
    ensures
        count_kept(states.update(i, state)) == count_kept(states) - 1,
    decreases states.len(),
{
    let updated = states.update(i, state);
    if i < states.len() - 1 {
        lemma_count_kept_updated(states.drop_last(), i, state);
        assert(updated.drop_last() =~= states.drop_last().update(i, state));
    } else {
        assert(updated.drop_last() =~= states.drop_last());
    }
}

/// A pruning starts with the files and the limit that it was given: no file has been tried yet, and
/// the files are taken to need what their sizes add up to, or the largest number of 64 bits if that
/// is more.
pub proof fn law_pruning_starts_as_asked(entries: Seq<CacheEntry>, limit: u64)
    ensures
        ({
            let start = PruningView::start(entries, limit as int);
            &&& start.entries == entries
            &&& start.limit == limit
            &&& start.states.len() == entries.len()
            &&& forall|i: int| 0 <= i < entries.len() ==> (#[trigger] start.states[i]) is Kept
            &&& size_of_all(entries) <= u64::MAX ==> start.total == size_of_all(entries)
            &&& size_of_all(entries) > u64::MAX ==> start.total == u64::MAX
            &&& start.wf()
        }),
{
    lemma_size_left_of_kept(entries, PruningView::start(entries, limit as int).states);
}

/// Sizes add up: no files need nothing, and one file more needs its own size more.
pub proof fn law_sizes_add_up(entries: Seq<CacheEntry>, more: CacheEntry)
    ensures
        size_of_all(Seq::<CacheEntry>::empty()) == 0,
        size_of_all(entries.push(more)) == size_of_all(entries) + more.size,
{
    assert(entries.push(more).drop_last() =~= entries);
}

/// A pruning that was started with a limit, and was run until nothing was left to do, has left
/// files whose sizes add up to at most that limit, if every file that was tried could be removed.
pub proof fn law_cache_ends_within_its_limit(
    entries: Seq<CacheEntry>,
    limit: u64,
    attempts: Seq<(int, bool)>,
)
    requires
        size_of_all(entries) <= u64::MAX,
        is_course(PruningView::start(entries, limit as int), attempts),
        after_attempts(PruningView::start(entries, limit as int), attempts).is_done(),
        forall|k: int| 0 <= k < attempts.len() ==> (#[trigger] attempts[k]).1,
    ensures
        ({
            let done = after_attempts(PruningView::start(entries, limit as int), attempts);
            &&& size_of_all(survivors(entries, done.states)) <= limit
            &&& forall|i: int|
                0 <= i < entries.len() ==> ((#[trigger] done.states[i]) is Removed
                    <==> was_tried(attempts, i))
        }),
{
    let start = PruningView::start(entries, limit as int);
    let done = after_attempts(start, attempts);
    lemma_size_left_of_kept(entries, start.states);
    lemma_course_is_wf(start, attempts);
    lemma_nothing_stuck(start, attempts);
    law_pruned_cache_meets_limit(done);
    lemma_size_of_survivors(entries, done.states);
    assert forall|i: int| 0 <= i < entries.len() implies ((#[trigger] done.states[i]) is Removed
        <==> was_tried(attempts, i)) by {
        law_attempts_tell_what_became_of_a_file(entries, limit, attempts, i);
        if was_tried(attempts, i) {
            let k = choose|k: int| 0 <= k < attempts.len() && (#[trigger] attempts[k]).0 == i;
            assert(attempts[k].1);
        }
    }
}

/// Whether file number `i` was tried.
pub open spec fn was_tried(attempts: Seq<(int, bool)>, i: int) -> bool {
    exists|k: int| 0 <= k < attempts.len() && (#[trigger] attempts[k]).0 == i
}

/// A file that was not tried is left alone; one that was tried was tried once, and is gone if it
/// could be removed, and stuck if not. What the files are taken to need goes down by the sizes of
/// those that are gone.
pub proof fn law_attempts_tell_what_became_of_a_file(
    entries: Seq<CacheEntry>,
    limit: u64,
    attempts: Seq<(int, bool)>,
    i: int,
)
    requires
        is_course(PruningView::start(entries, limit as int), attempts),
        0 <= i < entries.len(),
    ensures
        ({
            let done = after_attempts(PruningView::start(entries, limit as int), attempts);
            &&& done.entries == entries
            &&& done.limit == limit
            &&& done.states.len() == entries.len()
            &&& done.states[i] is Kept <==> !was_tried(attempts, i)
            &&& forall|k: int|
                0 <= k < attempts.len() && (#[trigger] attempts[k]).0 == i ==> done.states[i] == (
                if attempts[k].1 {
                    EntryState::Removed
                } else {
                    EntryState::Stuck
                })
            &&& size_of_all(entries) <= u64::MAX ==> done.total == size_left(entries, done.states)
        }),
        forall|k: int, m: int|
            0 <= k < m < attempts.len() ==> (#[trigger] attempts[k]).0 != i || (
            #[trigger] attempts[m]).0 != i,
    decreases attempts.len(),
{
    let start = PruningView::start(entries, limit as int);
    lemma_size_left_of_kept(entries, start.states);
    lemma_course_is_wf(start, attempts);
    if attempts.len() > 0 {
        let earlier = attempts.drop_last();
        let before = after_attempts(start, earlier);
        let last = attempts.len() - 1;
        law_attempts_tell_what_became_of_a_file(entries, limit, earlier, i);
        assert(attempts[last] == attempts.last());
        assert forall|k: int| 0 <= k < last implies #[trigger] attempts[k] == earlier[k] by {}
        if was_tried(earlier, i) {
            let k = choose|k: int| 0 <= k < earlier.len() && (#[trigger] earlier[k]).0 == i;
            assert(attempts[k].0 == i);
        }
        if was_tried(attempts, i) && attempts.last().0 != i {
            let k = choose|k: int| 0 <= k < attempts.len() && (#[trigger] attempts[k]).0 == i;
            assert(earlier[k].0 == i);
        }
        if attempts.last().0 == i {
            assert(before.states[i] is Kept);
            assert forall|k: int| 0 <= k < last implies (#[trigger] attempts[k]).0 != i by {
                assert(earlier[k].0 != i);
            }
        }
        assert forall|k: int, m: int| 0 <= k < m < attempts.len() implies (
        #[trigger] attempts[k]).0 != i || (#[trigger] attempts[m]).0 != i by {
            if m < last {
                assert(earlier[k].0 != i || earlier[m].0 != i);
            }
        }
    }
}

/// The files that were used least recently are tried first: a file that is tried only later, or not
/// at all, was used no less recently. Each is tried while what is left is above the limit.
pub proof fn law_least_recently_used_leaves_first(
    entries: Seq<CacheEntry>,
    limit: u64,
    attempts: Seq<(int, bool)>,
    k: int,
    other: int,
)
    requires
        is_course(PruningView::start(entries, limit as int), attempts),
        0 <= k < attempts.len(),
        0 <= other < entries.len(),
        !was_tried(attempts.take(k), other),
    ensures
        0 <= attempts[k].0 < entries.len(),
        entries[attempts[k].0].modified <= entries[other].modified,
        size_of_all(entries) <= u64::MAX ==> size_left(
            entries,
            after_attempts(PruningView::start(entries, limit as int), attempts.take(k)).states,
        ) > limit,
    decreases attempts.len(),
{
    let start = PruningView::start(entries, limit as int);
    let earlier = attempts.drop_last();
    if k < attempts.len() - 1 {
        assert(earlier.take(k) =~= attempts.take(k));
        law_least_recently_used_leaves_first(entries, limit, earlier, k, other);
    } else {
        assert(attempts.take(k) =~= earlier);
        let before = after_attempts(start, earlier);
        law_attempts_tell_what_became_of_a_file(entries, limit, earlier, other);
        lemma_size_left_of_kept(entries, start.states);
        lemma_course_is_wf(start, earlier);
    }
}

/// A file that cannot be removed does not end a pruning: while what is left is above the limit, it
/// goes on until every file was tried.
pub proof fn law_stuck_file_ends_nothing(pruning: PruningView, i: int)
    requires
        pruning.wf(),
        pruning.is_done(),
        size_of_all(pruning.entries) <= u64::MAX,
        size_left(pruning.entries, pruning.states) > pruning.limit,
        0 <= i < pruning.entries.len(),
    ensures
        !(pruning.states[i] is Kept),
{
}

/// A pruning goes on until nothing is left to do: until then there is a file to try, one that was
/// used least recently of those left alone.
pub proof fn law_there_is_a_file_to_try(pruning: PruningView) -> (victim: int)
    requires
        pruning.wf(),
        !pruning.is_done(),
    ensures
        0 <= victim < pruning.entries.len(),
        pruning.states[victim] is Kept,
        pruning.is_oldest(victim),
{
    let some = choose|i: int|
        0 <= i < pruning.entries.len() && (#[trigger] pruning.states[i]) is Kept;
    lemma_oldest_up_to(pruning, pruning.entries.len() as int, some)
}

proof fn lemma_oldest_up_to(pruning: PruningView, end: int, some: int) -> (victim: int)
    requires
        0 <= some < end <= pruning.entries.len(),
        pruning.states[some] is Kept,
    ensures
        0 <= victim < end,
        pruning.states[victim] is Kept,
        forall|j: int|
            0 <= j < end && (#[trigger] pruning.states[j]) is Kept
                ==> pruning.entries[victim].modified <= pruning.entries[j].modified,
    decreases end,
{
    let last = end - 1;
    if exists|i: int| 0 <= i < last && (#[trigger] pruning.states[i]) is Kept {
        let before = choose|i: int| 0 <= i < last && (#[trigger] pruning.states[i]) is Kept;
        let victim = lemma_oldest_up_to(pruning, last, before);
        if pruning.states[last] is Kept && pruning.entries[last].modified
            < pruning.entries[victim].modified {
            last
        } else {
            victim
        }
    } else {
        some
    }
}

} // verus!
