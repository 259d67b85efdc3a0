//! What the migration of a cache does to its files.
//!
//! A path is the sequence of its names, counted from the directory of the cache; a name is a
//! sequence of bytes.

use crate::migrate::{first_tasks, inspections, next_tasks, EventView, MigrationTask};
use vstd::prelude::*;

verus! {

/// What is at a path: a file with its content, or a directory.
pub enum Entry {
    File(Seq<u8>),
    Directory,
}

/// Whether every path leads through directories, and the cache itself is one.
pub open spec fn is_tree(files: Map<Seq<Seq<u8>>, Entry>) -> bool {
    &&& files.contains_key(Seq::empty())
    &&& files[Seq::empty()] is Directory
    &&& forall|path: Seq<Seq<u8>>, start: Seq<Seq<u8>>|
        #![trigger files.contains_key(path), start.is_prefix_of(path)]
        files.contains_key(path) && start.is_prefix_of(path) && start != path
            ==> files.contains_key(start) && files[start] is Directory
}

/// Whether there is a directory.
pub open spec fn has_directory(files: Map<Seq<Seq<u8>>, Entry>, path: Seq<Seq<u8>>) -> bool {
    files.contains_key(path) && files[path] is Directory
}

/// Whether a directory cannot be made there: a file is in the way.
pub open spec fn is_blocked(files: Map<Seq<Seq<u8>>, Entry>, path: Seq<Seq<u8>>) -> bool {
    exists|start: Seq<Seq<u8>>| #[trigger]
        start.is_prefix_of(path) && files.contains_key(start) && files[start] is File
}

/// The files with that directory, and those that lead to it.
pub open spec fn with_directory(files: Map<Seq<Seq<u8>>, Entry>, path: Seq<Seq<u8>>) -> Map<
    Seq<Seq<u8>>,
    Entry,
> {
    Map::new(
        |p: Seq<Seq<u8>>| files.contains_key(p) || p.is_prefix_of(path),
        |p: Seq<Seq<u8>>|
            if files.contains_key(p) {
                files[p]
            } else {
                Entry::Directory
            },
    )
}

/// Whether `path` is an entry of the directory.
pub open spec fn is_child(directory: Seq<Seq<u8>>, path: Seq<Seq<u8>>) -> bool {
    path.len() == directory.len() + 1 && directory.is_prefix_of(path)
}

/// Whether `entries` are the entries of the directory `source`, each once, in whatever order, with
/// the places of the same names in `destination`.
pub open spec fn is_listing(
    files: Map<Seq<Seq<u8>>, Entry>,
    source: Seq<Seq<u8>>,
    destination: Seq<Seq<u8>>,
    entries: Seq<(Seq<Seq<u8>>, Seq<Seq<u8>>)>,
) -> bool {
    &&& forall|i: int|
        0 <= i < entries.len() ==> {
            &&& is_child(source, (#[trigger] entries[i]).0)
            &&& files.contains_key(entries[i].0)
            &&& entries[i].1 == destination.push(entries[i].0.last())
        }
    &&& forall|i: int, j: int|
        0 <= i < j < entries.len() ==> (#[trigger] entries[i]).0 != (#[trigger] entries[j]).0
    &&& forall|path: Seq<Seq<u8>>|
        files.contains_key(path) && #[trigger] is_child(source, path) ==> exists|i: int|
            0 <= i < entries.len() && (#[trigger] entries[i]).0 == path
}

/// The files without `path` and all below it.
pub open spec fn without_tree(files: Map<Seq<Seq<u8>>, Entry>, path: Seq<Seq<u8>>) -> Map<
    Seq<Seq<u8>>,
    Entry,
> {
    Map::new(
        |p: Seq<Seq<u8>>| files.contains_key(p) && !path.is_prefix_of(p),
        |p: Seq<Seq<u8>>| files[p],
    )
}

/// The files once one of them was moved, or copied and removed.
pub open spec fn with_moved(
    files: Map<Seq<Seq<u8>>, Entry>,
    source: Seq<Seq<u8>>,
    destination: Seq<Seq<u8>>,
) -> Map<Seq<Seq<u8>>, Entry> {
    files.insert(destination, files[source]).remove(source)
}

/// Whether a task turns `files` into `after` and tells `event`, where the system does what it is
/// asked to do whenever that is possible; only a move may be refused.
pub open spec fn is_done(
    files: Map<Seq<Seq<u8>>, Entry>,
    task: MigrationTask<Seq<Seq<u8>>>,
    after: Map<Seq<Seq<u8>>, Entry>,
    event: EventView<Seq<Seq<u8>>>,
) -> bool {
    match task {
        MigrationTask::Enter { source, destination } => if !has_directory(files, source) {
            after == files && event is NotEntered
        } else if is_blocked(files, destination) {
            after == files && event is Failed
        } else {
            &&& after == with_directory(files, destination)
            &&& match event {
                EventView::Entered { entries, complete } => complete && is_listing(
                    after,
                    source,
                    destination,
                    entries,
                ),
                _ => false,
            }
        },
        MigrationTask::Inspect { source, destination } => {
            &&& after == files
            &&& event == if files.contains_key(source) {
                EventView::<Seq<Seq<u8>>>::Found {
                    is_directory: files[source] is Directory,
                    destination_exists: files.contains_key(destination),
                }
            } else {
                EventView::<Seq<Seq<u8>>>::Failed
            }
        },
        MigrationTask::Discard { source, .. } => after == files.remove(source) && event
            == EventView::<Seq<Seq<u8>>>::Done(true),
        MigrationTask::Move { source, destination } => {
            ||| after == with_moved(files, source, destination) && event == EventView::<
                Seq<Seq<u8>>,
            >::Done(true)
            ||| after == files && event == EventView::<Seq<Seq<u8>>>::Done(false)
        },
        MigrationTask::Copy { source, destination } => after == with_moved(
            files,
            source,
            destination,
        ) && event == EventView::<Seq<Seq<u8>>>::Done(true),
        MigrationTask::Close { source } => if exists|path: Seq<Seq<u8>>|
            files.contains_key(path) && #[trigger] is_child(source, path) {
            after == files && event == EventView::<Seq<Seq<u8>>>::Done(false)
        } else {
            after == files.remove(source) && event == EventView::<Seq<Seq<u8>>>::Done(true)
        },
        MigrationTask::Stop => after == files && event is Failed,
        MigrationTask::RemoveTree { path } => {
            &&& after == if has_directory(files, path) {
                without_tree(files, path)
            } else {
                files
            }
            &&& event == EventView::<Seq<Seq<u8>>>::Done(true)
        },
    }
}

/// The files of a cache, and what is left to be done with them.
pub struct MigrationState {
    pub files: Map<Seq<Seq<u8>>, Entry>,
    pub tasks: Seq<MigrationTask<Seq<Seq<u8>>>>,
}

/// Whether `event` came of the task on top, which led from one state to the other.
pub open spec fn is_step(
    before: MigrationState,
    event: EventView<Seq<Seq<u8>>>,
    after: MigrationState,
) -> bool {
    &&& before.tasks.len() > 0
    &&& is_done(before.files, before.tasks.last(), after.files, event)
    &&& after.tasks == next_tasks(before.tasks, event)
}

/// Whether these states, with the events between them, are a migration that has run to its end.
pub open spec fn is_migration(
    states: Seq<MigrationState>,
    events: Seq<EventView<Seq<Seq<u8>>>>,
    useful: Seq<u8>,
    obsolete: Seq<u8>,
) -> bool {
    &&& states.len() == events.len() + 1
    &&& states[0].tasks == first_tasks(seq![useful], Seq::empty(), seq![obsolete])
    &&& forall|i: int|
        0 <= i < events.len() ==> is_step(#[trigger] states[i], events[i], states[i + 1])
    &&& states.last().tasks.len() == 0
}

/// Whether the path is, or leads through, the entry `name` of the cache.
pub open spec fn is_in(name: Seq<u8>, path: Seq<Seq<u8>>) -> bool {
    path.len() > 0 && path[0] == name
}

/// The path of that name and those that follow.
pub open spec fn below(name: Seq<u8>, path: Seq<Seq<u8>>) -> Seq<Seq<u8>> {
    seq![name] + path
}

/// The files of a cache whose entry `useful`, if it is a directory, was merged into it: what the
/// cache has stays, what only the directory has takes its place in the cache, and the directory is
/// gone.
pub open spec fn merged(files: Map<Seq<Seq<u8>>, Entry>, useful: Seq<u8>) -> Map<
    Seq<Seq<u8>>,
    Entry,
> {
    if has_directory(files, seq![useful]) {
        Map::new(
            |p: Seq<Seq<u8>>|
                !is_in(useful, p) && (files.contains_key(p) || files.contains_key(
                    below(useful, p),
                )),
            |p: Seq<Seq<u8>>|
                if files.contains_key(p) {
                    files[p]
                } else {
                    files[below(useful, p)]
                },
        )
    } else {
        files
    }
}

/// The files of a cache that was brought up to date.
pub open spec fn migrated(
    files: Map<Seq<Seq<u8>>, Entry>,
    useful: Seq<u8>,
    obsolete: Seq<u8>,
) -> Map<Seq<Seq<u8>>, Entry> {
    let after = merged(files, useful);
    if has_directory(after, seq![obsolete]) {
        without_tree(after, seq![obsolete])
    } else {
        after
    }
}

/// Whether the directory `useful` can be merged as a whole: nothing is a file in one place and a
/// directory in the other, and it holds neither of the two names itself.
pub open spec fn is_mergeable(
    files: Map<Seq<Seq<u8>>, Entry>,
    useful: Seq<u8>,
    obsolete: Seq<u8>,
) -> bool {
    &&& useful != obsolete
    &&& !files.contains_key(seq![useful, useful])
    &&& !files.contains_key(seq![useful, obsolete])
    &&& forall|path: Seq<Seq<u8>>|
        files.contains_key(path) && #[trigger] files.contains_key(below(useful, path)) ==> (
        files[path] is File <==> files[below(useful, path)] is File)
}

/// What a task is about.
spec fn source_of(task: MigrationTask<Seq<Seq<u8>>>) -> Seq<Seq<u8>> {
    match task {
        MigrationTask::Enter { source, .. } => source,
        MigrationTask::Inspect { source, .. } => source,
        MigrationTask::Discard { source, .. } => source,
        MigrationTask::Move { source, .. } => source,
        MigrationTask::Copy { source, .. } => source,
        MigrationTask::Close { source } => source,
        MigrationTask::Stop => Seq::empty(),
        MigrationTask::RemoveTree { path } => path,
    }
}

/// Whether the task will see to what is at the path.
spec fn covers(task: MigrationTask<Seq<Seq<u8>>>, path: Seq<Seq<u8>>) -> bool {
    match task {
        MigrationTask::Close { source } => path == source,
        MigrationTask::Stop => false,
        MigrationTask::RemoveTree { .. } => false,
        _ => source_of(task).is_prefix_of(path),
    }
}

/// Whether the task fits the files: it is about an entry of the directory that is merged, and the
/// place in the cache is that of the same name.
spec fn fits(
    files: Map<Seq<Seq<u8>>, Entry>,
    useful: Seq<u8>,
    task: MigrationTask<Seq<Seq<u8>>>,
) -> bool {
    let source = source_of(task);
    let place = source.skip(1);
    &&& is_in(useful, source)
    &&& files.contains_key(source)
    &&& match task {
        MigrationTask::Enter { destination, .. } => destination == place && files[source] is Directory,
        MigrationTask::Inspect { destination, .. } => destination == place,
        MigrationTask::Discard { destination, .. } => destination == place && files[source] is File
            && files.contains_key(place),
        MigrationTask::Move { destination, .. } => destination == place && files[source] is File
            && !files.contains_key(place),
        MigrationTask::Copy { destination, .. } => destination == place && files[source] is File
            && !files.contains_key(place),
        MigrationTask::Close { .. } => files[source] is Directory && files.contains_key(place),
        _ => false,
    }
}

/// What holds of the files while the directory is merged, given those at the start.
#[verifier::opaque]
spec fn files_fit(
    start: Map<Seq<Seq<u8>>, Entry>,
    files: Map<Seq<Seq<u8>>, Entry>,
    useful: Seq<u8>,
) -> bool {
    // what the cache has stays
    &&& forall|p: Seq<Seq<u8>>|
        !is_in(useful, p) && #[trigger] start.contains_key(p) ==> files.contains_key(p)
            && files[p] == start[p]
    // what comes into the cache is what the directory had
    &&& forall|p: Seq<Seq<u8>>|
        !is_in(useful, p) && !start.contains_key(p) && #[trigger] files.contains_key(p)
            ==> start.contains_key(below(useful, p)) && files[p] == start[below(useful, p)]
    // what the directory has, it had
    &&& forall|p: Seq<Seq<u8>>|
        is_in(useful, p) && #[trigger] files.contains_key(p) ==> start.contains_key(p) && files[p]
            == start[p]
    // what the directory has no more, the cache has
    &&& forall|p: Seq<Seq<u8>>|
        is_in(useful, p) && #[trigger] start.contains_key(p) && !files.contains_key(p)
            ==> files.contains_key(p.skip(1))
    // the directory is a tree
    &&& forall|p: Seq<Seq<u8>>, q: Seq<Seq<u8>>|
        #![trigger files.contains_key(p), q.is_prefix_of(p)]
        is_in(useful, p) && files.contains_key(p) && q.is_prefix_of(p) && q.len() > 0
            ==> files.contains_key(q)
}

/// What holds of the tasks while the directory is merged.
spec fn tasks_fit(
    files: Map<Seq<Seq<u8>>, Entry>,
    tasks: Seq<MigrationTask<Seq<Seq<u8>>>>,
    useful: Seq<u8>,
    obsolete: Seq<u8>,
) -> bool {
    &&& tasks.len() > 0
    &&& tasks[0] == MigrationTask::RemoveTree { path: seq![obsolete] }
    &&& forall|i: int| 1 <= i < tasks.len() ==> fits(files, useful, #[trigger] tasks[i])
    &&& forall|i: int|
        1 <= i < tasks.len() - 1 ==> (#[trigger] tasks[i]) is Inspect || tasks[i] is Close
    &&& no_overlap(tasks)
    &&& all_covered(files, tasks, useful)
}

/// Whether no task sees to something below what a task above it is about.
#[verifier::opaque]
spec fn no_overlap(tasks: Seq<MigrationTask<Seq<Seq<u8>>>>) -> bool {
    forall|i: int, j: int, p: Seq<Seq<u8>>|
        #![trigger covers(tasks[i], p), source_of(tasks[j])]
        1 <= i < j < tasks.len() && source_of(tasks[j]).is_prefix_of(p) ==> !covers(tasks[i], p)
}

/// Whether a task sees to whatever is left of the directory.
#[verifier::opaque]
spec fn all_covered(
    files: Map<Seq<Seq<u8>>, Entry>,
    tasks: Seq<MigrationTask<Seq<Seq<u8>>>>,
    useful: Seq<u8>,
) -> bool {
    forall|p: Seq<Seq<u8>>|
        is_in(useful, p) && #[trigger] files.contains_key(p) ==> exists|i: int|
            1 <= i < tasks.len() && #[trigger] covers(tasks[i], p)
}

/// What holds at each state of a migration until the directory is merged.
spec fn state_fits(
    start: Map<Seq<Seq<u8>>, Entry>,
    state: MigrationState,
    useful: Seq<u8>,
    obsolete: Seq<u8>,
) -> bool {
    files_fit(start, state.files, useful) && tasks_fit(state.files, state.tasks, useful, obsolete)
}

/// The place in the cache of what the directory has is outside of both directories.
proof fn lemma_place_outside(
    start: Map<Seq<Seq<u8>>, Entry>,
    useful: Seq<u8>,
    obsolete: Seq<u8>,
    path: Seq<Seq<u8>>,
)
    requires
        is_tree(start),
        is_mergeable(start, useful, obsolete),
        start.contains_key(path),
        is_in(useful, path),
    ensures
        !is_in(useful, path.skip(1)),
        !is_in(obsolete, path.skip(1)),
        below(useful, path.skip(1)) == path,
{
    assert(below(useful, path.skip(1)) =~= path);
    if path.len() > 1 {
        let two = seq![path[0], path[1]];
        assert(two =~= path.subrange(0, 2));
        assert(two.is_prefix_of(path));
        assert(start.contains_key(two));
    }
}

/// Nothing lies below a file.
proof fn lemma_nothing_below_a_file(
    start: Map<Seq<Seq<u8>>, Entry>,
    file: Seq<Seq<u8>>,
    path: Seq<Seq<u8>>,
)
    requires
        is_tree(start),
        start.contains_key(path),
        start.contains_key(file),
        start[file] is File,
        file.is_prefix_of(path),
    ensures
        path == file,
{
}

proof fn lemma_inspected(
    start: Map<Seq<Seq<u8>>, Entry>,
    before: MigrationState,
    event: EventView<Seq<Seq<u8>>>,
    after: MigrationState,
    useful: Seq<u8>,
    obsolete: Seq<u8>,
)
    requires
        state_fits(start, before, useful, obsolete),
        before.tasks.len() > 1,
        before.tasks.last() is Inspect || (before.tasks.last() is Move && event == EventView::<
            Seq<Seq<u8>>,
        >::Done(false)),
        is_step(before, event, after),
    ensures
        state_fits(start, after, useful, obsolete),
{
    reveal(no_overlap);
    reveal(all_covered);
    let k = before.tasks.len() - 1;
    let top = before.tasks[k];
    assert(fits(before.files, useful, top));
    let tasks = after.tasks;
    assert(tasks.len() == k + 1);
    assert(forall|i: int| 0 <= i < k ==> tasks[i] == before.tasks[i]);
    assert(source_of(tasks[k]) == source_of(top));
    assert forall|p: Seq<Seq<u8>>| covers(tasks[k], p) == covers(top, p) by {}
    assert forall|p: Seq<Seq<u8>>|
        is_in(useful, p) && #[trigger] after.files.contains_key(p) implies exists|i: int|
        1 <= i < tasks.len() && #[trigger] covers(tasks[i], p) by {
        let i = choose|i: int| 1 <= i < before.tasks.len() && #[trigger] covers(before.tasks[i], p);
        assert(covers(tasks[i], p));
    }
    assert forall|i: int, j: int, p: Seq<Seq<u8>>|
        #![trigger covers(tasks[i], p), source_of(tasks[j])]
        1 <= i < j < tasks.len() && source_of(tasks[j]).is_prefix_of(p) implies !covers(
        tasks[i],
        p,
    ) by {
        assert(tasks[i] == before.tasks[i]);
        assert(source_of(tasks[j]) == source_of(before.tasks[j]));
        assert(!covers(before.tasks[i], p));
    }
}

/// Whether what was at `source`, and that alone, was taken away, and it, or what was there before,
/// is at its place in the cache.
spec fn is_taken(
    before: Map<Seq<Seq<u8>>, Entry>,
    source: Seq<Seq<u8>>,
    after: Map<Seq<Seq<u8>>, Entry>,
    useful: Seq<u8>,
) -> bool {
    let place = source.skip(1);
    &&& forall|p: Seq<Seq<u8>>|
        #![trigger after.contains_key(p)]
        is_in(useful, p) ==> (after.contains_key(p) <==> before.contains_key(p) && p != source)
    &&& forall|p: Seq<Seq<u8>>|
        #![trigger after.contains_key(p)]
        !is_in(useful, p) ==> (after.contains_key(p) <==> before.contains_key(p) || p == place)
    &&& forall|p: Seq<Seq<u8>>| #[trigger]
        before.contains_key(p) && p != source ==> after[p] == before[p]
    &&& !before.contains_key(place) ==> after[place] == before[source]
    &&& forall|p: Seq<Seq<u8>>|
        is_in(useful, p) && #[trigger] before.contains_key(p) && source.is_prefix_of(p) ==> p
            == source
}

proof fn lemma_files_without_source(
    start: Map<Seq<Seq<u8>>, Entry>,
    before: Map<Seq<Seq<u8>>, Entry>,
    source: Seq<Seq<u8>>,
    after: Map<Seq<Seq<u8>>, Entry>,
    useful: Seq<u8>,
    obsolete: Seq<u8>,
)
    requires
        is_tree(start),
        is_mergeable(start, useful, obsolete),
        files_fit(start, before, useful),
        before.contains_key(source),
        is_in(useful, source),
        is_taken(before, source, after, useful),
    ensures
        files_fit(start, after, useful),
{
    reveal(files_fit);
    let place = source.skip(1);
    assert(start.contains_key(source) && start[source] == before[source]);
    lemma_place_outside(start, useful, obsolete, source);
    assert forall|p: Seq<Seq<u8>>|
        !is_in(useful, p) && #[trigger] start.contains_key(p) implies after.contains_key(p)
        && after[p] == start[p] by {
        assert(before.contains_key(p));
    }
    assert forall|p: Seq<Seq<u8>>|
        !is_in(useful, p) && !start.contains_key(p) && #[trigger] after.contains_key(
            p,
        ) implies start.contains_key(below(useful, p)) && after[p] == start[below(useful, p)] by {
        if before.contains_key(p) {
            assert(after[p] == before[p]);
        } else {
            assert(p == place);
        }
    }
    assert forall|p: Seq<Seq<u8>>|
        is_in(useful, p) && #[trigger] start.contains_key(p) && !after.contains_key(
            p,
        ) implies after.contains_key(p.skip(1)) by {
        lemma_place_outside(start, useful, obsolete, p);
        if p != source {
            assert(!before.contains_key(p));
            assert(before.contains_key(p.skip(1)));
        }
    }
    assert forall|p: Seq<Seq<u8>>, q: Seq<Seq<u8>>|
        #![trigger after.contains_key(p), q.is_prefix_of(p)]
        is_in(useful, p) && after.contains_key(p) && q.is_prefix_of(p) && q.len()
            > 0 implies after.contains_key(q) by {
        assert(before.contains_key(p));
        assert(before.contains_key(q));
        assert(p.subrange(0, q.len() as int)[0] == p[0]);
    }
    assert forall|p: Seq<Seq<u8>>|
        is_in(useful, p) && #[trigger] after.contains_key(p) implies start.contains_key(p)
        && after[p] == start[p] by {
        assert(before.contains_key(p));
    }
}

proof fn lemma_other_tasks_fit(
    start: Map<Seq<Seq<u8>>, Entry>,
    before: MigrationState,
    after: Map<Seq<Seq<u8>>, Entry>,
    useful: Seq<u8>,
    obsolete: Seq<u8>,
    i: int,
)
    requires
        is_tree(start),
        is_mergeable(start, useful, obsolete),
        state_fits(start, before, useful, obsolete),
        1 <= i < before.tasks.len() - 1,
        is_taken(before.files, source_of(before.tasks.last()), after, useful),
    ensures
        fits(after, useful, before.tasks[i]),
{
    reveal(no_overlap);
    reveal(files_fit);
    let k = before.tasks.len() - 1;
    let source = source_of(before.tasks[k]);
    let task = before.tasks[i];
    let other = source_of(task);
    assert(fits(before.files, useful, task));
    assert(task is Inspect || task is Close);
    assert(source.is_prefix_of(source));
    assert(source_of(before.tasks[k]).is_prefix_of(source));
    assert(!covers(before.tasks[i], source));
    assert(other != source);
    assert(start.contains_key(other)) by {
        assert(before.files.contains_key(other));
    }
    lemma_place_outside(start, useful, obsolete, other);
    assert(before.files.contains_key(other));
    assert(after.contains_key(other));
    assert(after[other] == before.files[other]);
    if task is Close {
        assert(before.files.contains_key(other.skip(1)));
        assert(after.contains_key(other.skip(1)));
    }
}

/// Once the task on top has taken away what it was about, everything fits as before.
proof fn lemma_taken_away(
    start: Map<Seq<Seq<u8>>, Entry>,
    before: MigrationState,
    after: MigrationState,
    useful: Seq<u8>,
    obsolete: Seq<u8>,
)
    requires
        is_tree(start),
        is_mergeable(start, useful, obsolete),
        state_fits(start, before, useful, obsolete),
        before.tasks.len() > 1,
        after.tasks == before.tasks.drop_last(),
        is_taken(before.files, source_of(before.tasks.last()), after.files, useful),
    ensures
        state_fits(start, after, useful, obsolete),
{
    let k = before.tasks.len() - 1;
    let source = source_of(before.tasks[k]);
    let tasks = after.tasks;
    assert(fits(before.files, useful, before.tasks[k]));
    lemma_files_without_source(start, before.files, source, after.files, useful, obsolete);
    assert forall|i: int| 1 <= i < tasks.len() implies fits(after.files, useful, #[trigger] tasks[i]) by {
        lemma_other_tasks_fit(start, before, after.files, useful, obsolete, i);
    }
    assert(all_covered(after.files, tasks, useful)) by {
        reveal(all_covered);
        assert forall|p: Seq<Seq<u8>>|
            is_in(useful, p) && #[trigger] after.files.contains_key(p) implies exists|i: int|
            1 <= i < tasks.len() && #[trigger] covers(tasks[i], p) by {
            assert(before.files.contains_key(p));
            let i = choose|i: int|
                1 <= i < before.tasks.len() && #[trigger] covers(before.tasks[i], p);
            assert(i != k);
            assert(covers(tasks[i], p));
        }
    }
    assert(no_overlap(tasks)) by {
        reveal(no_overlap);
        assert forall|i: int, j: int, p: Seq<Seq<u8>>|
            #![trigger covers(tasks[i], p), source_of(tasks[j])]
            1 <= i < j < tasks.len() && source_of(tasks[j]).is_prefix_of(p) implies !covers(
            tasks[i],
            p,
        ) by {
            assert(tasks[i] == before.tasks[i] && tasks[j] == before.tasks[j]);
            assert(source_of(before.tasks[j]).is_prefix_of(p));
            assert(!covers(before.tasks[i], p));
        }
    }
    assert forall|i: int| 1 <= i < tasks.len() - 1 implies (#[trigger] tasks[i]) is Inspect
        || tasks[i] is Close by {
        assert(tasks[i] == before.tasks[i]);
    }
}

proof fn lemma_file_taken(
    start: Map<Seq<Seq<u8>>, Entry>,
    before: MigrationState,
    event: EventView<Seq<Seq<u8>>>,
    after: MigrationState,
    useful: Seq<u8>,
    obsolete: Seq<u8>,
)
    requires
        is_tree(start),
        is_mergeable(start, useful, obsolete),
        state_fits(start, before, useful, obsolete),
        before.tasks.len() > 1,
        before.tasks.last() is Discard || before.tasks.last() is Copy || before.tasks.last() is Move,
        event == EventView::<Seq<Seq<u8>>>::Done(true),
        is_step(before, event, after),
    ensures
        state_fits(start, after, useful, obsolete),
{
    reveal(files_fit);
    let k = before.tasks.len() - 1;
    let top = before.tasks[k];
    let source = source_of(top);
    assert(fits(before.files, useful, top));
    assert(start.contains_key(source) && start[source] == before.files[source]);
    lemma_place_outside(start, useful, obsolete, source);
    assert forall|p: Seq<Seq<u8>>|
        is_in(useful, p) && #[trigger] before.files.contains_key(p) && source.is_prefix_of(
            p,
        ) implies p == source by {
        lemma_nothing_below_a_file(start, source, p);
    }
    lemma_taken_away(start, before, after, useful, obsolete);
}

proof fn lemma_closed(
    start: Map<Seq<Seq<u8>>, Entry>,
    before: MigrationState,
    event: EventView<Seq<Seq<u8>>>,
    after: MigrationState,
    useful: Seq<u8>,
    obsolete: Seq<u8>,
)
    requires
        is_tree(start),
        is_mergeable(start, useful, obsolete),
        state_fits(start, before, useful, obsolete),
        before.tasks.len() > 1,
        before.tasks.last() is Close,
        is_step(before, event, after),
    ensures
        state_fits(start, after, useful, obsolete),
{
    reveal(files_fit);
    reveal(no_overlap);
    reveal(all_covered);
    let k = before.tasks.len() - 1;
    let top = before.tasks[k];
    let source = source_of(top);
    assert(fits(before.files, useful, top));
    assert(start.contains_key(source));
    lemma_place_outside(start, useful, obsolete, source);
    assert forall|p: Seq<Seq<u8>>|
        is_in(useful, p) && #[trigger] before.files.contains_key(p) && source.is_prefix_of(
            p,
        ) implies p == source by {
        let i = choose|i: int| 1 <= i < before.tasks.len() && #[trigger] covers(before.tasks[i], p);
        if i < k {
            assert(source_of(before.tasks[k]).is_prefix_of(p));
            assert(!covers(before.tasks[i], p));
        }
    }
    assert forall|p: Seq<Seq<u8>>|
        before.files.contains_key(p) implies !(#[trigger] is_child(source, p)) by {
        if is_child(source, p) {
            assert(p.subrange(0, source.len() as int)[0] == p[0]);
        }
    }
    lemma_taken_away(start, before, after, useful, obsolete);
}

proof fn lemma_below_starts(name: Seq<u8>, q: Seq<Seq<u8>>, p: Seq<Seq<u8>>)
    requires
        q.is_prefix_of(p),
    ensures
        below(name, q).is_prefix_of(below(name, p)),
        q != p ==> below(name, q) != below(name, p),
        q.len() > 0 ==> q[0] == p[0],
{
    assert(below(name, p).subrange(0, (q.len() + 1) as int) =~= below(name, q));
    assert(below(name, q).skip(1) =~= q);
    assert(below(name, p).skip(1) =~= p);
    if q.len() > 0 {
        assert(p.subrange(0, q.len() as int)[0] == p[0]);
    }
}

/// On the way to the place of a directory, the directory that is merged has directories.
proof fn lemma_way_of_directories(
    start: Map<Seq<Seq<u8>>, Entry>,
    useful: Seq<u8>,
    obsolete: Seq<u8>,
    source: Seq<Seq<u8>>,
    q: Seq<Seq<u8>>,
)
    requires
        is_tree(start),
        is_mergeable(start, useful, obsolete),
        is_in(useful, source),
        has_directory(start, source),
        q.is_prefix_of(source.skip(1)),
    ensures
        has_directory(start, below(useful, q)),
        !is_in(useful, q),
{
    lemma_place_outside(start, useful, obsolete, source);
    lemma_below_starts(useful, q, source.skip(1));
}

proof fn lemma_not_blocked(
    start: Map<Seq<Seq<u8>>, Entry>,
    files: Map<Seq<Seq<u8>>, Entry>,
    useful: Seq<u8>,
    obsolete: Seq<u8>,
    source: Seq<Seq<u8>>,
)
    requires
        is_tree(start),
        is_mergeable(start, useful, obsolete),
        files_fit(start, files, useful),
        is_in(useful, source),
        has_directory(files, source),
    ensures
        !is_blocked(files, source.skip(1)),
        has_directory(start, source),
{
    reveal(files_fit);
    assert(start.contains_key(source));
    assert forall|q: Seq<Seq<u8>>| #[trigger]
        q.is_prefix_of(source.skip(1)) && files.contains_key(q) implies !(files[q] is File) by {
        lemma_way_of_directories(start, useful, obsolete, source, q);
        assert(start.contains_key(below(useful, q)));
        if start.contains_key(q) {
            assert(files[q] == start[q]);
        } else {
            assert(files[q] == start[below(useful, q)]);
        }
    }
}

proof fn lemma_files_with_directory(
    start: Map<Seq<Seq<u8>>, Entry>,
    files: Map<Seq<Seq<u8>>, Entry>,
    useful: Seq<u8>,
    obsolete: Seq<u8>,
    source: Seq<Seq<u8>>,
)
    requires
        is_tree(start),
        is_mergeable(start, useful, obsolete),
        files_fit(start, files, useful),
        is_in(useful, source),
        has_directory(start, source),
    ensures
        files_fit(start, with_directory(files, source.skip(1)), useful),
        forall|p: Seq<Seq<u8>>|
            is_in(useful, p) ==> #[trigger] with_directory(files, source.skip(1)).contains_key(p)
                == files.contains_key(p),
{
    reveal(files_fit);
    let place = source.skip(1);
    let after = with_directory(files, place);
    assert forall|p: Seq<Seq<u8>>| #[trigger]
        after.contains_key(p) && !files.contains_key(p) implies !is_in(useful, p) && has_directory(
        start,
        below(useful, p),
    ) && after[p] is Directory by {
        lemma_way_of_directories(start, useful, obsolete, source, p);
    }
    assert forall|p: Seq<Seq<u8>>|
        !is_in(useful, p) && #[trigger] start.contains_key(p) implies after.contains_key(p)
        && after[p] == start[p] by {
        assert(files.contains_key(p));
    }
    assert forall|p: Seq<Seq<u8>>|
        !is_in(useful, p) && !start.contains_key(p) && #[trigger] after.contains_key(
            p,
        ) implies start.contains_key(below(useful, p)) && after[p] == start[below(useful, p)] by {
        if files.contains_key(p) {
            assert(after[p] == files[p]);
        }
    }
    assert forall|p: Seq<Seq<u8>>|
        is_in(useful, p) && #[trigger] start.contains_key(p) && !after.contains_key(
            p,
        ) implies after.contains_key(p.skip(1)) by {
        assert(!files.contains_key(p));
        assert(files.contains_key(p.skip(1)));
    }
    assert forall|p: Seq<Seq<u8>>, q: Seq<Seq<u8>>|
        #![trigger after.contains_key(p), q.is_prefix_of(p)]
        is_in(useful, p) && after.contains_key(p) && q.is_prefix_of(p) && q.len()
            > 0 implies after.contains_key(q) by {
        assert(files.contains_key(p));
        assert(files.contains_key(q));
    }
}

proof fn lemma_prefix_of_prefix(a: Seq<Seq<u8>>, b: Seq<Seq<u8>>, c: Seq<Seq<u8>>)
    requires
        a.is_prefix_of(b),
        b.is_prefix_of(c),
    ensures
        a.is_prefix_of(c),
{
    assert(c.subrange(0, a.len() as int) =~= b.subrange(0, a.len() as int));
}

proof fn lemma_child_on_the_way(source: Seq<Seq<u8>>, path: Seq<Seq<u8>>) -> (child: Seq<Seq<u8>>)
    requires
        source.is_prefix_of(path),
        source != path,
    ensures
        is_child(source, child),
        child.is_prefix_of(path),
{
    if path.len() == source.len() {
        assert(path.subrange(0, source.len() as int) =~= path);
    }
    let child = path.subrange(0, (source.len() + 1) as int);
    assert(child.subrange(0, source.len() as int) =~= path.subrange(0, source.len() as int));
    child
}

/// Whether the tasks are those before, with what was entered to be closed and its entries to be
/// inspected in place of the last.
spec fn is_opened(
    before: Seq<MigrationTask<Seq<Seq<u8>>>>,
    tasks: Seq<MigrationTask<Seq<Seq<u8>>>>,
    entries: Seq<(Seq<Seq<u8>>, Seq<Seq<u8>>)>,
) -> bool {
    let k = before.len() - 1;
    let n = entries.len() as int;
    &&& tasks.len() == k + 1 + n
    &&& forall|i: int| 0 <= i < k ==> tasks[i] == before[i]
    &&& tasks[k] == MigrationTask::Close { source: source_of(before[k]) }
    &&& forall|i: int|
        k < i < tasks.len() ==> (#[trigger] tasks[i]) == (MigrationTask::Inspect {
            source: entries[n - 1 - (i - k - 1)].0,
            destination: entries[n - 1 - (i - k - 1)].1,
        })
}

proof fn lemma_opened_fits(
    before: MigrationState,
    after: MigrationState,
    entries: Seq<(Seq<Seq<u8>>, Seq<Seq<u8>>)>,
    useful: Seq<u8>,
    i: int,
)
    requires
        before.tasks.len() > 1,
        is_opened(before.tasks, after.tasks, entries),
        before.tasks.last() is Enter,
        forall|i: int|
            1 <= i < before.tasks.len() ==> fits(before.files, useful, #[trigger] before.tasks[i]),
        forall|i: int|
            1 <= i < before.tasks.len() - 1 ==> (#[trigger] before.tasks[i]) is Inspect
                || before.tasks[i] is Close,
        ({
            let source = source_of(before.tasks.last());
            &&& after.files == with_directory(before.files, source.skip(1))
            &&& is_listing(after.files, source, source.skip(1), entries)
        }),
        1 <= i < after.tasks.len(),
    ensures
        fits(after.files, useful, after.tasks[i]),
        i < after.tasks.len() - 1 ==> after.tasks[i] is Inspect || after.tasks[i] is Close,
{
    let k = before.tasks.len() - 1;
    let source = source_of(before.tasks[k]);
    let place = source.skip(1);
    assert(fits(before.files, useful, before.tasks[k]));
    if i < k {
        assert(after.tasks[i] == before.tasks[i]);
        assert(fits(before.files, useful, before.tasks[i]));
    } else if i == k {
        assert(place.subrange(0, place.len() as int) =~= place);
        assert(place.is_prefix_of(place));
    } else {
        let m = entries.len() - 1 - (i - k - 1);
        let child = entries[m].0;
        assert(is_child(source, child));
        assert(child.subrange(0, source.len() as int) =~= source);
        assert(child =~= source.push(child.last()));
        assert(child.skip(1) =~= place.push(child.last()));
        assert(child[0] == source[0]);
    }
}

proof fn lemma_opened_covers(
    before: MigrationState,
    after: MigrationState,
    entries: Seq<(Seq<Seq<u8>>, Seq<Seq<u8>>)>,
    useful: Seq<u8>,
    p: Seq<Seq<u8>>,
)
    requires
        before.tasks.len() > 1,
        is_opened(before.tasks, after.tasks, entries),
        before.tasks.last() is Enter,
        all_covered(before.files, before.tasks, useful),
        is_listing(
            after.files,
            source_of(before.tasks.last()),
            source_of(before.tasks.last()).skip(1),
            entries,
        ),
        is_in(useful, p),
        before.files.contains_key(p),
        forall|q: Seq<Seq<u8>>|
            #[trigger] q.is_prefix_of(p) && q.len() > 0 ==> after.files.contains_key(q),
    ensures
        exists|i: int| 1 <= i < after.tasks.len() && #[trigger] covers(after.tasks[i], p),
{
    reveal(all_covered);
    let k = before.tasks.len() - 1;
    let source = source_of(before.tasks[k]);
    let i = choose|i: int| 1 <= i < before.tasks.len() && #[trigger] covers(before.tasks[i], p);
    if i < k {
        assert(covers(after.tasks[i], p));
    } else if p == source {
        assert(covers(after.tasks[k], p));
    } else {
        let child = lemma_child_on_the_way(source, p);
        assert(after.files.contains_key(child));
        let m = choose|m: int| 0 <= m < entries.len() && (#[trigger] entries[m]).0 == child;
        let j = k + 1 + (entries.len() - 1 - m);
        assert(entries.len() - 1 - (j - k - 1) == m);
        assert(source_of(after.tasks[j]) == child);
        assert(covers(after.tasks[j], p));
    }
}

proof fn lemma_entered(
    start: Map<Seq<Seq<u8>>, Entry>,
    before: MigrationState,
    event: EventView<Seq<Seq<u8>>>,
    after: MigrationState,
    useful: Seq<u8>,
    obsolete: Seq<u8>,
)
    requires
        is_tree(start),
        is_mergeable(start, useful, obsolete),
        state_fits(start, before, useful, obsolete),
        before.tasks.len() > 1,
        before.tasks.last() is Enter,
        is_step(before, event, after),
    ensures
        state_fits(start, after, useful, obsolete),
{
    let k = before.tasks.len() - 1;
    let source = source_of(before.tasks[k]);
    assert(fits(before.files, useful, before.tasks[k]));
    lemma_not_blocked(start, before.files, useful, obsolete, source);
    lemma_files_with_directory(start, before.files, useful, obsolete, source);
    if let EventView::Entered { entries, complete } = event {
        let tasks = after.tasks;
        assert(is_opened(before.tasks, tasks, entries)) by {
            assert forall|i: int| k < i < tasks.len() implies (#[trigger] tasks[i]) == (
            MigrationTask::Inspect {
                source: entries[entries.len() - 1 - (i - k - 1)].0,
                destination: entries[entries.len() - 1 - (i - k - 1)].1,
            }) by {
                assert(tasks[i] == inspections(entries)[i - k - 1]);
            }
        }
        assert forall|i: int| 1 <= i < tasks.len() implies fits(
            after.files,
            useful,
            #[trigger] tasks[i],
        ) && (i < tasks.len() - 1 ==> tasks[i] is Inspect || tasks[i] is Close) by {
            lemma_opened_fits(before, after, entries, useful, i);
        }
        lemma_no_overlap_below(before.tasks, tasks, entries);
        assert(all_covered(after.files, tasks, useful)) by {
            assert forall|p: Seq<Seq<u8>>|
                is_in(useful, p) && #[trigger] after.files.contains_key(p) implies exists|i: int|
                1 <= i < tasks.len() && #[trigger] covers(tasks[i], p) by {
                assert forall|q: Seq<Seq<u8>>| #[trigger]
                    q.is_prefix_of(p) && q.len() > 0 implies after.files.contains_key(q) by {
                    reveal(files_fit);
                }
                lemma_opened_covers(before, after, entries, useful, p);
            }
            reveal(all_covered);
        }
    }
}

proof fn lemma_no_overlap_below(
    before: Seq<MigrationTask<Seq<Seq<u8>>>>,
    tasks: Seq<MigrationTask<Seq<Seq<u8>>>>,
    entries: Seq<(Seq<Seq<u8>>, Seq<Seq<u8>>)>,
)
    requires
        before.len() > 1,
        no_overlap(before),
        is_opened(before, tasks, entries),
        forall|i: int|
            0 <= i < entries.len() ==> is_child(source_of(before.last()), (#[trigger] entries[i]).0),
        forall|i: int, j: int|
            0 <= i < j < entries.len() ==> (#[trigger] entries[i]).0 != (#[trigger] entries[j]).0,
    ensures
        no_overlap(tasks),
{
    reveal(no_overlap);
    let k = before.len() - 1;
    let n = entries.len() as int;
    let source = source_of(before[k]);
    assert forall|i: int, j: int, p: Seq<Seq<u8>>|
        #![trigger covers(tasks[i], p), source_of(tasks[j])]
        1 <= i < j < tasks.len() && source_of(tasks[j]).is_prefix_of(p) implies !covers(
        tasks[i],
        p,
    ) by {
        if i < k {
            if j > k {
                assert(is_child(source, entries[n - 1 - (j - k - 1)].0));
                lemma_prefix_of_prefix(source, source_of(tasks[j]), p);
            }
            let above = if j < k {
                j
            } else {
                k
            };
            assert(source_of(before[above]).is_prefix_of(p));
            assert(!covers(before[i], p));
        } else if i > k {
            let a = entries[n - 1 - (i - k - 1)].0;
            let b = entries[n - 1 - (j - k - 1)].0;
            assert(source_of(tasks[i]) == a && source_of(tasks[j]) == b);
            assert(a != b);
            assert(is_child(source, a) && is_child(source, b));
        } else {
            assert(is_child(source, entries[n - 1 - (j - k - 1)].0));
        }
    }
}

proof fn lemma_step_fits(
    start: Map<Seq<Seq<u8>>, Entry>,
    before: MigrationState,
    event: EventView<Seq<Seq<u8>>>,
    after: MigrationState,
    useful: Seq<u8>,
    obsolete: Seq<u8>,
)
    requires
        is_tree(start),
        is_mergeable(start, useful, obsolete),
        state_fits(start, before, useful, obsolete),
        before.tasks.len() > 1,
        is_step(before, event, after),
    ensures
        state_fits(start, after, useful, obsolete),
{
    assert(fits(before.files, useful, before.tasks[before.tasks.len() - 1]));
    match before.tasks.last() {
        MigrationTask::Enter { .. } => {
            lemma_entered(start, before, event, after, useful, obsolete);
        },
        MigrationTask::Inspect { .. } => {
            lemma_inspected(start, before, event, after, useful, obsolete);
        },
        MigrationTask::Move { .. } => {
            if event == EventView::<Seq<Seq<u8>>>::Done(false) {
                lemma_inspected(start, before, event, after, useful, obsolete);
            } else {
                lemma_file_taken(start, before, event, after, useful, obsolete);
            }
        },
        MigrationTask::Close { .. } => {
            lemma_closed(start, before, event, after, useful, obsolete);
        },
        _ => {
            lemma_file_taken(start, before, event, after, useful, obsolete);
        },
    }
}

proof fn lemma_start_fits(
    state: MigrationState,
    useful: Seq<u8>,
    obsolete: Seq<u8>,
)
    requires
        is_tree(state.files),
        has_directory(state.files, seq![useful]),
        state.tasks == first_tasks(seq![useful], Seq::empty(), seq![obsolete]),
    ensures
        state_fits(state.files, state, useful, obsolete),
{
    reveal(files_fit);
    reveal(no_overlap);
    reveal(all_covered);
    let source = seq![useful];
    assert(source.skip(1) =~= Seq::<Seq<u8>>::empty());
    assert(fits(state.files, useful, state.tasks[1]));
    assert forall|p: Seq<Seq<u8>>|
        is_in(useful, p) && #[trigger] state.files.contains_key(p) implies exists|i: int|
        1 <= i < state.tasks.len() && #[trigger] covers(state.tasks[i], p) by {
        assert(p.subrange(0, 1) =~= source);
        assert(covers(state.tasks[1], p));
    }
}

proof fn lemma_all_merged(
    start: Map<Seq<Seq<u8>>, Entry>,
    state: MigrationState,
    useful: Seq<u8>,
    obsolete: Seq<u8>,
)
    requires
        has_directory(start, seq![useful]),
        state_fits(start, state, useful, obsolete),
        state.tasks.len() == 1,
    ensures
        state.files == merged(start, useful),
{
    reveal(files_fit);
    reveal(all_covered);
    let files = state.files;
    assert forall|p: Seq<Seq<u8>>| is_in(useful, p) implies !(#[trigger] files.contains_key(p)) by {}
    assert forall|p: Seq<Seq<u8>>| #[trigger]
        files.contains_key(p) == merged(start, useful).contains_key(p) by {
        if start.contains_key(below(useful, p)) {
            assert(is_in(useful, below(useful, p)));
            assert(below(useful, p).skip(1) =~= p);
        }
    }
    assert(files =~= merged(start, useful));
}

proof fn lemma_states_fit(
    states: Seq<MigrationState>,
    events: Seq<EventView<Seq<Seq<u8>>>>,
    useful: Seq<u8>,
    obsolete: Seq<u8>,
    i: int,
)
    requires
        is_migration(states, events, useful, obsolete),
        is_tree(states[0].files),
        is_mergeable(states[0].files, useful, obsolete),
        has_directory(states[0].files, seq![useful]),
        0 <= i < events.len(),
    ensures
        state_fits(states[0].files, states[i], useful, obsolete),
    decreases i,
{
    if i == 0 {
        lemma_start_fits(states[0], useful, obsolete);
    } else {
        lemma_states_fit(states, events, useful, obsolete, i - 1);
        assert(is_step(states[i - 1], events[i - 1], states[i]));
        assert(is_step(states[i], events[i], states[i + 1]));
        if states[i - 1].tasks.len() > 1 {
            lemma_step_fits(
                states[0].files,
                states[i - 1],
                events[i - 1],
                states[i],
                useful,
                obsolete,
            );
        }
    }
}

/// A migration that has run to its end has brought the cache up to date: each file of the
/// directory that is still of use is at its place in the cache, with the cache's own content if
/// the cache had that file, else with that of the directory; every other file of the cache is as it
/// was; and neither of the two directories is left. In which order the entries of a directory are
/// listed, and which files are moved and which copied, does not matter.
pub proof fn law_migration_brings_up_to_date(
    states: Seq<MigrationState>,
    events: Seq<EventView<Seq<Seq<u8>>>>,
    useful: Seq<u8>,
    obsolete: Seq<u8>,
)
    requires
        is_migration(states, events, useful, obsolete),
        is_tree(states[0].files),
        is_mergeable(states[0].files, useful, obsolete),
    ensures
        states.last().files == migrated(states[0].files, useful, obsolete),
{
    let start = states[0].files;
    let n = events.len() as int;
    if n > 0 && has_directory(start, seq![useful]) {
        lemma_states_fit(states, events, useful, obsolete, n - 1);
        assert(is_step(states[n - 1], events[n - 1], states[n]));
        if states[n - 1].tasks.len() > 1 {
            lemma_step_fits(start, states[n - 1], events[n - 1], states[n], useful, obsolete);
        }
        lemma_all_merged(start, states[n - 1], useful, obsolete);
    } else {
        assert(is_step(states[0], events[0], states[1]));
        assert(states[1].tasks =~= seq![MigrationTask::RemoveTree { path: seq![obsolete] }]);
        assert(is_step(states[1], events[1], states[2]));
        assert(states[2].tasks.len() == 0);
        if n > 2 {
            assert(is_step(states[2], events[2], states[3]));
        }
    }
}

/// A cache that is up to date stays as it is: to bring it up to date again changes nothing.
pub proof fn law_second_migration_changes_nothing(
    files: Map<Seq<Seq<u8>>, Entry>,
    useful: Seq<u8>,
    obsolete: Seq<u8>,
)
    ensures
        migrated(migrated(files, useful, obsolete), useful, obsolete) == migrated(
            files,
            useful,
            obsolete,
        ),
        !has_directory(migrated(files, useful, obsolete), seq![useful]),
        !has_directory(migrated(files, useful, obsolete), seq![obsolete]),
{
    let path = seq![obsolete];
    assert(path.subrange(0, 1) =~= path);
    assert(path.is_prefix_of(path));
}

/// Whether a task can turn `files` into `after` and tell `event`, even where the system refuses
/// what it is asked to do or stops halfway.
pub open spec fn may_happen(
    files: Map<Seq<Seq<u8>>, Entry>,
    task: MigrationTask<Seq<Seq<u8>>>,
    after: Map<Seq<Seq<u8>>, Entry>,
    event: EventView<Seq<Seq<u8>>>,
) -> bool {
    ||| is_done(files, task, after, event)
    ||| after == files && (event is Failed || event == EventView::<Seq<Seq<u8>>>::Done(false))
    ||| match task {
        MigrationTask::Enter { source, destination } => {
            &&& after == files || after == with_directory(files, destination)
            &&& match event {
                EventView::Entered { entries, complete } => !complete && forall|i: int|
                    0 <= i < entries.len() ==> is_child(source, (#[trigger] entries[i]).0),
                _ => event is Failed,
            }
        },
        MigrationTask::Copy { source, destination } => after == files.insert(
            destination,
            files[source],
        ) && event == EventView::<Seq<Seq<u8>>>::Done(false),
        _ => false,
    }
}

/// Whether these states, with the events between them, are a migration on its way, with whatever
/// failures.
pub open spec fn is_attempt(
    states: Seq<MigrationState>,
    events: Seq<EventView<Seq<Seq<u8>>>>,
    useful: Seq<u8>,
    obsolete: Seq<u8>,
) -> bool {
    &&& states.len() == events.len() + 1
    &&& states[0].tasks == first_tasks(seq![useful], Seq::empty(), seq![obsolete])
    &&& forall|i: int|
        0 <= i < events.len() ==> {
            &&& (#[trigger] states[i]).tasks.len() > 0
            &&& may_happen(states[i].files, states[i].tasks.last(), states[i + 1].files, events[i])
            &&& states[i + 1].tasks == next_tasks(states[i].tasks, events[i])
        }
}

/// Whether each task is about the directory that is merged, or removes the other; and nothing is
/// at the place to which a file is to be moved.
spec fn tasks_spare(state: MigrationState, useful: Seq<u8>, obsolete: Seq<u8>) -> bool {
    &&& forall|i: int|
        0 <= i < state.tasks.len() ==> match #[trigger] state.tasks[i] {
            MigrationTask::RemoveTree { path } => path == seq![obsolete],
            MigrationTask::Stop => true,
            task => is_in(useful, source_of(task)),
        }
    &&& forall|i: int|
        0 <= i < state.tasks.len() - 1 ==> !((#[trigger] state.tasks[i]) is Move)
            && !(state.tasks[i] is Copy)
    &&& state.tasks.len() > 0 ==> match state.tasks.last() {
        MigrationTask::Move { destination, .. } => !state.files.contains_key(destination),
        MigrationTask::Copy { destination, .. } => !state.files.contains_key(destination),
        _ => true,
    }
}

proof fn lemma_attempt_spares(
    before: MigrationState,
    event: EventView<Seq<Seq<u8>>>,
    after: MigrationState,
    useful: Seq<u8>,
    obsolete: Seq<u8>,
    path: Seq<Seq<u8>>,
)
    requires
        tasks_spare(before, useful, obsolete),
        before.tasks.len() > 0,
        may_happen(before.files, before.tasks.last(), after.files, event),
        after.tasks == next_tasks(before.tasks, event),
        !is_in(useful, path),
        !is_in(obsolete, path),
        before.files.contains_key(path),
    ensures
        tasks_spare(after, useful, obsolete),
        after.files.contains_key(path),
        after.files[path] == before.files[path],
{
    let k = before.tasks.len() - 1;
    let top = before.tasks[k];
    assert(before.tasks.last() == top);
    if let MigrationTask::RemoveTree { path: tree } = top {
        if tree.is_prefix_of(path) {
            assert(path.subrange(0, 1)[0] == path[0]);
        }
    }
    let tasks = after.tasks;
    assert forall|i: int| 0 <= i < tasks.len() implies match #[trigger] tasks[i] {
        MigrationTask::RemoveTree { path } => path == seq![obsolete],
        MigrationTask::Stop => true,
        task => is_in(useful, source_of(task)),
    } by {
        if i < k {
            assert(tasks[i] == before.tasks[i]);
        } else if let (
            MigrationTask::Enter { source, .. },
            EventView::Entered { entries, .. },
        ) = (top, event) {
            if i > k {
                assert(tasks[i] == inspections(entries)[i - k - 1]);
                let child = entries[entries.len() - 1 - (i - k - 1)].0;
                assert(is_child(source, child));
                assert(child.subrange(0, source.len() as int)[0] == child[0]);
            }
        }
    }
    assert forall|i: int| 0 <= i < tasks.len() - 1 implies !((#[trigger] tasks[i]) is Move)
        && !(tasks[i] is Copy) by {
        if i < k {
            assert(tasks[i] == before.tasks[i]);
        } else if let EventView::Entered { entries, .. } = event {
            if i > k {
                assert(tasks[i] == inspections(entries)[i - k - 1]);
            }
        }
    }
    if tasks.len() > 0 && tasks.len() <= k {
        assert(tasks.last() == before.tasks[tasks.len() - 1]);
    } else if tasks.len() > k + 1 {
        if let EventView::Entered { entries, .. } = event {
            assert(tasks.last() == inspections(entries)[tasks.len() - k - 2]);
        }
    }
}

proof fn lemma_attempts_spare(
    states: Seq<MigrationState>,
    events: Seq<EventView<Seq<Seq<u8>>>>,
    useful: Seq<u8>,
    obsolete: Seq<u8>,
    path: Seq<Seq<u8>>,
    i: int,
)
    requires
        is_attempt(states, events, useful, obsolete),
        !is_in(useful, path),
        !is_in(obsolete, path),
        states[0].files.contains_key(path),
        0 <= i < states.len(),
    ensures
        tasks_spare(states[i], useful, obsolete),
        states[i].files.contains_key(path),
        states[i].files[path] == states[0].files[path],
    decreases i,
{
    if i > 0 {
        lemma_attempts_spare(states, events, useful, obsolete, path, i - 1);
        assert(states[i - 1].tasks.len() > 0);
        lemma_attempt_spares(states[i - 1], events[i - 1], states[i], useful, obsolete, path);
    }
}

/// Whatever fails, and whatever the two directories hold, a migration neither removes nor replaces
/// anything of the cache outside of them.
pub proof fn law_migration_spares_the_cache(
    states: Seq<MigrationState>,
    events: Seq<EventView<Seq<Seq<u8>>>>,
    useful: Seq<u8>,
    obsolete: Seq<u8>,
    path: Seq<Seq<u8>>,
)
    requires
        is_attempt(states, events, useful, obsolete),
        !is_in(useful, path),
        !is_in(obsolete, path),
        states[0].files.contains_key(path),
    ensures
        states.last().files.contains_key(path),
        states.last().files[path] == states[0].files[path],
{
    lemma_attempts_spare(states, events, useful, obsolete, path, states.len() - 1);
}

/// What is at a path of a cache that was brought up to date, where both directories were there: in
/// neither of them is anything left; elsewhere there is what the cache had, or else what the useful
/// directory had at the same place.
pub proof fn law_what_an_updated_cache_has(
    files: Map<Seq<Seq<u8>>, Entry>,
    useful: Seq<u8>,
    obsolete: Seq<u8>,
    path: Seq<Seq<u8>>,
)
    requires
        files.contains_key(seq![useful]),
        files[seq![useful]] is Directory,
        files.contains_key(seq![obsolete]),
        files[seq![obsolete]] is Directory,
        useful != obsolete,
    ensures
        ({
            let after = migrated(files, useful, obsolete);
            let old_place = seq![useful] + path;
            &&& path.len() > 0 && (path[0] == useful || path[0] == obsolete)
                ==> !after.contains_key(path)
            &&& path.len() == 0 || (path[0] != useful && path[0] != obsolete) ==> {
                &&& after.contains_key(path) <==> files.contains_key(path) || files.contains_key(
                    old_place,
                )
                &&& files.contains_key(path) ==> after[path] == files[path]
                &&& !files.contains_key(path) && files.contains_key(old_place) ==> after[path]
                    == files[old_place]
            }
        }),
{
    let between = merged(files, useful);
    assert(!is_in(useful, seq![obsolete]));
    assert(between.contains_key(seq![obsolete]));
    if path.len() > 0 && path[0] == obsolete {
        assert(path.subrange(0, 1) =~= seq![obsolete]);
    }
    if seq![obsolete].is_prefix_of(path) {
        assert(path.subrange(0, 1)[0] == path[0]);
        assert(seq![obsolete][0] == obsolete);
    }
}

} // verus!
