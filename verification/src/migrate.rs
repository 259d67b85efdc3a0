//! Bringing caches that earlier versions have left up to date.

use vstd::prelude::*;

verus! {

/// The directory, within the cache, of an earlier version whose files are still of use.
pub const MIGRATED_DIRECTORY: &'static str = "stl-v2";

/// The directory, within the cache, of an earlier version whose files are of no use.
pub const OBSOLETE_DIRECTORY: &'static str = "stl-v1";

/// Something to be done.
pub enum MigrationTask<P> {
    /// If `source` is a directory, make the directory `destination` and list the entries of
    /// `source`.
    Enter { source: P, destination: P },
    /// Tell what `source` is, and whether there is something at `destination`.
    Inspect { source: P, destination: P },
    /// Remove the file `source`: the cache has its own at `destination`.
    Discard { source: P, destination: P },
    /// Move the file `source` to `destination`.
    Move { source: P, destination: P },
    /// Copy the file `source`, which could not be moved, to `destination`, and remove it.
    Copy { source: P, destination: P },
    /// Remove the directory `source` if it is empty.
    Close { source: P },
    /// Nothing: the entries of a directory could not all be listed.
    Stop,
    /// If `path` is a directory, remove it with all that it holds.
    RemoveTree { path: P },
}

/// What came of a task.
pub enum MigrationEvent<P> {
    /// What was entered is not a directory.
    NotEntered,
    /// The entries of the directory, each with its place in the cache, as far as they could be
    /// listed, and whether these are all.
    Entered { entries: Vec<(P, P)>, complete: bool },
    /// What was found.
    Found { is_directory: bool, destination_exists: bool },
    /// Whether it could be done.
    Done(bool),
    /// It could not be found out.
    Failed,
}

/// What came of a task, with the entries as a sequence.
pub enum EventView<P> {
    NotEntered,
    Entered { entries: Seq<(P, P)>, complete: bool },
    Found { is_directory: bool, destination_exists: bool },
    Done(bool),
    Failed,
}

impl<P> View for MigrationEvent<P> {
    type V = EventView<P>;

    open spec fn view(&self) -> EventView<P> {
        match self {
            MigrationEvent::NotEntered => EventView::NotEntered,
            MigrationEvent::Entered { entries, complete } => EventView::Entered {
                entries: entries@,
                complete: *complete,
            },
            MigrationEvent::Found { is_directory, destination_exists } => EventView::Found {
                is_directory: *is_directory,
                destination_exists: *destination_exists,
            },
            MigrationEvent::Done(done) => EventView::Done(*done),
            MigrationEvent::Failed => EventView::Failed,
        }
    }
}

/// The inspection of each of the entries, the first on top.
pub open spec fn inspections<P>(entries: Seq<(P, P)>) -> Seq<MigrationTask<P>> {
    Seq::new(
        entries.len(),
        |i: int|
            MigrationTask::Inspect {
                source: entries[entries.len() - 1 - i].0,
                destination: entries[entries.len() - 1 - i].1,
            },
    )
}

/// The tasks that are left when merging stops: the removal of a tree at the bottom.
pub open spec fn after_stop<P>(tasks: Seq<MigrationTask<P>>) -> Seq<MigrationTask<P>> {
    if tasks.len() > 1 && tasks[0] is RemoveTree {
        tasks.take(1)
    } else {
        Seq::empty()
    }
}

/// The tasks that are left, the next on top, once this came of the one on top.
pub open spec fn next_tasks<P>(tasks: Seq<MigrationTask<P>>, event: EventView<P>) -> Seq<
    MigrationTask<P>,
> {
    if tasks.len() == 0 {
        tasks
    } else {
        let rest = tasks.drop_last();
        match (tasks.last(), event) {
            (MigrationTask::Enter { .. }, EventView::NotEntered) => rest,
            (MigrationTask::Enter { source, .. }, EventView::Entered { entries, complete }) => {
                rest.push(
                    if complete {
                        MigrationTask::Close { source }
                    } else {
                        MigrationTask::Stop
                    },
                ) + inspections(entries)
            },
            (
                MigrationTask::Inspect { source, destination },
                EventView::Found { is_directory, destination_exists },
            ) => rest.push(
                if is_directory {
                    MigrationTask::Enter { source, destination }
                } else if destination_exists {
                    MigrationTask::Discard { source, destination }
                } else {
                    MigrationTask::Move { source, destination }
                },
            ),
            (MigrationTask::Discard { .. }, EventView::Done(_)) => rest,
            (MigrationTask::Move { source, destination }, EventView::Done(done)) => if done {
                rest
            } else {
                rest.push(MigrationTask::Copy { source, destination })
            },
            (MigrationTask::Copy { .. }, EventView::Done(true)) => rest,
            (MigrationTask::Close { .. }, EventView::Done(_)) => rest,
            (MigrationTask::RemoveTree { .. }, EventView::Done(_)) => rest,
            _ => after_stop(tasks),
        }
    }
}

/// The migration of a cache on its way: a stack of tasks.
pub struct CacheMigration<P> {
    tasks: Vec<MigrationTask<P>>,
}

impl<P> View for CacheMigration<P> {
    type V = Seq<MigrationTask<P>>;

    closed spec fn view(&self) -> Seq<MigrationTask<P>> {
        self.tasks@
    }
}

/// The tasks of a migration at its start: `useful` is merged into `cache`, then `obsolete` is
/// removed, whatever came of the merging.
pub open spec fn first_tasks<P>(useful: P, cache: P, obsolete: P) -> Seq<MigrationTask<P>> {
    seq![
        MigrationTask::RemoveTree { path: obsolete },
        MigrationTask::Enter { source: useful, destination: cache },
    ]
}

impl<P> CacheMigration<P> {
    /// Starts to merge the directory `useful` into `cache`, and to remove `obsolete`.
    pub fn new(useful: P, cache: P, obsolete: P) -> (migration: CacheMigration<P>)
        ensures
            migration@ == first_tasks(useful, cache, obsolete),
    {
        let mut tasks: Vec<MigrationTask<P>> = Vec::new();
        tasks.push(MigrationTask::RemoveTree { path: obsolete });
        tasks.push(MigrationTask::Enter { source: useful, destination: cache });
        CacheMigration { tasks }
    }

    /// The task to be done next, if there is one.
    pub fn current(&self) -> (task: Option<&MigrationTask<P>>)
        ensures
            match task {
                Some(task) => self@.len() > 0 && *task == self@.last(),
                None => self@.len() == 0,
            },
    {
        if self.tasks.len() == 0 {
            None
        } else {
            Some(&self.tasks[self.tasks.len() - 1])
        }
    }

    /// Takes note of what came of the current task.
    pub fn advance(&mut self, event: MigrationEvent<P>)
        ensures
            final(self)@ == next_tasks(old(self)@, event@),
    {
        let ghost all = self@;
        let task = match self.tasks.pop() {
            Some(task) => task,
            None => {
                return ;
            },
        };
        match (task, event) {
            (MigrationTask::Enter { .. }, MigrationEvent::NotEntered) => {},
            (
                MigrationTask::Enter { source, .. },
                MigrationEvent::Entered { entries, complete },
            ) => {
                self.tasks.push(
                    if complete {
                        MigrationTask::Close { source }
                    } else {
                        MigrationTask::Stop
                    },
                );
                self.inspect_all(entries);
            },
            (
                MigrationTask::Inspect { source, destination },
                MigrationEvent::Found { is_directory, destination_exists },
            ) => {
                self.tasks.push(
                    if is_directory {
                        MigrationTask::Enter { source, destination }
                    } else if destination_exists {
                        MigrationTask::Discard { source, destination }
                    } else {
                        MigrationTask::Move { source, destination }
                    },
                );
            },
            (MigrationTask::Discard { .. }, MigrationEvent::Done(_)) => {},
            (MigrationTask::Move { source, destination }, MigrationEvent::Done(done)) => {
                if !done {
                    self.tasks.push(MigrationTask::Copy { source, destination });
                }
            },
            (MigrationTask::Copy { .. }, MigrationEvent::Done(true)) => {},
            (MigrationTask::Close { .. }, MigrationEvent::Done(_)) => {},
            (MigrationTask::RemoveTree { .. }, MigrationEvent::Done(_)) => {},
            _ => {
                self.stop();
                proof {
                    assert(self@ =~= after_stop(all));
                }
            },
        }
    }

    /// Puts the inspection of each of the entries on the stack, the first on top.
    fn inspect_all(&mut self, entries: Vec<(P, P)>)
        ensures
            final(self)@ == old(self)@ + inspections(entries@),
    {
        let ghost before = self@;
        let ghost all = entries@;
        let mut entries = entries;
        while entries.len() > 0
            invariant
                entries@ == all.take(entries@.len() as int),
                entries@.len() <= all.len(),
                self@ == before + inspections(all).take(all.len() - entries@.len()),
            decreases entries@.len(),
        {
            let ghost count = entries@.len() as int;
            if let Some((source, destination)) = entries.pop() {
                self.tasks.push(MigrationTask::Inspect { source, destination });
                proof {
                    assert(inspections(all).take(all.len() - count + 1) =~= inspections(all).take(
                        all.len() - count,
                    ).push(inspections(all)[all.len() - count]));
                    assert(entries@ =~= all.take(count - 1));
                }
            }
        }
        proof {
            assert(inspections(all).take(all.len() as int) =~= inspections(all));
        }
    }

    /// Leaves, of the tasks below the one that failed, the removal of a tree at the bottom.
    fn stop(&mut self)
        ensures
            final(self)@ == (if old(self)@.len() > 0 && old(self)@[0] is RemoveTree {
                old(self)@.take(1)
            } else {
                Seq::empty()
            }),
    {
        let keep: usize = if self.tasks.len() == 0 {
            0
        } else {
            match &self.tasks[0] {
                MigrationTask::RemoveTree { .. } => 1,
                _ => 0,
            }
        };
        self.tasks.truncate(keep);
    }
}

/// The two directories that earlier versions have left.
pub proof fn law_directories_of_earlier_versions()
    ensures
        MIGRATED_DIRECTORY@ == "stl-v2"@,
        OBSOLETE_DIRECTORY@ == "stl-v1"@,
{
}

/// A migration begins with entering the useful directory; the removal of the obsolete one, and
/// nothing else, is left for the end.
pub proof fn law_migration_begins_with_the_useful_directory<P>(useful: P, cache: P, obsolete: P)
    ensures
        ({
            let tasks = first_tasks(useful, cache, obsolete);
            &&& tasks.len() == 2
            &&& tasks.last() == MigrationTask::Enter { source: useful, destination: cache }
            &&& tasks[0] == MigrationTask::RemoveTree { path: obsolete }
        }),
{
}

/// Each entry of a directory that was entered is inspected, in the order of the list, before
/// anything else is done; then the directory is closed, if all of its entries are known.
pub proof fn law_entries_are_inspected_in_order<P>(
    below: Seq<MigrationTask<P>>,
    source: P,
    destination: P,
    entries: Seq<(P, P)>,
    complete: bool,
    i: int,
)
    ensures
        ({
            let after = next_tasks(
                below.push(MigrationTask::Enter { source, destination }),
                EventView::Entered { entries, complete },
            );
            &&& after.len() == below.len() + 1 + entries.len()
            &&& 0 <= i < entries.len() ==> after[after.len() - 1 - i] == (MigrationTask::Inspect {
                source: entries[i].0,
                destination: entries[i].1,
            })
            &&& after[below.len() as int] == if complete {
                MigrationTask::Close { source }
            } else {
                MigrationTask::Stop
            }
            &&& after.take(below.len() as int) == below
        }),
{
    let tasks = below.push(MigrationTask::Enter { source, destination });
    assert(tasks.drop_last() =~= below);
    let after = next_tasks(tasks, EventView::Entered { entries, complete });
    assert(after.take(below.len() as int) =~= below);
}

/// A directory that was found is entered, a file of which the cache has its own is discarded, and
/// every other file is moved; a file that cannot be moved is copied.
pub proof fn law_entry_is_dealt_with<P>(below: Seq<MigrationTask<P>>, source: P, destination: P)
    ensures
        ({
            let inspected = below.push(MigrationTask::Inspect { source, destination });
            let moved = below.push(MigrationTask::Move { source, destination });
            let found = |is_directory: bool, destination_exists: bool|
                next_tasks(
                    inspected,
                    EventView::Found { is_directory, destination_exists },
                );
            &&& forall|there: bool| #[trigger]
                found(true, there) == below.push(MigrationTask::Enter { source, destination })
            &&& found(false, true) == below.push(MigrationTask::Discard { source, destination })
            &&& found(false, false) == below.push(MigrationTask::Move { source, destination })
            &&& next_tasks(moved, EventView::Done(true)) == below
            &&& next_tasks(moved, EventView::Done(false)) == below.push(
                MigrationTask::Copy { source, destination },
            )
        }),
{
    assert(below.push(MigrationTask::Inspect { source, destination }).drop_last() =~= below);
    assert(below.push(MigrationTask::Move { source, destination }).drop_last() =~= below);
}

/// What is done, or need not be done, leads to the task below it: whatever came of discarding a
/// file, of closing a directory or of removing a tree, once a file was copied, and where there is
/// no directory to enter.
pub proof fn law_migration_goes_on<P>(
    below: Seq<MigrationTask<P>>,
    source: P,
    destination: P,
    done: bool,
)
    ensures
        next_tasks(
            below.push(MigrationTask::Enter { source, destination }),
            EventView::NotEntered,
        ) == below,
        next_tasks(
            below.push(MigrationTask::Discard { source, destination }),
            EventView::Done(done),
        ) == below,
        next_tasks(
            below.push(MigrationTask::Copy { source, destination }),
            EventView::Done(true),
        ) == below,
        next_tasks(below.push(MigrationTask::Close { source }), EventView::Done(done)) == below,
        next_tasks(
            below.push(MigrationTask::RemoveTree { path: source }),
            EventView::Done(done),
        ) == below,
        next_tasks(Seq::<MigrationTask<P>>::empty(), EventView::Done(done)).len() == 0,
{
    assert(below.push(MigrationTask::Enter { source, destination }).drop_last() =~= below);
    assert(below.push(MigrationTask::Discard { source, destination }).drop_last() =~= below);
    assert(below.push(MigrationTask::Copy { source, destination }).drop_last() =~= below);
    assert(below.push(MigrationTask::Close { source }).drop_last() =~= below);
    assert(below.push(MigrationTask::RemoveTree { path: source }).drop_last() =~= below);
}

/// Merging stops where it cannot go on: where an entry can be neither entered nor inspected, where a
/// file can be neither moved nor copied, and where a directory could not be listed to its end. Of
/// all that is left to be done, the removal of the obsolete directory alone is still done.
pub proof fn law_merging_stops_but_the_obsolete_goes<P>(
    between: Seq<MigrationTask<P>>,
    obsolete: P,
    source: P,
    destination: P,
    event: EventView<P>,
)
    ensures
        ({
            let removal = MigrationTask::RemoveTree { path: obsolete };
            let below = seq![removal] + between;
            let left = seq![removal];
            &&& next_tasks(
                below.push(MigrationTask::Enter { source, destination }),
                EventView::Failed,
            ) == left
            &&& next_tasks(
                below.push(MigrationTask::Inspect { source, destination }),
                EventView::Failed,
            ) == left
            &&& next_tasks(
                below.push(MigrationTask::Copy { source, destination }),
                EventView::Done(false),
            ) == left
            &&& next_tasks(below.push(MigrationTask::Stop), event) == left
        }),
{
    let removal = MigrationTask::RemoveTree { path: obsolete };
    let below = seq![removal] + between;
    assert(below.push(MigrationTask::Enter { source, destination }).take(1) =~= seq![removal]);
    assert(below.push(MigrationTask::Inspect { source, destination }).take(1) =~= seq![removal]);
    assert(below.push(MigrationTask::Copy { source, destination }).take(1) =~= seq![removal]);
    assert(below.push(MigrationTask::Stop).take(1) =~= seq![removal]);
}

/// Whether this is something that can come of the task.
pub open spec fn is_answer<P>(task: MigrationTask<P>, event: EventView<P>) -> bool {
    match task {
        MigrationTask::Enter { .. } => event is NotEntered || event is Entered,
        MigrationTask::Inspect { .. } => event is Found,
        MigrationTask::Copy { .. } => event == EventView::<P>::Done(true),
        MigrationTask::Stop => false,
        _ => event is Done,
    }
}

/// Whatever else comes of a task ends the merging: of the tasks below it, only the removal of a
/// tree at the bottom is left, and nothing if there is none.
pub proof fn law_anything_else_ends_the_merging<P>(
    below: Seq<MigrationTask<P>>,
    task: MigrationTask<P>,
    event: EventView<P>,
)
    requires
        !is_answer(task, event),
    ensures
        ({
            let left = next_tasks(below.push(task), event);
            if below.len() > 0 && below[0] is RemoveTree {
                left == seq![below[0]]
            } else {
                left.len() == 0
            }
        }),
{
    let tasks = below.push(task);
    if below.len() > 0 {
        assert(tasks.take(1) =~= seq![below[0]]);
    }
}

} // verus!
