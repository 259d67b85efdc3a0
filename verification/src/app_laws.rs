//! What holds of the user interface over several events.

use crate::app_state::{
    commit_place, elapsed, first_to_prefetch, is_scad_name, key_text, neighbours, place_views,
    revision_key, AppState, AppView, RenderStep, StepView, IDLE_DELAY, TIMELINE_DELAY, WATCH_DELAY,
};
use crate::git::{on_branch, WalkedCommit};
use crate::mesh::Mesh;
use crate::paths::{path_bytes, path_text};
use crate::revision::{HistoryView, RevisionView};
use crate::service::RenderOutcome;
use crate::text::decimal_text;
use std::sync::Arc;
use vstd::prelude::*;

verus! {

/// A model is made only while no other is, and for the selection only.
pub proof fn law_one_model_at_a_time(state: AppView, now: u64)
    ensures
        state.asked(now).1 matches StepView::Start { revision, .. } ==> !state.is_rendering
            && state.asked(now).0.is_rendering && revision == state.selected(),
        state.is_rendering ==> !(state.asked(now).1 is Start),
{
}

/// However often the model is asked for while another is made, it is made once: asking again
/// changes nothing.
pub proof fn law_requests_coalesce(state: AppView, now: u64, later: u64)
    requires
        state.is_rendering,
    ensures
        state.asked(now).0.asked(later) == state.asked(now),
{
}

/// A request that came while another model was made is answered as soon as that one is there,
/// with the model of what is selected by then.
pub proof fn law_pending_request_is_answered(state: AppView, outcome: RenderOutcome, now: u64)
    requires
        state.is_rendering,
        state.render_pending,
        state.source_path is Some,
    ensures
        ({
            let taken = state.taken_in(outcome);
            let (after, step) = state.received(outcome, now);
            &&& taken.selected() == state.selected()
            &&& !after.render_pending
            &&& if taken.selected_is_remembered() {
                step == StepView::Show(taken.mesh_cache[taken.selected_key()->0])
                    && !after.is_rendering
            } else {
                step == (StepView::Start {
                    revision: state.selected(),
                    cache_key: state.selected_key(),
                }) && after.is_rendering
            }
        }),
{
}

/// The state once places on the timeline were selected one after the other, each with its moment.
pub open spec fn dragged(state: AppView, places: Seq<(int, u64)>) -> AppView
    decreases places.len(),
{
    if places.len() == 0 {
        state
    } else {
        dragged(state, places.drop_last()).moved(places.last().0, places.last().1)
    }
}

/// Of places that are selected one after the other, only the last counts: no model is asked for
/// on the way, the timeline counts as resting from the last change on, and once it has rested the
/// model of the last place is asked for.
pub proof fn law_only_the_last_selection_counts(
    state: AppView,
    places: Seq<(int, u64)>,
    now: u64,
)
    requires
        state.history is Some,
        places.len() > 0,
    ensures
        ({
            let before = dragged(state, places.drop_last());
            let after = dragged(state, places);
            let (last, last_at) = places.last();
            let history = HistoryView { position: last, ..state.history->0 };
            &&& after == (AppView {
                history: Some(history),
                timeline_changed_at: after.timeline_changed_at,
                idle_since: after.idle_since,
                status: after.status,
                ..state
            })
            &&& before.history->0.position != last ==> after.timeline_changed_at == Some(last_at)
            &&& state.source_path is Some && !state.is_rendering ==> after.rested(now).1 == if after.selected_is_remembered() {
                StepView::Show(state.mesh_cache[after.selected_key()->0])
            } else {
                StepView::Start { revision: history.selected(), cache_key: after.selected_key() }
            }
        }),
    decreases places.len(),
{
    if places.len() > 1 {
        law_only_the_last_selection_counts(state, places.drop_last(), now);
    }
}

/// The model of a commit is remembered as soon as it is received.
pub proof fn law_received_commit_is_remembered(
    state: AppView,
    mesh: Arc<Mesh>,
    source_modified: Option<i128>,
    key: String,
    from_disk: bool,
    now: u64,
)
    ensures
        ({
            let outcome = RenderOutcome::Finished {
                mesh,
                source_modified,
                cache_key: Some(key),
                loaded_from_disk_cache: from_disk,
            };
            let after = state.received(outcome, now).0;
            after.mesh_cache.contains_key(key@) && after.mesh_cache[key@] == mesh
        }),
{
}

/// A model that is remembered stays so, whatever happens, until another file is opened: only the
/// same commit, received again, takes its place.
pub proof fn law_remembered_models_stay(
    state: AppView,
    key: Seq<char>,
    outcome: RenderOutcome,
    position: int,
    history: HistoryView,
    modified: Option<i128>,
    now: u64,
)
    requires
        state.mesh_cache.contains_key(key),
    ensures
        state.asked(now).0.mesh_cache == state.mesh_cache,
        state.moved(position, now).mesh_cache == state.mesh_cache,
        state.reselected(history, now).mesh_cache == state.mesh_cache,
        state.rested(now).0.mesh_cache == state.mesh_cache,
        state.watched(modified, now).0.mesh_cache == state.mesh_cache,
        state.received(outcome, now).0.mesh_cache.contains_key(key),
        !(outcome matches RenderOutcome::Finished { cache_key: Some(other), .. } && other@ == key)
            ==> state.received(outcome, now).0.mesh_cache[key] == state.mesh_cache[key],
{
}

/// A commit whose model is remembered is shown at once when it is selected again, without making
/// its model anew.
pub proof fn law_revisited_commit_is_shown_at_once(
    state: AppView,
    position: int,
    moved_at: u64,
    now: u64,
)
    requires
        state.history is Some,
        state.source_path is Some,
        !state.is_rendering,
        0 <= position < state.history->0.commits.len(),
        state.mesh_cache.contains_key(revision_key(state.history->0.revision(position))),
    ensures
        ({
            let mesh = state.mesh_cache[revision_key(state.history->0.revision(position))];
            let (after, step) = state.moved(position, moved_at).rested(now);
            step == StepView::Show(mesh) && after.mesh == Some(mesh) && !after.is_rendering
        }),
{
}

/// Once a model was received and no other has to be made, models are made ahead of their selection
/// as soon as half a second has passed without input, unless the timeline was moved or one is
/// being made ahead already. That holds too where a request that had to wait was answered with a
/// model that is remembered: the half second then counts from the input before.
pub proof fn law_idle_program_makes_models_ahead(
    state: AppView,
    outcome: RenderOutcome,
    now: u64,
    later: u64,
)
    requires
        state.source_path is Some,
        state.timeline_changed_at is None,
        !state.is_prefetching,
    ensures
        ({
            let (after, step) = state.received(outcome, now);
            &&& !(step is Start) ==> (after.is_prefetch_due(later) <==> elapsed(
                after.idle_since,
                later,
            ) >= IDLE_DELAY)
            &&& !state.render_pending ==> step is Nothing && after.idle_since == now
            &&& state.render_pending && !(step is Start) ==> step is Show && after.idle_since
                == state.idle_since
        }),
{
}

/// Within the history of one file, the models of two commits are remembered by the same key only
/// if they are the same commit.
pub proof fn law_keys_tell_commits_apart(history: HistoryView, a: int, b: int)
    requires
        0 <= a < history.commits.len(),
        0 <= b < history.commits.len(),
        revision_key(history.revision(a)) == revision_key(history.revision(b)),
    ensures
        history.commits[a].hash == history.commits[b].hash,
{
    let start = path_text(history.root) + ":"@ + path_text(history.relative_path) + ":"@;
    let n = start.len() as int;
    let ka = revision_key(history.revision(a));
    let kb = revision_key(history.revision(b));
    assert(ka.skip(n) =~= history.commits[a].hash);
    assert(kb.skip(n) =~= history.commits[b].hash);
}

/// Opening another file forgets the models of the one before: what is asked for is made.
pub proof fn law_opening_a_file_forgets(
    state: AppView,
    path: Seq<u8>,
    history: Option<HistoryView>,
    now: u64,
)
    requires
        !state.is_rendering,
    ensures
        state.opened(path, history, now).asked(now).1 is Start,
        state.opened(path, history, now).asked(now).0.mesh_cache == Map::<
            Seq<char>,
            Arc<Mesh>,
        >::empty(),
{
}

/// The commits whose models are made ahead of their selection are those at most two places from
/// the selected one, without that one.
pub proof fn law_neighbours_are_near(history: HistoryView, index: int)
    ensures
        neighbours(history).contains(index) <==> (0 <= index < history.commits.len() && (index
            == history.position - 1 || index == history.position + 1 || index == history.position
            - 2 || index == history.position + 2)),
{
    let count = history.commits.len();
    let p = history.position;
    let a = commit_place(p - 1, count);
    let b = commit_place(p + 1, count);
    let c = commit_place(p - 2, count);
    let d = commit_place(p + 2, count);
    let all = neighbours(history);
    if 0 <= index < count {
        if index == p - 1 {
            assert(all[0] == index);
        } else if index == p + 1 {
            assert(all[a.len() as int] == index);
        } else if index == p - 2 {
            assert(all[(a.len() + b.len()) as int] == index);
        } else if index == p + 2 {
            assert(all[(a.len() + b.len() + c.len()) as int] == index);
        }
    }
}

/// Nearer commits come first.
pub proof fn law_nearest_neighbours_first(history: HistoryView, i: int, j: int)
    requires
        0 <= i < j < neighbours(history).len(),
    ensures
        ({
            let p = history.position;
            let near = neighbours(history)[i];
            let far = neighbours(history)[j];
            (if near < p { p - near } else { near - p }) <= (if far < p { p - far } else { far - p })
        }),
{
}

/// A commit whose model was tried ahead of its selection is not chosen for that again.
pub proof fn law_no_commit_is_prefetched_twice(
    history: HistoryView,
    places: Seq<int>,
    cached: Seq<bool>,
    attempted: Set<Seq<char>>,
)
    requires
        cached.len() == places.len(),
    ensures
        first_to_prefetch(history, places, cached, attempted) matches Some(place)
            ==> places.contains(place) && !attempted.contains(
            revision_key(history.revision(place)),
        ),
    decreases places.len(),
{
    if places.len() > 0 {
        if !cached[0] && !attempted.contains(revision_key(history.revision(places[0]))) {
            assert(places.contains(places[0]));
        } else {
            law_no_commit_is_prefetched_twice(history, places.skip(1), cached.skip(1), attempted);
            if let Some(place) = first_to_prefetch(
                history,
                places.skip(1),
                cached.skip(1),
                attempted,
            ) {
                let k = places.skip(1).index_of(place);
                assert(places[k + 1] == place);
            }
        }
    }
}

/// As long as there is a commit among the candidates whose model has not been tried and is not in
/// the disk cache, one is chosen.
pub proof fn law_prefetch_finds_what_is_missing(
    history: HistoryView,
    places: Seq<int>,
    cached: Seq<bool>,
    attempted: Set<Seq<char>>,
    i: int,
)
    requires
        cached.len() == places.len(),
        0 <= i < places.len(),
        !cached[i],
        !attempted.contains(revision_key(history.revision(places[i]))),
    ensures
        first_to_prefetch(history, places, cached, attempted) is Some,
    decreases places.len(),
{
    if i > 0 {
        law_prefetch_finds_what_is_missing(
            history,
            places.skip(1),
            cached.skip(1),
            attempted,
            i - 1,
        );
    }
}

/// Whatever the event, a history keeps a selection.
pub proof fn law_selection_stays_valid(
    state: AppView,
    now: u64,
    outcome: RenderOutcome,
    position: int,
    branch: int,
    walked: Seq<WalkedCommit>,
)
    requires
        state.wf(),
        state.history matches Some(history) ==> 0 <= position <= history.commits.len() && 0
            <= branch < history.branches.len(),
    ensures
        state.asked(now).0.wf(),
        state.received(outcome, now).0.wf(),
        state.moved(position, now).wf(),
        state.rested(now).0.wf(),
        state.history matches Some(history) ==> state.reselected(
            on_branch(history, branch, walked),
            now,
        ).wf(),
{
}

/// While models are reloaded, a model file that was saved is made anew; otherwise, or while a
/// commit is shown, it is not looked at.
pub proof fn law_saved_file_is_made_anew(state: AppView, modified: i128, now: u64)
    requires
        state.source_path is Some,
        !state.is_rendering,
        state.wf(),
    ensures
        state.is_watch_due(now) && Some(modified) != state.last_source_modified ==> state.watched(
            Some(modified),
            now,
        ).1 == (StepView::Start { revision: None, cache_key: None }),
        !state.auto_reload || !state.shows_worktree() ==> !state.is_watch_due(now),
        Some(modified) == state.last_source_modified ==> state.watched(Some(modified), now) == (
            state,
            StepView::Nothing,
        ),
{
}

/// Without a file, asking for a model changes nothing and asks for nothing.
pub proof fn law_nothing_is_made_without_a_file(state: AppView, now: u64)
    requires
        state.source_path is None,
    ensures
        state.asked(now).0 == state,
        state.asked(now).1 is Nothing,
{
}

/// While a model is made, a request does nothing but wait.
pub proof fn law_request_waits_for_the_model_before(state: AppView, now: u64)
    requires
        state.source_path is Some,
        state.is_rendering,
    ensures
        ({
            let (after, step) = state.asked(now);
            &&& step is Nothing
            &&& after.render_pending
            &&& (AppView { render_pending: state.render_pending, ..after }) == state
        }),
{
}

/// The model of a selected commit that is not remembered is made: of that commit, in that
/// repository, of that file. It is to be remembered by the two paths and the hash. What is shown
/// and remembered stays as it is meanwhile.
pub proof fn law_selected_commit_is_made(state: AppView, history: HistoryView, now: u64)
    requires
        state.source_path is Some,
        !state.is_rendering,
        state.history == Some(history),
        0 <= history.position < history.commits.len(),
        !state.mesh_cache.contains_key(
            path_text(history.root) + ":"@ + path_text(history.relative_path) + ":"@
                + history.commits[history.position].hash,
        ),
    ensures
        ({
            let (after, step) = state.asked(now);
            let commit = history.commits[history.position];
            &&& step == (StepView::Start {
                revision: Some(
                    RevisionView {
                        root: history.root,
                        relative_path: history.relative_path,
                        commit,
                    },
                ),
                cache_key: Some(
                    path_text(history.root) + ":"@ + path_text(history.relative_path) + ":"@
                        + commit.hash,
                ),
            })
            &&& after.is_rendering
            &&& !after.render_pending
            &&& after.idle_since == now
            &&& after.status == commit.short_hash + " ("@ + commit.date + ") を生成中…"@
            &&& (AppView {
                is_rendering: state.is_rendering,
                render_pending: state.render_pending,
                idle_since: state.idle_since,
                status: state.status,
                ..after
            }) == state
        }),
{
}

/// The model of the work tree is always made, never taken from those that are remembered, and is
/// not to be remembered.
pub proof fn law_worktree_is_made(state: AppView, now: u64)
    requires
        state.source_path is Some,
        !state.is_rendering,
        state.history matches Some(history) ==> history.position >= history.commits.len(),
    ensures
        ({
            let (after, step) = state.asked(now);
            &&& step == (StepView::Start { revision: None, cache_key: None })
            &&& after.is_rendering
            &&& !after.render_pending
            &&& after.idle_since == now
            &&& after.status == "OpenSCADでモデルを生成中…"@
            &&& (AppView {
                is_rendering: state.is_rendering,
                render_pending: state.render_pending,
                idle_since: state.idle_since,
                status: state.status,
                ..after
            }) == state
        }),
{
}

/// The model of a selected commit that is remembered is shown, that very model, and nothing is
/// made; nothing but what is shown changes.
pub proof fn law_remembered_commit_is_shown(state: AppView, history: HistoryView, now: u64)
    requires
        state.source_path is Some,
        !state.is_rendering,
        state.history == Some(history),
        0 <= history.position < history.commits.len(),
        state.mesh_cache.contains_key(
            path_text(history.root) + ":"@ + path_text(history.relative_path) + ":"@
                + history.commits[history.position].hash,
        ),
    ensures
        ({
            let (after, step) = state.asked(now);
            let mesh = state.mesh_cache[path_text(history.root) + ":"@ + path_text(
                history.relative_path,
            ) + ":"@ + history.commits[history.position].hash];
            &&& step == StepView::Show(mesh)
            &&& after.mesh == Some(mesh)
            &&& !after.is_rendering
            &&& !after.render_pending
            &&& after.last_source_modified is None
            &&& after.status == decimal_text(mesh.triangles@.len()) + " 面をキャッシュから表示中"@
            &&& (AppView {
                mesh: state.mesh,
                render_pending: state.render_pending,
                last_source_modified: state.last_source_modified,
                status: state.status,
                ..after
            }) == state
        }),
{
}

/// A model that was made, or that the disk cache had, is the one that is shown from then on, until
/// one that a waiting request asks for is there. The status tells its faces and where it came from;
/// for the work tree, when the file was written is kept; nothing else changes but what is
/// remembered.
pub proof fn law_received_model_is_shown(
    state: AppView,
    mesh: Arc<Mesh>,
    source_modified: Option<i128>,
    cache_key: Option<String>,
    from_disk: bool,
    now: u64,
)
    ensures
        ({
            let outcome = RenderOutcome::Finished {
                mesh,
                source_modified,
                cache_key,
                loaded_from_disk_cache: from_disk,
            };
            let (after, step) = state.received(outcome, now);
            &&& !state.render_pending ==> {
                &&& step is Nothing
                &&& after.mesh == Some(mesh)
                &&& !after.is_rendering
                &&& after.idle_since == now
                &&& after.last_source_modified == source_modified
                &&& after.status == decimal_text(mesh.triangles@.len()) + (if from_disk {
                    " 面をディスクキャッシュから表示中"@
                } else {
                    " 面を表示中"@
                })
            }
            &&& step is Start ==> after.mesh == Some(mesh) && after.last_source_modified
                == source_modified && after.is_rendering
            &&& step matches StepView::Show(other) ==> after.mesh == Some(other)
            &&& (AppView {
                mesh: state.mesh,
                is_rendering: state.is_rendering,
                render_pending: state.render_pending,
                status: state.status,
                last_source_modified: state.last_source_modified,
                mesh_cache: state.mesh_cache,
                idle_since: state.idle_since,
                ..after
            }) == state
        }),
{
}

/// A model that is received is remembered by its key, and by that alone; every other model that is
/// remembered stays.
pub proof fn law_received_model_is_remembered_by_its_key(
    state: AppView,
    mesh: Arc<Mesh>,
    source_modified: Option<i128>,
    cache_key: Option<String>,
    from_disk: bool,
    now: u64,
    key: Seq<char>,
)
    ensures
        ({
            let outcome = RenderOutcome::Finished {
                mesh,
                source_modified,
                cache_key,
                loaded_from_disk_cache: from_disk,
            };
            let after = state.received(outcome, now).0;
            if cache_key matches Some(own) && own@ == key {
                after.mesh_cache.contains_key(key) && after.mesh_cache[key] == mesh
            } else {
                &&& after.mesh_cache.contains_key(key) <==> state.mesh_cache.contains_key(key)
                &&& state.mesh_cache.contains_key(key) ==> after.mesh_cache[key]
                    == state.mesh_cache[key]
            }
        }),
{
}

/// Where no model could be made, the status tells why, and what was shown and remembered stays.
pub proof fn law_failure_is_told(state: AppView, message: String, now: u64)
    ensures
        ({
            let (after, step) = state.received(RenderOutcome::Failed(message), now);
            &&& after.mesh_cache == state.mesh_cache
            &&& step is Start ==> after.mesh == state.mesh && after.last_source_modified
                == state.last_source_modified
            &&& !state.render_pending ==> {
                &&& step is Nothing
                &&& after.status == message@
                &&& !after.is_rendering
                &&& after.idle_since == now
                &&& (AppView {
                    status: state.status,
                    is_rendering: state.is_rendering,
                    idle_since: state.idle_since,
                    ..after
                }) == state
            }
        }),
{
}

/// A request that waited is answered just as if it were made when the model before is there.
pub proof fn law_waiting_request_is_made_then(state: AppView, outcome: RenderOutcome, now: u64)
    requires
        state.render_pending,
    ensures
        ({
            let idle = AppView { render_pending: false, ..state }.received(outcome, now).0;
            let ready = AppView {
                render_pending: true,
                idle_since: state.idle_since,
                ..idle
            };
            state.received(outcome, now) == ready.asked(now)
        }),
{
}

/// After a file is opened, whatever was open before, it is the model file, its history is the one
/// that came with it, and nothing is remembered or counts as tried. Its model is made, of what its
/// history selects, or waits for the one that is being made. What is shown stays until then.
pub proof fn law_opened_file_is_the_model_file(
    state: AppView,
    path: Seq<u8>,
    history: Option<HistoryView>,
    now: u64,
)
    ensures
        ({
            let (after, step) = state.opened(path, history, now).asked(now);
            &&& after.source_path == Some(path)
            &&& after.history == history
            &&& forall|key: Seq<char>| !(#[trigger] after.mesh_cache.contains_key(key))
            &&& forall|key: Seq<char>| !(#[trigger] after.prefetch_attempted.contains(key))
            &&& after.last_source_modified is None
            &&& after.idle_since == now
            &&& after.is_rendering
            &&& if state.is_rendering {
                step is Nothing && after.render_pending && after.status == state.status
            } else {
                &&& !after.render_pending
                &&& if history matches Some(h) && 0 <= h.position < h.commits.len() {
                    let h = history->0;
                    let commit = h.commits[h.position];
                    &&& step matches StepView::Start { revision: Some(revision), cache_key: Some(key) }
                        && revision.commit == commit && revision.root == h.root
                        && revision.relative_path == h.relative_path && key == path_text(h.root)
                        + ":"@ + path_text(h.relative_path) + ":"@ + commit.hash
                    &&& after.status == commit.short_hash + " ("@ + commit.date + ") を生成中…"@
                } else {
                    &&& step == (StepView::Start { revision: None, cache_key: None })
                    &&& after.status == "OpenSCADでモデルを生成中…"@
                }
            }
            &&& (AppView {
                source_path: state.source_path,
                history: state.history,
                mesh_cache: state.mesh_cache,
                prefetch_attempted: state.prefetch_attempted,
                last_source_modified: state.last_source_modified,
                idle_since: state.idle_since,
                is_rendering: state.is_rendering,
                render_pending: state.render_pending,
                status: state.status,
                ..after
            }) == state
        }),
{
}

/// The file is looked at whenever half a second or more has passed since the last look, while it
/// is to be reloaded, the work tree is shown and no model is being made; and at no other moment.
pub proof fn law_file_is_looked_at_every_half_second(state: AppView, now: u64)
    ensures
        state.is_watch_due(now) <==> {
            &&& state.auto_reload
            &&& !state.is_rendering
            &&& state.history matches Some(history) ==> history.position == history.commits.len()
            &&& now >= state.last_watch_check + 500_000_000
        },
{
}

/// A look at the file makes its model anew if, and only if, it can be told when the file was
/// written, and that is not when the shown model's file was.
pub proof fn law_look_makes_what_was_saved(state: AppView, modified: Option<i128>, now: u64)
    ensures
        ({
            let same = modified is None || modified == state.last_source_modified;
            &&& same ==> state.watched(modified, now).0 == state && state.watched(
                modified,
                now,
            ).1 is Nothing
            &&& !same && state.source_path is Some && !state.is_rendering && (
            state.history matches Some(history) ==> history.position >= history.commits.len())
                ==> state.watched(modified, now).1 == (StepView::Start {
                revision: None,
                cache_key: None,
            }) && state.watched(modified, now).0.is_rendering
            &&& !same ==> state.watched(modified, now) == state.asked(now)
        }),
{
}

/// Selecting another place on the timeline changes the place and nothing else of the history,
/// starts the time of rest, and asks for nothing; selecting the same place changes nothing.
pub proof fn law_selecting_a_place(state: AppView, history: HistoryView, position: int, now: u64)
    requires
        state.history == Some(history),
    ensures
        ({
            let after = state.moved(position, now);
            if position == history.position {
                after == state
            } else {
                &&& after.history matches Some(h) && h.position == position && h.commits
                    == history.commits && h.branches == history.branches && h.selected_branch
                    == history.selected_branch && h.root == history.root && h.relative_path
                    == history.relative_path
                &&& after.timeline_changed_at == Some(now)
                &&& after.idle_since == now
                &&& after.status == "コミットを選択中…"@
                &&& (AppView {
                    history: state.history,
                    timeline_changed_at: state.timeline_changed_at,
                    idle_since: state.idle_since,
                    status: state.status,
                    ..after
                }) == state
            }
        }),
{
}

/// A history that is selected anew takes the place of the one before, starts the time of rest, and
/// changes nothing else.
pub proof fn law_selecting_a_history(state: AppView, history: HistoryView, now: u64)
    ensures
        ({
            let after = state.reselected(history, now);
            &&& after.history == Some(history)
            &&& after.timeline_changed_at == Some(now)
            &&& after.idle_since == now
            &&& after.status == "コミットを選択中…"@
            &&& (AppView {
                history: state.history,
                timeline_changed_at: state.timeline_changed_at,
                idle_since: state.idle_since,
                status: state.status,
                ..after
            }) == state
        }),
{
}

/// Once the timeline has rested, the model of the selection is asked for as at any other time, and
/// the rest is over.
pub proof fn law_rested_timeline_asks(state: AppView, now: u64)
    ensures
        ({
            let (after, step) = state.rested(now);
            let (asked, other) = state.asked(now);
            &&& after.timeline_changed_at is None
            &&& step == other
            &&& (AppView { timeline_changed_at: state.timeline_changed_at, ..after }) == asked
        }),
{
}

/// Models are made ahead of their selection at every moment that lies half a second or more after
/// the last input or model, while nothing is made, waits or is being selected; and at no other.
pub proof fn law_models_are_made_ahead_when_idle(state: AppView, now: u64)
    ensures
        state.is_busy() <==> {
            ||| state.is_rendering
            ||| state.render_pending
            ||| state.is_prefetching
            ||| state.timeline_changed_at is Some
        },
        state.is_prefetch_due(now) <==> {
            &&& !state.is_rendering
            &&& !state.render_pending
            &&& !state.is_prefetching
            &&& state.timeline_changed_at is None
            &&& now >= state.idle_since + 500_000_000
        },
{
}

/// How long the program waits, in nanoseconds, and how that is counted.
pub proof fn law_delays(moment: u64, now: u64)
    ensures
        TIMELINE_DELAY == 160 * 1_000_000,
        IDLE_DELAY == 500 * 1_000_000,
        WATCH_DELAY == 500 * 1_000_000,
        now >= moment ==> moment + elapsed(moment, now) == now,
        now < moment ==> elapsed(moment, now) == 0,
{
}

/// Of two neighbours that are equally near, the older comes first, and none comes twice.
pub proof fn law_older_neighbour_first(history: HistoryView, i: int, j: int)
    requires
        0 <= i < j < neighbours(history).len(),
    ensures
        neighbours(history)[i] != neighbours(history)[j],
        neighbours(history)[i] - history.position == history.position - neighbours(history)[j]
            ==> neighbours(history)[i] < neighbours(history)[j],
{
}

/// Of the candidates, the first is chosen whose model the disk cache does not hold and that was not
/// tried before; none if there is no such candidate.
pub proof fn law_first_missing_candidate_is_chosen(
    history: HistoryView,
    places: Seq<int>,
    cached: Seq<bool>,
    attempted: Set<Seq<char>>,
)
    requires
        cached.len() == places.len(),
    ensures
        match first_to_prefetch(history, places, cached, attempted) {
            Some(place) => exists|i: int| #[trigger]
                is_first_missing(history, places, cached, attempted, i) && places[i] == place,
            None => forall|i: int|
                0 <= i < places.len() ==> (#[trigger] cached[i]) || attempted.contains(
                    revision_key(history.revision(places[i])),
                ),
        },
    decreases places.len(),
{
    if places.len() > 0 {
        let rest = places.skip(1);
        let rest_cached = cached.skip(1);
        if !cached[0] && !attempted.contains(revision_key(history.revision(places[0]))) {
            assert(is_first_missing(history, places, cached, attempted, 0));
        } else {
            law_first_missing_candidate_is_chosen(history, rest, rest_cached, attempted);
            match first_to_prefetch(history, rest, rest_cached, attempted) {
                Some(place) => {
                    let k = choose|k: int| #[trigger]
                        is_first_missing(history, rest, rest_cached, attempted, k) && rest[k]
                            == place;
                    assert forall|j: int| 0 <= j < k + 1 implies (#[trigger] cached[j])
                        || attempted.contains(revision_key(history.revision(places[j]))) by {
                        if j > 0 {
                            assert(rest_cached[j - 1] == cached[j]);
                            assert(rest[j - 1] == places[j]);
                        }
                    }
                    assert(is_first_missing(history, places, cached, attempted, k + 1));
                },
                None => {
                    assert forall|i: int| 0 <= i < places.len() implies (#[trigger] cached[i])
                        || attempted.contains(revision_key(history.revision(places[i]))) by {
                        if i > 0 {
                            assert(rest_cached[i - 1] == cached[i]);
                            assert(rest[i - 1] == places[i]);
                        }
                    }
                },
            }
        }
    }
}

/// Whether candidate number `i` is the first that is neither cached nor tried.
pub open spec fn is_first_missing(
    history: HistoryView,
    places: Seq<int>,
    cached: Seq<bool>,
    attempted: Set<Seq<char>>,
    i: int,
) -> bool {
    &&& 0 <= i < places.len()
    &&& !cached[i]
    &&& !attempted.contains(revision_key(history.revision(places[i])))
    &&& forall|j: int|
        0 <= j < i ==> (#[trigger] cached[j]) || attempted.contains(
            revision_key(history.revision(places[j])),
        )
}

/// A commit's model is remembered by the text of the repository's path, that of the file's path
/// and the commit's hash, with colons between them.
pub proof fn law_key_is_made_of_its_parts(
    root: Seq<char>,
    relative_path: Seq<char>,
    hash: Seq<char>,
    revision: RevisionView,
)
    ensures
        ({
            let key = key_text(root, relative_path, hash);
            let n = root.len() as int;
            let m = relative_path.len() as int;
            &&& key.len() == n + m + hash.len() + 2
            &&& key.subrange(0, n) == root
            &&& key[n] == ':'
            &&& key.subrange(n + 1, n + 1 + m) == relative_path
            &&& key[n + 1 + m] == ':'
            &&& key.skip(n + m + 2) == hash
        }),
        revision_key(revision) == key_text(
            path_text(revision.root),
            path_text(revision.relative_path),
            revision.commit.hash,
        ),
{
    reveal_strlit(":");
    let key = key_text(root, relative_path, hash);
    let n = root.len() as int;
    let m = relative_path.len() as int;
    assert(key.subrange(0, n) =~= root);
    assert(key.subrange(n + 1, n + 1 + m) =~= relative_path);
    assert(key.skip(n + m + 2) =~= hash);
}

/// The files that can be opened are those whose name is something followed by `.scad`.
pub proof fn law_scad_files_are_opened(name: Seq<char>)
    ensures
        is_scad_name(name) <==> {
            let n = name.len() as int;
            &&& n > 5
            &&& name[n - 5] == '.'
            &&& name[n - 4] == 's'
            &&& name[n - 3] == 'c'
            &&& name[n - 2] == 'a'
            &&& name[n - 1] == 'd'
        },
{
    reveal_strlit(".scad");
    let n = name.len() as int;
    if n > 5 {
        let end = name.subrange(n - 5, n);
        assert(end[0] == name[n - 5] && end[1] == name[n - 4] && end[2] == name[n - 3] && end[3]
            == name[n - 2] && end[4] == name[n - 1]);
        if end[0] == '.' && end[1] == 's' && end[2] == 'c' && end[3] == 'a' && end[4] == 'd' {
            assert(end =~= ".scad"@);
        }
    }
}

/// What contracts call the state is what its fields hold.
pub proof fn law_state_is_what_it_holds(state: AppState)
    ensures
        state@.mesh == state.mesh,
        state@.is_rendering == state.is_rendering,
        state@.render_pending == state.render_pending,
        state@.timeline_changed_at == state.timeline_changed_at,
        state@.status == state.status@,
        state@.last_source_modified == state.last_source_modified,
        state@.last_watch_check == state.last_watch_check,
        state@.auto_reload == state.auto_reload,
        state@.show_edges == state.show_edges,
        state@.show_axes == state.show_axes,
        state@.is_prefetching == state.is_prefetching,
        state@.idle_since == state.idle_since,
        state@.mesh_cache == state.mesh_cache@,
        state@.prefetch_attempted == state.prefetch_attempted@,
        state.source_path matches Some(path) ==> state@.source_path == Some(path_bytes(path)),
        state.source_path is None ==> state@.source_path is None,
        state.git_history matches Some(history) ==> state@.history == Some(history@),
        state.git_history is None ==> state@.history is None,
{
}

/// What contracts call a step is what it holds.
pub proof fn law_step_is_what_it_holds(step: RenderStep)
    ensures
        match step {
            RenderStep::Nothing => step@ is Nothing,
            RenderStep::Show(mesh) => step@ == StepView::Show(mesh),
            RenderStep::Start(request) => match step@ {
                StepView::Start { revision, cache_key } => {
                    &&& request.revision matches Some(r) ==> revision == Some(r@)
                    &&& request.revision is None ==> revision is None
                    &&& request.cache_key matches Some(key) ==> cache_key == Some(key@)
                    &&& request.cache_key is None ==> cache_key is None
                },
                _ => false,
            },
        },
{
}

/// Places as numbers are the same places, in the same order.
pub proof fn law_places_are_in_order(places: Seq<usize>, i: int)
    requires
        0 <= i < places.len(),
    ensures
        place_views(places).len() == places.len(),
        place_views(places)[i] == places[i],
{
}

} // verus!
