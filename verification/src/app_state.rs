//! The state of the user interface, and what each event does to it.
//!
//! Moments are nanoseconds on a clock that never goes back.

use crate::git::{on_branch, GitRepository, WalkedCommit};
use crate::mesh::Mesh;
use crate::paths::{path_bytes, path_text, text_of_path};
use crate::revision::{revision_view, GitHistory, GitRevision, HistoryView, RevisionView};
use crate::service::RenderOutcome;
use crate::text::{decimal, decimal_text, ends_with, same_text};
use std::path::PathBuf;
use std::sync::Arc;
use vstd::hash_map::StringHashMap;
use vstd::hash_set::StringHashSet;
use vstd::prelude::*;

verus! {

/// How long the timeline has to rest before the model of a selection is made.
pub const TIMELINE_DELAY: u64 = 160_000_000;

/// How long the program has to be idle before models are made ahead of their selection.
pub const IDLE_DELAY: u64 = 500_000_000;

/// How long the model file is not looked at again.
pub const WATCH_DELAY: u64 = 500_000_000;

/// The state of the user interface.
pub struct AppState {
    /// The model file.
    pub source_path: Option<PathBuf>,
    /// The model that is shown.
    pub mesh: Option<Arc<Mesh>>,
    /// Whether a model is being made.
    pub is_rendering: bool,
    /// Whether a model is to be made once the one that is being made is there.
    pub render_pending: bool,
    /// When the selection on the timeline changed, until its model is asked for.
    pub timeline_changed_at: Option<u64>,
    pub status: String,
    /// When the model file had been written of which the model is shown.
    pub last_source_modified: Option<i128>,
    pub last_watch_check: u64,
    pub auto_reload: bool,
    pub show_edges: bool,
    pub show_axes: bool,
    pub git_history: Option<GitHistory>,
    /// The models of commits that were shown since the file was opened.
    pub mesh_cache: StringHashMap<Arc<Mesh>>,
    /// Whether a model is being made ahead of its selection.
    pub is_prefetching: bool,
    /// The commits whose models were made, or tried, ahead of their selection.
    pub prefetch_attempted: StringHashSet,
    pub idle_since: u64,
}

/// The state as values of mathematics.
#[verifier::ext_equal]
pub struct AppView {
    /// The bytes of the path of the model file.
    pub source_path: Option<Seq<u8>>,
    pub mesh: Option<Arc<Mesh>>,
    pub is_rendering: bool,
    pub render_pending: bool,
    pub timeline_changed_at: Option<u64>,
    pub status: Seq<char>,
    pub last_source_modified: Option<i128>,
    pub last_watch_check: u64,
    pub auto_reload: bool,
    pub show_edges: bool,
    pub show_axes: bool,
    pub history: Option<HistoryView>,
    pub mesh_cache: Map<Seq<char>, Arc<Mesh>>,
    pub is_prefetching: bool,
    pub prefetch_attempted: Set<Seq<char>>,
    pub idle_since: u64,
}

impl View for AppState {
    type V = AppView;

    open spec fn view(&self) -> AppView {
        AppView {
            source_path: match self.source_path {
                Some(path) => Some(path_bytes(path)),
                None => None,
            },
            mesh: self.mesh,
            is_rendering: self.is_rendering,
            render_pending: self.render_pending,
            timeline_changed_at: self.timeline_changed_at,
            status: self.status@,
            last_source_modified: self.last_source_modified,
            last_watch_check: self.last_watch_check,
            auto_reload: self.auto_reload,
            show_edges: self.show_edges,
            show_axes: self.show_axes,
            history: match self.git_history {
                Some(history) => Some(history@),
                None => None,
            },
            mesh_cache: self.mesh_cache@,
            is_prefetching: self.is_prefetching,
            prefetch_attempted: self.prefetch_attempted@,
            idle_since: self.idle_since,
        }
    }
}

/// The request for a model: of a commit, or of the work tree.
pub struct RenderRequest {
    pub revision: Option<GitRevision>,
    /// What the mesh of the commit is remembered by.
    pub cache_key: Option<String>,
}

/// What a change of the state asks for.
pub enum RenderStep {
    Nothing,
    /// Draw this model from now on.
    Show(Arc<Mesh>),
    /// Make a model, and tell what came of it.
    Start(RenderRequest),
}

/// What a change of the state asks for, as values of mathematics.
#[verifier::ext_equal]
pub enum StepView {
    Nothing,
    Show(Arc<Mesh>),
    Start { revision: Option<RevisionView>, cache_key: Option<Seq<char>> },
}

impl View for RenderStep {
    type V = StepView;

    open spec fn view(&self) -> StepView {
        match self {
            RenderStep::Nothing => StepView::Nothing,
            RenderStep::Show(mesh) => StepView::Show(*mesh),
            RenderStep::Start(request) => StepView::Start {
                revision: revision_view(request.revision),
                cache_key: match request.cache_key {
                    Some(key) => Some(key@),
                    None => None,
                },
            },
        }
    }
}

/// What the mesh of a commit is remembered by, given the texts of the two paths and its hash.
pub open spec fn key_text(root: Seq<char>, relative_path: Seq<char>, hash: Seq<char>) -> Seq<char> {
    root + ":"@ + relative_path + ":"@ + hash
}

/// What the mesh of a revision is remembered by.
pub open spec fn revision_key(revision: RevisionView) -> Seq<char> {
    key_text(path_text(revision.root), path_text(revision.relative_path), revision.commit.hash)
}

/// How long `then` was ago.
pub open spec fn elapsed(then: u64, now: u64) -> int {
    if now >= then {
        now - then
    } else {
        0
    }
}

/// The status while the model of a revision, or of the work tree, is made.
pub open spec fn making_status(revision: Option<RevisionView>) -> Seq<char> {
    match revision {
        Some(revision) => revision.commit.short_hash + " ("@ + revision.commit.date
            + ") を生成中…"@,
        None => "OpenSCADでモデルを生成中…"@,
    }
}

/// The status that tells how many faces are shown, and where they came from.
pub open spec fn faces_status(mesh: Mesh, suffix: Seq<char>) -> Seq<char> {
    decimal_text(mesh.triangles@.len()) + suffix
}

impl AppView {
    /// The history, if there is one, has a selection.
    pub open spec fn wf(self) -> bool {
        match self.history {
            Some(history) => history.wf(),
            None => true,
        }
    }

    /// The selected revision: none for the work tree.
    pub open spec fn selected(self) -> Option<RevisionView> {
        match self.history {
            Some(history) => history.selected(),
            None => None,
        }
    }

    /// What the mesh of the selected revision is remembered by.
    pub open spec fn selected_key(self) -> Option<Seq<char>> {
        match self.selected() {
            Some(revision) => Some(revision_key(revision)),
            None => None,
        }
    }

    /// Whether the model of the selected revision is remembered.
    pub open spec fn selected_is_remembered(self) -> bool {
        self.selected_key() matches Some(key) && self.mesh_cache.contains_key(key)
    }

    /// The state, and what it asks for, once the model of the selection was asked for.
    pub open spec fn asked(self, now: u64) -> (AppView, StepView) {
        if self.source_path is None {
            (self, StepView::Nothing)
        } else if self.is_rendering {
            (AppView { render_pending: true, ..self }, StepView::Nothing)
        } else if self.selected_is_remembered() {
            let mesh = self.mesh_cache[self.selected_key()->0];
            (
                AppView {
                    mesh: Some(mesh),
                    render_pending: false,
                    last_source_modified: None,
                    status: faces_status(*mesh, " 面をキャッシュから表示中"@),
                    ..self
                },
                StepView::Show(mesh),
            )
        } else {
            (
                AppView {
                    is_rendering: true,
                    render_pending: false,
                    idle_since: now,
                    status: making_status(self.selected()),
                    ..self
                },
                StepView::Start { revision: self.selected(), cache_key: self.selected_key() },
            )
        }
    }

    /// The state once what came of making a model has been taken in.
    pub open spec fn taken_in(self, outcome: RenderOutcome) -> AppView {
        let idle = AppView { is_rendering: false, ..self };
        match outcome {
            RenderOutcome::Finished { mesh, source_modified, cache_key, loaded_from_disk_cache } => {
                AppView {
                    mesh: Some(mesh),
                    mesh_cache: match cache_key {
                        Some(key) => self.mesh_cache.insert(key@, mesh),
                        None => self.mesh_cache,
                    },
                    last_source_modified: source_modified,
                    status: faces_status(
                        *mesh,
                        if loaded_from_disk_cache {
                            " 面をディスクキャッシュから表示中"@
                        } else {
                            " 面を表示中"@
                        },
                    ),
                    ..idle
                }
            },
            RenderOutcome::Failed(message) => AppView { status: message@, ..idle },
        }
    }

    /// The state, and what it asks for, once what came of making a model was received.
    pub open spec fn received(self, outcome: RenderOutcome, now: u64) -> (AppView, StepView) {
        let taken = self.taken_in(outcome);
        if self.render_pending {
            taken.asked(now)
        } else {
            (AppView { idle_since: now, ..taken }, StepView::Nothing)
        }
    }

    /// The state once another file was opened, before its model is asked for.
    pub open spec fn opened(self, path: Seq<u8>, history: Option<HistoryView>, now: u64) -> AppView {
        AppView {
            source_path: Some(path),
            history,
            mesh_cache: Map::empty(),
            prefetch_attempted: Set::empty(),
            idle_since: now,
            last_source_modified: None,
            ..self
        }
    }

    /// Whether the work tree is shown, not a commit.
    pub open spec fn shows_worktree(self) -> bool {
        match self.history {
            Some(history) => history.shows_worktree(),
            None => true,
        }
    }

    /// Whether the model file is to be looked at.
    pub open spec fn is_watch_due(self, now: u64) -> bool {
        &&& self.auto_reload
        &&& self.shows_worktree()
        &&& !self.is_rendering
        &&& elapsed(self.last_watch_check, now) >= WATCH_DELAY
    }

    /// The state, and what it asks for, once the model file was looked at.
    pub open spec fn watched(self, modified: Option<i128>, now: u64) -> (AppView, StepView) {
        if modified is Some && modified != self.last_source_modified {
            self.asked(now)
        } else {
            (self, StepView::Nothing)
        }
    }

    /// The state once the selection on the timeline has changed to that of `history`.
    pub open spec fn reselected(self, history: HistoryView, now: u64) -> AppView {
        AppView {
            history: Some(history),
            timeline_changed_at: Some(now),
            idle_since: now,
            status: "コミットを選択中…"@,
            ..self
        }
    }

    /// The state once a place on the timeline was selected.
    pub open spec fn moved(self, position: int, now: u64) -> AppView {
        match self.history {
            Some(history) => if history.position == position {
                self
            } else {
                self.reselected(HistoryView { position, ..history }, now)
            },
            None => self,
        }
    }

    /// The state, and what it asks for, once the timeline has rested long enough.
    pub open spec fn rested(self, now: u64) -> (AppView, StepView) {
        AppView { timeline_changed_at: None, ..self }.asked(now)
    }

    /// Whether something is going on that comes before making models ahead of their selection.
    pub open spec fn is_busy(self) -> bool {
        self.is_rendering || self.render_pending || self.timeline_changed_at is Some
            || self.is_prefetching
    }

    /// Whether models are to be made ahead of their selection.
    pub open spec fn is_prefetch_due(self, now: u64) -> bool {
        !self.is_busy() && elapsed(self.idle_since, now) >= IDLE_DELAY
    }
}

/// `index` alone if there is such a commit among `count`, else nothing.
pub open spec fn commit_place(index: int, count: nat) -> Seq<int> {
    if 0 <= index < count {
        seq![index]
    } else {
        Seq::empty()
    }
}

/// The commits up to two places from the selected one, the nearest first, and of two that are
/// equally near the older first.
pub open spec fn neighbours(history: HistoryView) -> Seq<int> {
    let count = history.commits.len();
    let p = history.position;
    commit_place(p - 1, count) + commit_place(p + 1, count) + commit_place(p - 2, count)
        + commit_place(p + 2, count)
}

/// The first of `places` whose model is neither in the disk cache, as `cached` tells for each of
/// them, nor was tried ahead of its selection.
pub open spec fn first_to_prefetch(
    history: HistoryView,
    places: Seq<int>,
    cached: Seq<bool>,
    attempted: Set<Seq<char>>,
) -> Option<int>
    decreases places.len(),
{
    if places.len() == 0 {
        None
    } else if !cached[0] && !attempted.contains(revision_key(history.revision(places[0]))) {
        Some(places[0])
    } else {
        first_to_prefetch(history, places.skip(1), cached.skip(1), attempted)
    }
}

/// What the timeline asks for.
pub enum TimelinePoll {
    /// Nothing: the selection has not changed.
    Idle,
    /// To be polled again after this time.
    Wait(u64),
    /// The model of the selection.
    Render(RenderStep),
}

/// Whether models may be made ahead of their selection.
pub enum PrefetchPoll {
    /// Not now.
    Busy,
    /// Not before this time has passed.
    Wait(u64),
    Ready,
}

/// Calls `Clone::clone` of `std::sync::Arc`, which makes another pointer to the same mesh.
#[verifier::external_body]
fn share(mesh: &Arc<Mesh>) -> (copy: Arc<Mesh>)
    ensures
        copy == *mesh,
{
    mesh.clone()
}

/// What the mesh of a commit is remembered by, given the texts of the two paths and its hash.
pub fn key_of_texts(root: &str, relative_path: &str, hash: &str) -> (key: String)
    ensures
        key@ == key_text(root@, relative_path@, hash@),
{
    root.to_owned().concat(":").concat(relative_path).concat(":").concat(hash)
}

/// What the mesh of a revision is remembered by.
fn key_of_revision(revision: &GitRevision) -> (key: String)
    ensures
        key@ == revision_key(revision@),
{
    key_of_texts(
        text_of_path(&revision.root).as_str(),
        text_of_path(&revision.relative_path).as_str(),
        revision.commit.hash.as_str(),
    )
}

/// How long `then` was ago.
fn time_since(then: u64, now: u64) -> (span: u64)
    ensures
        span == elapsed(then, now),
{
    now.saturating_sub(then)
}

impl AppState {
    /// The state before a file is opened.
    pub fn new(now: u64) -> (state: AppState)
        ensures
            state@ == (AppView {
                source_path: None,
                mesh: None,
                is_rendering: false,
                render_pending: false,
                timeline_changed_at: None,
                status: "OpenSCADファイルを開いてください"@,
                last_source_modified: None,
                last_watch_check: now,
                auto_reload: true,
                show_edges: true,
                show_axes: true,
                history: None,
                mesh_cache: Map::empty(),
                is_prefetching: false,
                prefetch_attempted: Set::empty(),
                idle_since: now,
            }),
    {
        AppState {
            source_path: None,
            mesh: None,
            is_rendering: false,
            render_pending: false,
            timeline_changed_at: None,
            status: "OpenSCADファイルを開いてください".to_owned(),
            last_source_modified: None,
            last_watch_check: now,
            auto_reload: true,
            show_edges: true,
            show_axes: true,
            git_history: None,
            mesh_cache: StringHashMap::new(),
            is_prefetching: false,
            prefetch_attempted: StringHashSet::new(),
            idle_since: now,
        }
    }

    /// The selected revision: none for the work tree.
    fn selected_revision(&self) -> (revision: Option<GitRevision>)
        ensures
            revision_view(revision) == self@.selected(),
    {
        match &self.git_history {
            Some(history) => history.selected_revision(),
            None => None,
        }
    }

    /// Asks for the model of the selection: it is shown at once if it is remembered, else it is
    /// made, after the one that is being made.
    pub fn start_render(&mut self, now: u64) -> (step: RenderStep)
        ensures
            (final(self)@, step@) == old(self)@.asked(now),
    {
        if self.source_path.is_none() {
            return RenderStep::Nothing;
        }
        if self.is_rendering {
            self.render_pending = true;
            return RenderStep::Nothing;
        }
        let revision = self.selected_revision();
        let cache_key = match &revision {
            Some(revision) => Some(key_of_revision(revision)),
            None => None,
        };
        if let Some(key) = &cache_key {
            let remembered = match self.mesh_cache.get(key.as_str()) {
                Some(mesh) => Some(share(mesh)),
                None => None,
            };
            if let Some(mesh) = remembered {
                let faces = mesh.triangles.len();
                self.mesh = Some(share(&mesh));
                self.render_pending = false;
                self.last_source_modified = None;
                self.status = decimal(faces as u64).concat(" 面をキャッシュから表示中");
                return RenderStep::Show(mesh);
            }
        }
        self.is_rendering = true;
        self.idle_since = now;
        self.render_pending = false;
        self.status = match &revision {
            Some(revision) => revision.commit.short_hash.clone().concat(" (").concat(
                revision.commit.date.as_str(),
            ).concat(") を生成中…"),
            None => "OpenSCADでモデルを生成中…".to_owned(),
        };
        RenderStep::Start(RenderRequest { revision, cache_key })
    }

    /// Takes in what came of making a model, and asks for the next if there is one to make. The
    /// first of the pair is the model to draw from now on, if it was made.
    pub fn receive_render(&mut self, outcome: RenderOutcome, now: u64) -> (steps: (
        Option<Arc<Mesh>>,
        RenderStep,
    ))
        ensures
            (final(self)@, steps.1@) == old(self)@.received(outcome, now),
            match outcome {
                RenderOutcome::Finished { mesh, .. } => steps.0 == Some(mesh),
                RenderOutcome::Failed(_) => steps.0 is None,
            },
    {
        let ghost before = self@;
        self.is_rendering = false;
        let shown = match outcome {
            RenderOutcome::Finished { mesh, source_modified, cache_key, loaded_from_disk_cache } => {
                let faces = mesh.triangles.len();
                if let Some(key) = cache_key {
                    self.mesh_cache.insert(key, share(&mesh));
                }
                self.mesh = Some(share(&mesh));
                self.last_source_modified = source_modified;
                self.status = decimal(faces as u64).concat(
                    if loaded_from_disk_cache {
                        " 面をディスクキャッシュから表示中"
                    } else {
                        " 面を表示中"
                    },
                );
                Some(mesh)
            },
            RenderOutcome::Failed(message) => {
                self.status = message;
                None
            },
        };
        proof {
            assert(self@ =~= before.taken_in(outcome));
        }
        if self.render_pending {
            let step = self.start_render(now);
            (shown, step)
        } else {
            self.idle_since = now;
            (shown, RenderStep::Nothing)
        }
    }

    /// Whether a file of this name may be opened: one whose extension is `scad`. The status tells
    /// if not. `file_name` is the last name of its path, if there is one.
    pub fn accept_path(&mut self, file_name: Option<&str>) -> (accepted: bool)
        ensures
            accepted == (file_name matches Some(name) && is_scad_name(name@)),
            final(self)@ == (if accepted {
                old(self)@
            } else {
                AppView {
                    status: "拡張子 .scad のファイルを選択してください"@,
                    ..old(self)@
                }
            }),
    {
        let accepted = match file_name {
            Some(name) => has_scad_extension(name),
            None => false,
        };
        if !accepted {
            self.status = "拡張子 .scad のファイルを選択してください".to_owned();
        }
        accepted
    }

    /// Opens a file whose name was accepted, with its history, and asks for its model.
    pub fn open_path(&mut self, path: PathBuf, history: Option<GitHistory>, now: u64) -> (step: RenderStep)
        ensures
            (final(self)@, step@) == old(self)@.opened(
                path_bytes(path),
                match history {
                    Some(history) => Some(history@),
                    None => None,
                },
                now,
            ).asked(now),
    {
        self.source_path = Some(path);
        self.git_history = history;
        self.mesh_cache.clear();
        self.prefetch_attempted.clear();
        self.idle_since = now;
        self.last_source_modified = None;
        self.start_render(now)
    }

    /// Whether the model file is to be looked at now.
    pub fn watch_due(&mut self, now: u64) -> (due: bool)
        ensures
            due == old(self)@.is_watch_due(now),
            final(self)@ == (if due {
                AppView { last_watch_check: now, ..old(self)@ }
            } else {
                old(self)@
            }),
    {
        let showing_worktree = match &self.git_history {
            Some(history) => history.position == history.commits.len(),
            None => true,
        };
        if !self.auto_reload || !showing_worktree || self.is_rendering || time_since(
            self.last_watch_check,
            now,
        ) < WATCH_DELAY {
            return false;
        }
        self.last_watch_check = now;
        true
    }

    /// Asks for the model anew if the model file has been written since. `modified` is when it was
    /// written, if that can be told.
    pub fn watch_source(&mut self, modified: Option<i128>, now: u64) -> (step: RenderStep)
        ensures
            (final(self)@, step@) == old(self)@.watched(modified, now),
    {
        let changed = match (modified, self.last_source_modified) {
            (Some(modified), Some(last)) => modified != last,
            (Some(_), None) => true,
            (None, _) => false,
        };
        if changed {
            self.start_render(now)
        } else {
            RenderStep::Nothing
        }
    }

    /// Selects a place on the timeline.
    pub fn select_position(&mut self, position: usize, now: u64)
        requires
            old(self)@.history matches Some(history) ==> position <= history.commits.len(),
        ensures
            final(self)@ == old(self)@.moved(position as int, now),
            old(self)@.wf() ==> final(self)@.wf(),
    {
        let changed = match &mut self.git_history {
            Some(history) => {
                if history.position != position {
                    history.position = position;
                    true
                } else {
                    false
                }
            },
            None => false,
        };
        if changed {
            self.selection_changed(now);
        }
    }

    fn selection_changed(&mut self, now: u64)
        requires
            old(self)@.history is Some,
        ensures
            final(self)@ == old(self)@.reselected(old(self)@.history->0, now),
    {
        self.timeline_changed_at = Some(now);
        self.idle_since = now;
        self.status = "コミットを選択中…".to_owned();
    }

    /// Selects another branch, and on it the newest commit. `walked` are the commits that a walk
    /// from the branch met, the newest first, or none if the branch could not be read.
    pub fn select_branch(&mut self, branch: usize, walked: Vec<WalkedCommit>, now: u64)
        requires
            old(self)@.history matches Some(history) ==> branch < history.branches.len(),
        ensures
            final(self)@ == (match old(self)@.history {
                Some(history) => if history.selected_branch == branch {
                    old(self)@
                } else {
                    old(self)@.reselected(on_branch(history, branch as int, walked@), now)
                },
                None => old(self)@,
            }),
            old(self)@.wf() ==> final(self)@.wf(),
    {
        let changed = match &mut self.git_history {
            Some(history) => {
                if history.selected_branch != branch {
                    GitRepository::switch_branch(history, branch, walked);
                    true
                } else {
                    false
                }
            },
            None => false,
        };
        if changed {
            self.selection_changed(now);
        }
    }

    /// Asks for the model of the selection once the timeline has rested.
    pub fn poll_timeline(&mut self, now: u64) -> (poll: TimelinePoll)
        ensures
            match old(self)@.timeline_changed_at {
                Some(then) => if elapsed(then, now) >= TIMELINE_DELAY {
                    poll matches TimelinePoll::Render(step) && (final(self)@, step@) == old(self)@.rested(now)
                } else {
                    &&& final(self)@ == old(self)@
                    &&& poll matches TimelinePoll::Wait(span) && span == TIMELINE_DELAY - elapsed(
                        then,
                        now,
                    )
                },
                None => final(self)@ == old(self)@ && poll is Idle,
            },
    {
        match self.timeline_changed_at {
            Some(then) => {
                let span = time_since(then, now);
                if span >= TIMELINE_DELAY {
                    self.timeline_changed_at = None;
                    TimelinePoll::Render(self.start_render(now))
                } else {
                    TimelinePoll::Wait(TIMELINE_DELAY - span)
                }
            },
            None => TimelinePoll::Idle,
        }
    }

    /// Whether models may be made ahead of their selection now.
    pub fn poll_prefetch(&self, now: u64) -> (poll: PrefetchPoll)
        ensures
            match poll {
                PrefetchPoll::Busy => self@.is_busy(),
                PrefetchPoll::Wait(span) => !self@.is_busy() && span == IDLE_DELAY - elapsed(
                    self@.idle_since,
                    now,
                ) && span > 0,
                PrefetchPoll::Ready => self@.is_prefetch_due(now),
            },
    {
        if self.is_rendering || self.render_pending || self.timeline_changed_at.is_some()
            || self.is_prefetching {
            return PrefetchPoll::Busy;
        }
        let span = time_since(self.idle_since, now);
        if span < IDLE_DELAY {
            PrefetchPoll::Wait(IDLE_DELAY - span)
        } else {
            PrefetchPoll::Ready
        }
    }

    /// The commits whose models may be made ahead of their selection, the first choice first.
    pub fn prefetch_candidates(&self) -> (places: Vec<usize>)
        requires
            self@.history matches Some(history) ==> history.position <= history.commits.len(),
        ensures
            match self@.history {
                Some(history) => place_views(places@) == neighbours(history),
                None => places@.len() == 0,
            },
    {
        let mut places: Vec<usize> = Vec::new();
        let history = match &self.git_history {
            Some(history) => history,
            None => {
                return places;
            },
        };
        let count = history.commits.len();
        let p = history.position;
        proof {
            assert(place_views(places@) =~= Seq::<int>::empty());
        }
        let mut distance: usize = 1;
        while distance <= 2
            invariant
                1 <= distance <= 3,
                p == history.position,
                p <= count,
                count == history.commits@.len(),
                distance == 1 ==> place_views(places@) == Seq::<int>::empty(),
                distance == 2 ==> place_views(places@) == commit_place(p - 1, count as nat)
                    + commit_place(p + 1, count as nat),
                distance == 3 ==> place_views(places@) == neighbours(history@),
            decreases 3 - distance,
        {
            let ghost before = place_views(places@);
            if p >= distance {
                places.push(p - distance);
            }
            proof {
                assert(place_views(places@) =~= before + commit_place(
                    p - distance,
                    count as nat,
                ));
            }
            let ghost between = place_views(places@);
            if distance < count - p {
                places.push(p + distance);
            }
            proof {
                assert(place_views(places@) =~= between + commit_place(
                    p + distance,
                    count as nat,
                ));
                if distance == 1 {
                    assert(place_views(places@) =~= commit_place(p - 1, count as nat)
                        + commit_place(p + 1, count as nat));
                }
            }
            distance = distance + 1;
        }
        places
    }

    /// Chooses the commit whose model is made ahead of its selection. `cached` tells for each of
    /// the candidates whether the disk cache holds its model.
    pub fn start_prefetch(&mut self, cached: &Vec<bool>) -> (revision: Option<GitRevision>)
        requires
            old(self)@.history matches Some(history) ==> history.position <= history.commits.len()
                && cached@.len() == neighbours(history).len(),
        ensures
            match old(self)@.history {
                Some(history) => match first_to_prefetch(
                    history,
                    neighbours(history),
                    cached@,
                    old(self)@.prefetch_attempted,
                ) {
                    Some(place) => {
                        &&& revision_view(revision) == Some(history.revision(place))
                        &&& final(self)@ == (AppView {
                            is_prefetching: true,
                            prefetch_attempted: old(self)@.prefetch_attempted.insert(
                                revision_key(history.revision(place)),
                            ),
                            ..old(self)@
                        })
                    },
                    None => revision is None && final(self)@ == old(self)@,
                },
                None => revision is None && final(self)@ == old(self)@,
            },
    {
        let places = self.prefetch_candidates();
        let history = match &self.git_history {
            Some(history) => history,
            None => {
                return None;
            },
        };
        let ghost all = neighbours(history@);
        let ghost before = self@;
        proof {
            assert(place_views(places@).skip(0) =~= all);
            assert(cached@.skip(0) =~= cached@);
        }
        let mut i: usize = 0;
        while i < places.len()
            invariant
                i <= places@.len(),
                place_views(places@) == all,
                all == neighbours(history@),
                cached@.len() == all.len(),
                before == self@,
                before == old(self)@,
                self@.history == Some(history@),
                self.git_history matches Some(h) && h == *history,
                first_to_prefetch(history@, all, cached@, before.prefetch_attempted)
                    == first_to_prefetch(
                    history@,
                    all.skip(i as int),
                    cached@.skip(i as int),
                    before.prefetch_attempted,
                ),
            decreases places@.len() - i,
        {
            let place = places[i];
            proof {
                assert(all[i as int] == place);
                assert(all.skip(i as int)[0] == place);
                assert(all.skip(i as int).skip(1) =~= all.skip(i + 1));
                assert(cached@.skip(i as int).skip(1) =~= cached@.skip(i + 1));
                assert(0 <= place < history@.commits.len());
            }
            if !cached[i] {
                let revision = history.revision_at(place);
                let key = key_of_revision(&revision);
                if !self.prefetch_attempted.contains(key.as_str()) {
                    self.prefetch_attempted.insert(key);
                    self.is_prefetching = true;
                    return Some(revision);
                }
            }
            i = i + 1;
        }
        None
    }

    /// Takes note of whether the model that was made ahead of its selection is done with.
    pub fn receive_prefetch(&mut self, finished: bool, now: u64)
        ensures
            final(self)@ == (if old(self)@.is_prefetching && finished {
                AppView { is_prefetching: false, idle_since: now, ..old(self)@ }
            } else {
                old(self)@
            }),
    {
        if self.is_prefetching && finished {
            self.is_prefetching = false;
            self.idle_since = now;
        }
    }
}

/// Places as numbers of mathematics.
pub open spec fn place_views(places: Seq<usize>) -> Seq<int> {
    places.map_values(|place: usize| place as int)
}

/// Whether a file of this name has the extension `scad`: something stands before the last dot, and
/// `scad` behind it.
pub open spec fn is_scad_name(name: Seq<char>) -> bool {
    name.len() > 5 && ".scad"@.is_suffix_of(name)
}

/// Whether a file of this name has the extension `scad`.
pub fn has_scad_extension(file_name: &str) -> (answer: bool)
    ensures
        answer == is_scad_name(file_name@),
{
    proof {
        reveal_strlit(".scad");
        if file_name@.len() == 5 && ".scad"@.is_suffix_of(file_name@) {
            assert(file_name@.subrange(0, 5) =~= file_name@);
        }
    }
    ends_with(file_name, ".scad") && !same_text(file_name, ".scad")
}

} // verus!
