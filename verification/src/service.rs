//! Turns the request for a model into the model or a message.

use crate::cache::revision_cache_parts;
use crate::loader::{
    duty_of, end_of, follows, model_command, word_views, CacheDuty, ModelCommand, ModelLoader,
    ModelRun, RevisionEvent, RevisionStep,
};
use crate::mesh::{Mesh, StlFile};
use crate::revision::{texts, GitRevision, RevisionView};
use std::sync::Arc;
use vstd::prelude::*;

verus! {

/// What came of the request for a model.
pub enum RenderOutcome {
    Finished {
        mesh: Arc<Mesh>,
        /// When the model file had been written last, in nanoseconds since 1970-01-01 00:00 UTC,
        /// if it is the one of the work tree.
        source_modified: Option<i128>,
        /// What the mesh is remembered by, if it is the one of a commit.
        cache_key: Option<String>,
        loaded_from_disk_cache: bool,
    },
    /// There is no model, for this reason.
    Failed(String),
}

/// How the request for a model begins.
pub enum RenderStart {
    /// With this step on the way to the model of a revision.
    Revision(RevisionStep),
    /// With running this command on the model file of the work tree.
    Worktree(ModelCommand),
}

/// The outcome of a request for the model of a commit, or of the work tree, given the mesh and
/// whether the disk cache had it, or a message.
pub open spec fn outcome_of(
    of_commit: bool,
    source_modified: Option<i128>,
    result: Result<(Mesh, bool), String>,
    cache_key: Option<String>,
) -> RenderOutcome {
    match result {
        Ok((mesh, from_cache)) => RenderOutcome::Finished {
            mesh: Arc::new(mesh),
            source_modified: if of_commit {
                None
            } else {
                source_modified
            },
            cache_key,
            loaded_from_disk_cache: of_commit && from_cache,
        },
        Err(message) => RenderOutcome::Failed(message),
    }
}

/// Makes models for the user interface.
pub struct ModelService {
    pub loader: ModelLoader,
}

impl ModelService {
    pub fn new(loader: ModelLoader) -> (service: ModelService)
        ensures
            service.loader == loader,
    {
        ModelService { loader }
    }

    /// How the request for a model begins: the model of a commit is on the way of a revision, that
    /// of the work tree is made at once.
    pub fn start(&self, of_commit: bool) -> (start: RenderStart)
        ensures
            match start {
                RenderStart::Revision(step) => of_commit && follows(
                    self.loader.has_cache_directory,
                    RevisionEvent::Asked,
                    step,
                ),
                RenderStart::Worktree(command) => {
                    &&& !of_commit
                    &&& command.program@ == model_command(self.loader.backend).0
                    &&& word_views(command.arguments@) == model_command(self.loader.backend).1
                },
            },
    {
        if of_commit {
            RenderStart::Revision(self.loader.render_revision(RevisionEvent::Asked))
        } else {
            RenderStart::Worktree(self.loader.command())
        }
    }

    /// The outcome of a request for the model of a commit, or of the work tree. `result` is the
    /// mesh, and whether the disk cache had it, or a message; `source_modified` is when the model
    /// file was written, which counts for the work tree only.
    pub fn render(
        &self,
        of_commit: bool,
        source_modified: Option<i128>,
        result: Result<(Mesh, bool), String>,
        cache_key: Option<String>,
    ) -> (outcome: RenderOutcome)
        ensures
            outcome == outcome_of(of_commit, source_modified, result, cache_key),
    {
        match result {
            Ok((mesh, from_cache)) => RenderOutcome::Finished {
                mesh: Arc::new(mesh),
                source_modified: if of_commit {
                    None
                } else {
                    source_modified
                },
                cache_key,
                loaded_from_disk_cache: of_commit && from_cache,
            },
            Err(message) => RenderOutcome::Failed(message),
        }
    }

    /// The step that follows an event on the way of a model into the cache, ahead of the request
    /// for it. Neither the mesh nor the message at the end of the way is of use.
    pub fn prefetch(&self, event: RevisionEvent) -> (step: RevisionStep)
        ensures
            follows(self.loader.has_cache_directory, event, step),
    {
        self.loader.render_revision(event)
    }

    /// Whether the cache holds the model of a revision. `files` are files that are in the cache,
    /// each as the names that lead to it from the directory of caches.
    pub fn is_cached(&self, revision: &GitRevision, files: &Vec<Vec<String>>) -> (cached: bool)
        ensures
            cached <==> self.loader.holds(revision@, files@),
    {
        self.loader.is_cached(revision, files)
    }
}

/// A model that was made ahead of its selection is in the cache, and is shown from there. `bytes`
/// are what the command wrote that made the model of `revision`; `files` are the files of the
/// cache once those bytes lie, as `stored`, in the file of the revision, which is at `place`.
///
/// The command's success leads to storing the file. From then on the model counts as cached, a
/// request for it begins with reading the cache, goes on with no other step, and ends in the same
/// mesh, which tells that it came from the cache.
pub proof fn law_prefetched_model_is_shown_from_the_cache(
    service: ModelService,
    revision: RevisionView,
    bytes: Vec<u8>,
    made: RevisionStep,
    files: Seq<Vec<String>>,
    place: int,
    stored: Vec<u8>,
    asked: RevisionStep,
    read: RevisionStep,
    cache_key: Option<String>,
)
    requires
        service.loader.has_cache_directory,
        follows(true, RevisionEvent::Ran(ModelRun::Succeeded(StlFile::Bytes(bytes))), made),
        !(made is Failed),
        0 <= place < files.len(),
        texts(files[place]@) == revision_cache_parts(revision, service.loader.backend),
        stored@ == bytes@,
        follows(service.loader.has_cache_directory, RevisionEvent::Asked, asked),
        follows(
            service.loader.has_cache_directory,
            RevisionEvent::CacheRead(Some(StlFile::Bytes(stored))),
            read,
        ),
    ensures
        service.loader.holds(revision, files),
        asked is ReadCache,
        duty_of(made) == CacheDuty::Store,
        duty_of(read) == CacheDuty::Touch,
        match (made, read) {
            (RevisionStep::Made { mesh, store }, RevisionStep::Cached(cached)) => {
                &&& store
                &&& cached.vertices@ == mesh.vertices@
                &&& cached.triangles@ == mesh.triangles@
                &&& end_of(read) == Some(Ok::<(Mesh, bool), String>((cached, true)))
                &&& outcome_of(true, None, Ok((cached, true)), cache_key) matches RenderOutcome::Finished {
                    mesh: shown,
                    source_modified,
                    cache_key: key,
                    loaded_from_disk_cache,
                } && *shown == cached && source_modified is None && key == cache_key
                    && loaded_from_disk_cache
            },
            _ => false,
        },
{
}

/// Whether an event tells that something on the way to a model did not succeed.
pub open spec fn is_failure(event: RevisionEvent) -> bool {
    match event {
        RevisionEvent::DirectoryMade(done) => done is Err,
        RevisionEvent::FileMade(done) => done is Err,
        RevisionEvent::CheckedOut(done) => done is Err,
        RevisionEvent::Ran(run) => !(run is Succeeded),
        _ => false,
    }
}

/// Where something on the way to a model did not succeed, the way ends there, with a message, and
/// nothing is stored in the cache.
pub proof fn law_failure_ends_the_way(has_cache: bool, event: RevisionEvent, step: RevisionStep)
    requires
        follows(has_cache, event, step),
        is_failure(event),
    ensures
        step is Failed,
{
}

/// What was made is handed on as it is: the same mesh under the same key. Only a model of the work
/// tree tells when its file was written, and only one of a commit tells that the disk cache had it.
/// What could not be made is told with the same message.
pub proof fn law_outcome_hands_the_result_on(
    of_commit: bool,
    source_modified: Option<i128>,
    mesh: Mesh,
    from_cache: bool,
    message: String,
    key: Option<String>,
)
    ensures
        match outcome_of(of_commit, source_modified, Ok((mesh, from_cache)), key) {
            RenderOutcome::Finished {
                mesh: shown,
                source_modified: written,
                cache_key,
                loaded_from_disk_cache,
            } => {
                &&& *shown == mesh
                &&& cache_key == key
                &&& of_commit ==> written is None && loaded_from_disk_cache == from_cache
                &&& !of_commit ==> written == source_modified && !loaded_from_disk_cache
            },
            RenderOutcome::Failed(_) => false,
        },
        outcome_of(of_commit, source_modified, Err(message), key) == RenderOutcome::Failed(message),
{
}

} // verus!
