//! Making the model of a file: the command that renders it, and the way from a revision to its
//! mesh, through the cache or past it.

use crate::cache::{persistent_cache_path, revision_cache_parts};
use crate::config::ModelBackend;
use crate::mesh::{is_loaded, load_stl, stl_content, Mesh, StlFile};
use crate::revision::{texts, GitRevision, RevisionView};
use crate::text::{trim, trimmed};
use vstd::prelude::*;
use vstd::utf8::{decode_utf8, valid_utf8};

verus! {

/// A word of a command.
pub enum CommandWord {
    Text(&'static str),
    /// The model file.
    Source,
    /// The STL file to write.
    Output,
}

/// A word of a command, as text.
pub enum WordView {
    Text(Seq<char>),
    Source,
    Output,
}

impl View for CommandWord {
    type V = WordView;

    open spec fn view(&self) -> WordView {
        match self {
            CommandWord::Text(text) => WordView::Text(text@),
            CommandWord::Source => WordView::Source,
            CommandWord::Output => WordView::Output,
        }
    }
}

/// A command: the program, and its arguments.
pub struct ModelCommand {
    pub program: &'static str,
    pub arguments: Vec<CommandWord>,
}

/// The views of the words of a command.
pub open spec fn word_views(words: Seq<CommandWord>) -> Seq<WordView> {
    words.map_values(|w: CommandWord| w@)
}

/// The arguments that make OpenSCAD write a binary STL file.
pub open spec fn openscad_arguments() -> Seq<WordView> {
    seq![
        WordView::Text("--export-format"@),
        WordView::Text("binstl"@),
        WordView::Text("-o"@),
        WordView::Output,
        WordView::Source,
    ]
}

/// The program that makes a model, and its arguments.
pub open spec fn model_command(backend: Option<ModelBackend>) -> (Seq<char>, Seq<WordView>) {
    match backend {
        Some(ModelBackend::Openrscad) => (
            "openrscad"@,
            seq![WordView::Source, WordView::Text("-o"@), WordView::Output],
        ),
        Some(ModelBackend::Cgal) => (
            "openscad"@,
            seq![WordView::Text("--backend"@), WordView::Text("CGAL"@)] + openscad_arguments(),
        ),
        Some(ModelBackend::Manifold) => (
            "openscad"@,
            seq![WordView::Text("--backend"@), WordView::Text("Manifold"@)] + openscad_arguments(),
        ),
        None => ("openscad"@, openscad_arguments()),
    }
}

/// The command that makes the model of a file.
pub fn command_for(backend: Option<ModelBackend>) -> (command: ModelCommand)
    ensures
        command.program@ == model_command(backend).0,
        word_views(command.arguments@) == model_command(backend).1,
{
    let mut arguments: Vec<CommandWord> = Vec::new();
    if let Some(ModelBackend::Openrscad) = backend {
        arguments.push(CommandWord::Source);
        arguments.push(CommandWord::Text("-o"));
        arguments.push(CommandWord::Output);
        proof {
            assert(word_views(arguments@) =~= model_command(backend).1);
        }
        return ModelCommand { program: "openrscad", arguments };
    }
    if let Some(backend) = backend {
        if let Some(name) = backend.openscad_backend() {
            arguments.push(CommandWord::Text("--backend"));
            arguments.push(CommandWord::Text(name));
        }
    }
    arguments.push(CommandWord::Text("--export-format"));
    arguments.push(CommandWord::Text("binstl"));
    arguments.push(CommandWord::Text("-o"));
    arguments.push(CommandWord::Output);
    arguments.push(CommandWord::Source);
    proof {
        assert(word_views(arguments@) =~= model_command(backend).1);
    }
    ModelCommand { program: "openscad", arguments }
}

/// What `String::from_utf8_lossy` makes of bytes: the text that they encode, with a replacement
/// character for each part that is not UTF-8.
pub uninterp spec fn lossy_text(bytes: Seq<u8>) -> Seq<char>;

/// Calls `String::from_utf8_lossy`. The result is a function of the bytes, and where they are
/// UTF-8 it is the text that they encode.
#[verifier::external_body]
fn text_of_bytes(bytes: &Vec<u8>) -> (text: String)
    ensures
        text@ == lossy_text(bytes@),
        valid_utf8(bytes@) ==> text@ == decode_utf8(bytes@),
{
    String::from_utf8_lossy(bytes).into_owned()
}

/// What came of running the command that makes a model.
pub enum ModelRun {
    /// It could not be started, for this reason.
    NotStarted(String),
    /// It failed, and wrote this to its error output.
    Failed(Vec<u8>),
    /// It succeeded, and wrote this file.
    Succeeded(StlFile),
}

/// The message of a command that failed, given what it wrote.
pub open spec fn failure_text(output: Seq<char>) -> Seq<char> {
    "OpenSCADエラー:\n"@ + trimmed(output)
}

/// The message of a command that failed, given what it wrote.
pub fn failure_message(output: &str) -> (message: String)
    ensures
        message@ == failure_text(output@),
{
    "OpenSCADエラー:\n".to_owned().concat(trim(output).as_str())
}

/// Whether `mesh` is what a run of the command gives.
pub open spec fn is_made(run: ModelRun, mesh: Result<Mesh, String>) -> bool {
    match run {
        ModelRun::NotStarted(error) => mesh matches Err(message) && message@
            == "OpenSCADを起動できません: "@ + error@
            + "\nOpenSCADがインストールされているか確認してください。"@,
        ModelRun::Failed(output) => mesh matches Err(message) && message@ == failure_text(
            lossy_text(output@),
        ),
        ModelRun::Succeeded(file) => is_loaded(file, mesh),
    }
}

/// The mesh that a run of the command has made.
pub fn run_openscad(run: ModelRun) -> (mesh: Result<Mesh, String>)
    ensures
        is_made(run, mesh),
        mesh matches Ok(mesh) ==> mesh.wf(),
{
    match run {
        ModelRun::NotStarted(error) => Err(
            "OpenSCADを起動できません: ".to_owned().concat(error.as_str()).concat(
                "\nOpenSCADがインストールされているか確認してください。",
            ),
        ),
        ModelRun::Failed(output) => Err(failure_message(text_of_bytes(&output).as_str())),
        ModelRun::Succeeded(file) => load_stl(file),
    }
}

/// What has happened on the way to the model of a revision.
pub enum RevisionEvent {
    /// The model was asked for.
    Asked,
    /// The file of the cache was read; none if it is not a file.
    CacheRead(Option<StlFile>),
    /// A temporary directory was made, or not, for this reason.
    DirectoryMade(Result<(), String>),
    /// A temporary STL file was made, or not, for this reason.
    FileMade(Result<(), String>),
    /// The commit was checked out into the directory, or not: the error is a message.
    CheckedOut(Result<(), String>),
    /// The command that makes the model was run.
    Ran(ModelRun),
}

/// What the way to the model of a revision needs next.
pub enum RevisionStep {
    /// Read the file of the cache.
    ReadCache,
    /// Make a temporary directory.
    MakeDirectory,
    /// Make a temporary STL file.
    MakeFile,
    /// Check the commit out into the directory.
    CheckOut,
    /// Run the command that makes the model.
    Run,
    /// The model came from the cache: mark its file as used now.
    Cached(Mesh),
    /// The model was made. With `store`, its STL file goes into the cache.
    Made { mesh: Mesh, store: bool },
    /// There is no model, for this reason.
    Failed(String),
}

/// Whether the step fails with that message.
pub open spec fn step_fails(step: RevisionStep, message: Seq<char>) -> bool {
    step matches RevisionStep::Failed(text) && text@ == message
}

/// Whether `step` follows `event`, where `has_cache` tells whether there is a place for a cache.
pub open spec fn follows(has_cache: bool, event: RevisionEvent, step: RevisionStep) -> bool {
    match event {
        RevisionEvent::Asked => if has_cache {
            step is ReadCache
        } else {
            step is MakeDirectory
        },
        RevisionEvent::CacheRead(None) => step is MakeDirectory,
        RevisionEvent::CacheRead(Some(file)) => match step {
            RevisionStep::Cached(mesh) => is_loaded(file, Ok(mesh)),
            RevisionStep::MakeDirectory => exists|error: String| is_loaded(file, Err(error)),
            _ => false,
        },
        RevisionEvent::DirectoryMade(Ok(_)) => step is MakeFile,
        RevisionEvent::DirectoryMade(Err(error)) => step_fails(
            step,
            "一時ディレクトリを作成できません: "@ + error@,
        ),
        RevisionEvent::FileMade(Ok(_)) => step is CheckOut,
        RevisionEvent::FileMade(Err(error)) => step_fails(
            step,
            "一時STLファイルを作成できません: "@ + error@,
        ),
        RevisionEvent::CheckedOut(Ok(_)) => step is Run,
        RevisionEvent::CheckedOut(Err(message)) => step_fails(step, message@),
        RevisionEvent::Ran(run) => match step {
            RevisionStep::Made { mesh, store } => is_made(run, Ok(mesh)) && store == has_cache,
            RevisionStep::Failed(message) => is_made(run, Err(message)),
            _ => false,
        },
    }
}

/// The step on the way to the model of a revision that follows an event.
pub fn load_or_render_revision(has_cache: bool, event: RevisionEvent) -> (step: RevisionStep)
    ensures
        follows(has_cache, event, step),
        match step {
            RevisionStep::Cached(mesh) => mesh.wf(),
            RevisionStep::Made { mesh, .. } => mesh.wf(),
            _ => true,
        },
{
    match event {
        RevisionEvent::Asked => if has_cache {
            RevisionStep::ReadCache
        } else {
            RevisionStep::MakeDirectory
        },
        RevisionEvent::CacheRead(None) => RevisionStep::MakeDirectory,
        RevisionEvent::CacheRead(Some(file)) => match load_stl(file) {
            Ok(mesh) => RevisionStep::Cached(mesh),
            Err(_) => RevisionStep::MakeDirectory,
        },
        RevisionEvent::DirectoryMade(Ok(_)) => RevisionStep::MakeFile,
        RevisionEvent::DirectoryMade(Err(error)) => RevisionStep::Failed(
            "一時ディレクトリを作成できません: ".to_owned().concat(error.as_str()),
        ),
        RevisionEvent::FileMade(Ok(_)) => RevisionStep::CheckOut,
        RevisionEvent::FileMade(Err(error)) => RevisionStep::Failed(
            "一時STLファイルを作成できません: ".to_owned().concat(error.as_str()),
        ),
        RevisionEvent::CheckedOut(Ok(_)) => RevisionStep::Run,
        RevisionEvent::CheckedOut(Err(message)) => RevisionStep::Failed(message),
        RevisionEvent::Ran(run) => match run_openscad(run) {
            Ok(mesh) => RevisionStep::Made { mesh, store: has_cache },
            Err(message) => RevisionStep::Failed(message),
        },
    }
}

/// What is owed to the cache at the end of the way to the model of a revision.
#[derive(Clone, Copy, Debug, Eq, PartialEq, Structural)]
pub enum CacheDuty {
    /// The file of the revision was used: it is to be marked as used now.
    Touch,
    /// The STL file that was made goes into the cache.
    Store,
    Nothing,
}

/// What is owed to the cache.
pub open spec fn duty_of(step: RevisionStep) -> CacheDuty {
    match step {
        RevisionStep::Cached(_) => CacheDuty::Touch,
        RevisionStep::Made { store: true, .. } => CacheDuty::Store,
        _ => CacheDuty::Nothing,
    }
}

/// What is owed to the cache once the way to the model of a revision has come to this step.
pub fn cache_duty(step: &RevisionStep) -> (duty: CacheDuty)
    ensures
        duty == duty_of(*step),
{
    match step {
        RevisionStep::Cached(_) => CacheDuty::Touch,
        RevisionStep::Made { store, .. } => if *store {
            CacheDuty::Store
        } else {
            CacheDuty::Nothing
        },
        _ => CacheDuty::Nothing,
    }
}

/// What the way to the model of a revision ends in, if this step ends it: the mesh, and whether
/// the cache had it, or a message.
pub open spec fn end_of(step: RevisionStep) -> Option<Result<(Mesh, bool), String>> {
    match step {
        RevisionStep::Cached(mesh) => Some(Ok((mesh, true))),
        RevisionStep::Made { mesh, .. } => Some(Ok((mesh, false))),
        RevisionStep::Failed(message) => Some(Err(message)),
        _ => None,
    }
}

/// What the way to the model of a revision ends in, if this step ends it.
pub fn revision_result(step: RevisionStep) -> (result: Option<Result<(Mesh, bool), String>>)
    ensures
        result == end_of(step),
{
    match step {
        RevisionStep::Cached(mesh) => Some(Ok((mesh, true))),
        RevisionStep::Made { mesh, .. } => Some(Ok((mesh, false))),
        RevisionStep::Failed(message) => Some(Err(message)),
        _ => None,
    }
}

/// Each time a model is shown from the cache, and only then, its file is marked as used; and the
/// model that was made is stored if there is a place for a cache.
pub proof fn law_shown_model_counts_as_used(
    has_cache: bool,
    event: RevisionEvent,
    step: RevisionStep,
)
    requires
        follows(has_cache, event, step),
    ensures
        duty_of(step) is Touch <==> end_of(step) matches Some(Ok((_, true))),
        duty_of(step) is Store <==> has_cache && end_of(step) matches Some(Ok((_, false))),
{
}

/// A model that was made and stored in the cache is shown from the cache when it is asked for
/// again, without making it anew: the same mesh.
pub proof fn law_cache_gives_back_what_was_made(
    bytes: Vec<u8>,
    made: RevisionStep,
    again: RevisionStep,
)
    requires
        follows(true, RevisionEvent::Ran(ModelRun::Succeeded(StlFile::Bytes(bytes))), made),
        !(made is Failed),
        follows(true, RevisionEvent::CacheRead(Some(StlFile::Bytes(bytes))), again),
    ensures
        match (made, again) {
            (RevisionStep::Made { mesh, store }, RevisionStep::Cached(cached)) => {
                &&& store
                &&& cached.vertices@ == mesh.vertices@
                &&& cached.triangles@ == mesh.triangles@
            },
            _ => false,
        },
{
}

/// What has happened on the way of an STL file into the cache.
#[derive(Clone, Copy, Debug, Eq, PartialEq, Structural)]
pub enum StoreEvent {
    /// The file was made.
    Made,
    /// Whether the directory of its place in the cache is there.
    DirectoryMade(bool),
    /// Whether a temporary file was made in that directory.
    FileMade(bool),
    /// Whether the file was copied into the temporary one.
    Copied(bool),
}

/// What the way of an STL file into the cache needs next.
#[derive(Clone, Copy, Debug, Eq, PartialEq, Structural)]
pub enum StoreStep {
    /// Make the directory of its place in the cache, unless it is there.
    MakeDirectory,
    /// Make a temporary file in that directory.
    MakeFile,
    /// Copy the file into the temporary one.
    Copy,
    /// Remove what is at its place in the cache, move the temporary file there, and prune the
    /// cache.
    ReplaceAndPrune,
    /// Leave the cache as it is.
    GiveUp,
}

/// The step on the way of an STL file into the cache that follows an event. The file at its place
/// is replaced only once the copy is complete.
pub fn store_step(event: StoreEvent) -> (step: StoreStep)
    ensures
        step == (match event {
            StoreEvent::Made => StoreStep::MakeDirectory,
            StoreEvent::DirectoryMade(true) => StoreStep::MakeFile,
            StoreEvent::FileMade(true) => StoreStep::Copy,
            StoreEvent::Copied(true) => StoreStep::ReplaceAndPrune,
            _ => StoreStep::GiveUp,
        }),
{
    match event {
        StoreEvent::Made => StoreStep::MakeDirectory,
        StoreEvent::DirectoryMade(done) => if done {
            StoreStep::MakeFile
        } else {
            StoreStep::GiveUp
        },
        StoreEvent::FileMade(done) => if done {
            StoreStep::Copy
        } else {
            StoreStep::GiveUp
        },
        StoreEvent::Copied(done) => if done {
            StoreStep::ReplaceAndPrune
        } else {
            StoreStep::GiveUp
        },
    }
}

/// Makes models, through the disk cache.
pub struct ModelLoader {
    /// Whether there is a directory for caches.
    pub has_cache_directory: bool,
    pub max_cache_size_bytes: u64,
    pub backend: Option<ModelBackend>,
}

impl ModelLoader {
    /// Whether the model of a revision is among `files`, which are files of the cache, each as the
    /// names that lead to it from the directory of caches.
    pub open spec fn holds(self, revision: RevisionView, files: Seq<Vec<String>>) -> bool {
        self.has_cache_directory && exists|i: int|
            0 <= i < files.len() && texts(#[trigger] files[i]@) == revision_cache_parts(
                revision,
                self.backend,
            )
    }

    /// A loader that makes models with `backend`. Where there is a directory for caches, the cache
    /// is to be brought up to date and pruned to the limit.
    pub fn new(
        has_cache_directory: bool,
        max_cache_size_bytes: u64,
        backend: Option<ModelBackend>,
    ) -> (loader: ModelLoader)
        ensures
            loader == (ModelLoader { has_cache_directory, max_cache_size_bytes, backend }),
    {
        ModelLoader { has_cache_directory, max_cache_size_bytes, backend }
    }

    /// The command that makes the model of a file in the work tree, or of one that was checked
    /// out.
    pub fn command(&self) -> (command: ModelCommand)
        ensures
            command.program@ == model_command(self.backend).0,
            word_views(command.arguments@) == model_command(self.backend).1,
    {
        command_for(self.backend)
    }

    /// The mesh of the work tree: `file` is the temporary STL file that was made, or the reason
    /// why there is none, and `run` what came of the command that writes it.
    pub fn render_worktree(&self, file: Result<ModelRun, String>) -> (mesh: Result<Mesh, String>)
        ensures
            match file {
                Ok(run) => is_made(run, mesh),
                Err(error) => mesh matches Err(message) && message@
                    == "一時STLファイルを作成できません: "@ + error@,
            },
            mesh matches Ok(mesh) ==> mesh.wf(),
    {
        match file {
            Ok(run) => run_openscad(run),
            Err(error) => Err(
                "一時STLファイルを作成できません: ".to_owned().concat(error.as_str()),
            ),
        }
    }

    /// The step on the way to the model of a revision that follows an event.
    pub fn render_revision(&self, event: RevisionEvent) -> (step: RevisionStep)
        ensures
            follows(self.has_cache_directory, event, step),
            match step {
                RevisionStep::Cached(mesh) => mesh.wf(),
                RevisionStep::Made { mesh, .. } => mesh.wf(),
                _ => true,
            },
    {
        load_or_render_revision(self.has_cache_directory, event)
    }

    /// The file of the cache, as the names that lead to it from the directory of caches, that
    /// holds the model of a revision; none if there is no such directory.
    pub fn cache_file(&self, revision: &GitRevision) -> (parts: Option<Vec<String>>)
        ensures
            match parts {
                Some(parts) => self.has_cache_directory && texts(parts@) == revision_cache_parts(
                    revision@,
                    self.backend,
                ),
                None => !self.has_cache_directory,
            },
    {
        if self.has_cache_directory {
            Some(persistent_cache_path(revision, self.backend))
        } else {
            None
        }
    }

    /// Whether the cache holds the model of a revision. `files` are files that are in the cache,
    /// each as the names that lead to it from the directory of caches.
    pub fn is_cached(&self, revision: &GitRevision, files: &Vec<Vec<String>>) -> (cached: bool)
        ensures
            cached <==> self.holds(revision@, files@),
    {
        let parts = match self.cache_file(revision) {
            Some(parts) => parts,
            None => {
                return false;
            },
        };
        let mut i: usize = 0;
        while i < files.len()
            invariant
                i <= files@.len(),
                self.has_cache_directory,
                texts(parts@) == revision_cache_parts(revision@, self.backend),
                forall|k: int| 0 <= k < i ==> texts(#[trigger] files@[k]@) != texts(parts@),
            decreases files@.len() - i,
        {
            if same_parts(&files[i], &parts) {
                return true;
            }
            i = i + 1;
        }
        false
    }
}

/// Whether two lists of names are the same.
fn same_parts(a: &Vec<String>, b: &Vec<String>) -> (same: bool)
    ensures
        same == (texts(a@) == texts(b@)),
{
    if a.len() != b.len() {
        proof {
            assert(texts(a@).len() != texts(b@).len());
        }
        return false;
    }
    for i in 0..a.len()
        invariant
            a@.len() == b@.len(),
            forall|k: int| 0 <= k < i ==> (#[trigger] a@[k])@ == b@[k]@,
    {
        if a[i] != b[i] {
            proof {
                assert(texts(a@)[i as int] != texts(b@)[i as int]);
            }
            return false;
        }
    }
    proof {
        assert(texts(a@) =~= texts(b@));
    }
    true
}

/// The program writes the model of the source file to the output file: `-o` stands right before the
/// output, and both are named once. OpenSCAD is asked for binary STL, and for a backend by the name
/// that it gives it, if one is chosen; the other program is asked for neither.
pub proof fn law_command_makes_the_model(backend: Option<ModelBackend>)
    ensures
        ({
            let (program, words) = model_command(backend);
            let n = words.len() as int;
            let rest = seq![
                WordView::Text("--export-format"@),
                WordView::Text("binstl"@),
                WordView::Text("-o"@),
                WordView::Output,
                WordView::Source,
            ];
            match backend {
                Some(ModelBackend::Openrscad) => {
                    &&& program == "openrscad"@
                    &&& words == seq![WordView::Source, WordView::Text("-o"@), WordView::Output]
                },
                Some(named) => {
                    &&& program == "openscad"@
                    &&& n == 7
                    &&& words[0] == WordView::Text("--backend"@)
                    &&& words[1] == WordView::Text(
                        if named == ModelBackend::Cgal {
                            "CGAL"@
                        } else {
                            "Manifold"@
                        },
                    )
                    &&& words.skip(2) == rest
                },
                None => program == "openscad"@ && words == rest,
            }
        }),
{
    let words = model_command(backend).1;
    if words.len() == 7 {
        assert(words.skip(2) =~= openscad_arguments());
    }
}

/// The words of a command are known by their texts, in the same order.
pub proof fn law_words_are_in_order(words: Seq<CommandWord>, i: int)
    requires
        0 <= i < words.len(),
    ensures
        word_views(words).len() == words.len(),
        word_views(words)[i] == (match words[i] {
            CommandWord::Text(text) => WordView::Text(text@),
            CommandWord::Source => WordView::Source,
            CommandWord::Output => WordView::Output,
        }),
{
}

/// The message of a command that failed is a heading and what the command wrote, without the white
/// space around it.
pub proof fn law_failure_tells_what_was_written(output: Seq<char>)
    ensures
        ({
            let heading = "OpenSCADエラー:\n"@;
            let message = failure_text(output);
            &&& heading.is_prefix_of(message)
            &&& message.skip(heading.len() as int) == trimmed(output)
        }),
{
    let heading = "OpenSCADエラー:\n"@;
    let message = failure_text(output);
    assert(message.subrange(0, heading.len() as int) =~= heading);
    assert(message.skip(heading.len() as int) =~= trimmed(output));
}

/// A run of the command gives the mesh of the file that it wrote, if it succeeded; else a message
/// that tells why it could not be started, or what it wrote.
pub proof fn law_run_gives_what_was_written(run: ModelRun, mesh: Result<Mesh, String>)
    requires
        is_made(run, mesh),
    ensures
        match run {
            ModelRun::NotStarted(error) => mesh matches Err(message) && message@
                == "OpenSCADを起動できません: "@ + error@
                + "\nOpenSCADがインストールされているか確認してください。"@,
            ModelRun::Failed(output) => mesh matches Err(message) && message@
                == "OpenSCADエラー:\n"@ + trimmed(lossy_text(output@)),
            ModelRun::Succeeded(file) => is_loaded(file, mesh),
        },
{
}

/// The way to the model of a revision: the cache first, if there is a place for one; a model that
/// it has ends the way. Else a directory and a file are made, the commit is checked out, and the
/// command is run, each only once what comes before it has succeeded.
pub proof fn law_way_to_a_model(
    has_cache: bool,
    event: RevisionEvent,
    step: RevisionStep,
)
    requires
        follows(has_cache, event, step),
    ensures
        event is Asked && has_cache ==> step is ReadCache,
        event is Asked && !has_cache ==> step is MakeDirectory,
        event matches RevisionEvent::CacheRead(None) ==> step is MakeDirectory,
        event matches RevisionEvent::CacheRead(Some(StlFile::Bytes(bytes))) ==> (if stl_content(
            bytes@,
        ) matches Ok((vertices, faces)) && vertices.len() > 0 && faces.len() > 0 {
            step matches RevisionStep::Cached(mesh) && mesh.vertices@ == (stl_content(
                bytes@,
            )->Ok_0).0 && mesh.triangles@ == (stl_content(bytes@)->Ok_0).1
        } else {
            step is MakeDirectory
        }),
        event matches RevisionEvent::CacheRead(Some(StlFile::Unopened(_))) ==> step is MakeDirectory,
        event matches RevisionEvent::CacheRead(Some(StlFile::Unread(_))) ==> step is MakeDirectory,
        event matches RevisionEvent::DirectoryMade(Ok(_)) ==> step is MakeFile,
        event matches RevisionEvent::FileMade(Ok(_)) ==> step is CheckOut,
        event matches RevisionEvent::CheckedOut(Ok(_)) ==> step is Run,
        event matches RevisionEvent::DirectoryMade(Err(error)) ==> (
        step matches RevisionStep::Failed(message) && message@
            == "一時ディレクトリを作成できません: "@ + error@),
        event matches RevisionEvent::FileMade(Err(error)) ==> (
        step matches RevisionStep::Failed(message) && message@
            == "一時STLファイルを作成できません: "@ + error@),
        event matches RevisionEvent::CheckedOut(Err(error)) ==> (
        step matches RevisionStep::Failed(message) && message@ == error@),
{
}

/// A run of the command ends the way: with the mesh that it made, which is stored if there is a
/// place for a cache, or with its message.
pub proof fn law_run_ends_the_way(has_cache: bool, run: ModelRun, step: RevisionStep)
    requires
        follows(has_cache, RevisionEvent::Ran(run), step),
    ensures
        match run {
            ModelRun::Succeeded(StlFile::Bytes(bytes)) => if stl_content(bytes@) matches Ok(
                (vertices, faces),
            ) && vertices.len() > 0 && faces.len() > 0 {
                step matches RevisionStep::Made { mesh, store } && store == has_cache
                    && mesh.vertices@ == (stl_content(bytes@)->Ok_0).0 && mesh.triangles@
                    == (stl_content(bytes@)->Ok_0).1
            } else {
                step is Failed
            },
            ModelRun::Failed(output) => step matches RevisionStep::Failed(message) && message@
                == "OpenSCADエラー:\n"@ + trimmed(lossy_text(output@)),
            _ => step is Failed,
        },
{
}

/// The way ends with the mesh that was read or made, and tells which; or with the message. No other
/// step ends it, and only these two meshes concern the cache.
pub proof fn law_end_of_the_way(step: RevisionStep)
    ensures
        match step {
            RevisionStep::Cached(mesh) => end_of(step) == Some(
                Ok::<(Mesh, bool), String>((mesh, true)),
            ) && duty_of(step) is Touch,
            RevisionStep::Made { mesh, store } => end_of(step) == Some(
                Ok::<(Mesh, bool), String>((mesh, false)),
            ) && (store ==> duty_of(step) is Store) && (!store ==> duty_of(step) is Nothing),
            RevisionStep::Failed(message) => end_of(step) == Some(
                Err::<(Mesh, bool), String>(message),
            ) && duty_of(step) is Nothing,
            _ => end_of(step) is None && duty_of(step) is Nothing,
        },
{
}

/// A model counts as cached if, and only if, there is a place for caches and its file is among
/// those that are there.
pub proof fn law_cached_model_has_its_file(
    loader: ModelLoader,
    revision: RevisionView,
    files: Seq<Vec<String>>,
)
    ensures
        !loader.has_cache_directory ==> !loader.holds(revision, files),
        files.len() == 0 ==> !loader.holds(revision, files),
        forall|i: int|
            #![trigger files[i]]
            0 <= i < files.len() && loader.has_cache_directory && texts(files[i]@)
                == revision_cache_parts(revision, loader.backend) ==> loader.holds(revision, files),
        loader.holds(revision, files) ==> exists|i: int|
            0 <= i < files.len() && texts(#[trigger] files[i]@) == revision_cache_parts(
                revision,
                loader.backend,
            ),
{
}

} // verus!
