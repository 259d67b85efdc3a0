//! Commits, and the history of a model file as a timeline.

use crate::paths::path_bytes;
use std::path::PathBuf;
use vstd::prelude::*;

verus! {

/// A commit of the history.
pub struct GitCommit {
    pub hash: String,
    pub short_hash: String,
    pub date: String,
    pub subject: String,
}

/// A commit as text.
#[verifier::ext_equal]
pub struct CommitView {
    pub hash: Seq<char>,
    pub short_hash: Seq<char>,
    pub date: Seq<char>,
    pub subject: Seq<char>,
}

impl View for GitCommit {
    type V = CommitView;

    open spec fn view(&self) -> CommitView {
        CommitView {
            hash: self.hash@,
            short_hash: self.short_hash@,
            date: self.date@,
            subject: self.subject@,
        }
    }
}

impl Clone for GitCommit {
    fn clone(&self) -> (copy: Self)
        ensures
            copy@ == self@,
    {
        GitCommit {
            hash: self.hash.clone(),
            short_hash: self.short_hash.clone(),
            date: self.date.clone(),
            subject: self.subject.clone(),
        }
    }
}

/// A model file as it was at one commit.
pub struct GitRevision {
    /// The work tree of the repository.
    pub root: PathBuf,
    /// The model file, relative to `root`.
    pub relative_path: PathBuf,
    pub commit: GitCommit,
}

/// A revision as text, and the bytes of its paths.
#[verifier::ext_equal]
pub struct RevisionView {
    pub root: Seq<u8>,
    pub relative_path: Seq<u8>,
    pub commit: CommitView,
}

impl View for GitRevision {
    type V = RevisionView;

    open spec fn view(&self) -> RevisionView {
        RevisionView {
            root: path_bytes(self.root),
            relative_path: path_bytes(self.relative_path),
            commit: self.commit@,
        }
    }
}

impl Clone for GitRevision {
    fn clone(&self) -> (copy: Self)
        ensures
            copy@ == self@,
    {
        GitRevision {
            root: self.root.clone(),
            relative_path: self.relative_path.clone(),
            commit: self.commit.clone(),
        }
    }
}

/// The history of a model file: a timeline of commits that ends in the work tree.
pub struct GitHistory {
    /// The work tree of the repository.
    pub root: PathBuf,
    /// The model file, relative to `root`.
    pub relative_path: PathBuf,
    pub branches: Vec<String>,
    pub selected_branch: usize,
    /// The commits of the selected branch, the oldest first.
    pub commits: Vec<GitCommit>,
    /// The selected place on the timeline; `commits.len()` is the work tree.
    pub position: usize,
}

/// A history as text and numbers, and the bytes of its paths.
#[verifier::ext_equal]
pub struct HistoryView {
    pub root: Seq<u8>,
    pub relative_path: Seq<u8>,
    pub branches: Seq<Seq<char>>,
    pub selected_branch: int,
    pub commits: Seq<CommitView>,
    pub position: int,
}

impl HistoryView {
    /// A branch is selected, and so is a place on the timeline.
    pub open spec fn wf(self) -> bool {
        &&& 0 <= self.selected_branch < self.branches.len()
        &&& 0 <= self.position <= self.commits.len()
    }

    /// The model at commit number `index`.
    pub open spec fn revision(self, index: int) -> RevisionView {
        RevisionView {
            root: self.root,
            relative_path: self.relative_path,
            commit: self.commits[index],
        }
    }

    /// Whether the work tree is selected, not a commit.
    pub open spec fn shows_worktree(self) -> bool {
        self.position == self.commits.len()
    }

    /// The selected revision: none if the work tree is selected.
    pub open spec fn selected(self) -> Option<RevisionView> {
        if 0 <= self.position < self.commits.len() {
            Some(self.revision(self.position))
        } else {
            None
        }
    }
}

/// The texts of a list of strings.
pub open spec fn texts(list: Seq<String>) -> Seq<Seq<char>> {
    list.map_values(|s: String| s@)
}

/// The views of a list of commits.
pub open spec fn commit_views(list: Seq<GitCommit>) -> Seq<CommitView> {
    list.map_values(|c: GitCommit| c@)
}

impl View for GitHistory {
    type V = HistoryView;

    open spec fn view(&self) -> HistoryView {
        HistoryView {
            root: path_bytes(self.root),
            relative_path: path_bytes(self.relative_path),
            branches: texts(self.branches@),
            selected_branch: self.selected_branch as int,
            commits: commit_views(self.commits@),
            position: self.position as int,
        }
    }
}

/// The view of an optional revision.
pub open spec fn revision_view(revision: Option<GitRevision>) -> Option<RevisionView> {
    match revision {
        Some(revision) => Some(revision@),
        None => None,
    }
}

impl GitHistory {
    /// The model at commit number `index`.
    pub fn revision_at(&self, index: usize) -> (revision: GitRevision)
        requires
            index < self.commits@.len(),
        ensures
            revision@ == self@.revision(index as int),
    {
        GitRevision {
            root: self.root.clone(),
            relative_path: self.relative_path.clone(),
            commit: self.commits[index].clone(),
        }
    }

    /// The selected revision, or none if the work tree is selected.
    pub fn selected_revision(&self) -> (revision: Option<GitRevision>)
        ensures
            revision_view(revision) == self@.selected(),
    {
        if self.position < self.commits.len() {
            Some(self.revision_at(self.position))
        } else {
            None
        }
    }
}

/// A history is known by what its fields hold: the bytes of its paths, the texts of its branches
/// and of its commits, in their order, and the two places.
pub proof fn law_history_is_what_it_holds(history: GitHistory)
    ensures
        history@.root == path_bytes(history.root),
        history@.relative_path == path_bytes(history.relative_path),
        history@.branches.len() == history.branches@.len(),
        forall|i: int|
            0 <= i < history.branches@.len() ==> #[trigger] history@.branches[i]
                == history.branches@[i]@,
        history@.selected_branch == history.selected_branch,
        history@.commits.len() == history.commits@.len(),
        forall|i: int|
            0 <= i < history.commits@.len() ==> (#[trigger] history@.commits[i])
                == history.commits@[i]@,
        history@.position == history.position,
{
}

/// A commit is known by its four texts, and a revision by the bytes of its paths and its commit.
pub proof fn law_revision_is_what_it_holds(revision: GitRevision)
    ensures
        revision@.root == path_bytes(revision.root),
        revision@.relative_path == path_bytes(revision.relative_path),
        revision@.commit.hash == revision.commit.hash@,
        revision@.commit.short_hash == revision.commit.short_hash@,
        revision@.commit.date == revision.commit.date@,
        revision@.commit.subject == revision.commit.subject@,
        revision_view(Some(revision)) == Some(revision@),
        revision_view(None) is None,
{
}

/// A list of strings is known by their texts, in the same order.
pub proof fn law_texts_are_in_order(list: Seq<String>, i: int)
    ensures
        texts(list).len() == list.len(),
        0 <= i < list.len() ==> texts(list)[i] == list[i]@,
{
}

/// The selected revision is the commit at the selected place, of the same file in the same
/// repository; none is selected if, and only if, that place is behind the commits, and the work
/// tree is shown right behind the last.
pub proof fn law_selected_place_is_the_revision(history: HistoryView)
    requires
        history.position >= 0,
    ensures
        history.shows_worktree() <==> history.position == history.commits.len(),
        match history.selected() {
            Some(revision) => {
                &&& history.position < history.commits.len()
                &&& revision.commit == history.commits[history.position]
                &&& revision.root == history.root
                &&& revision.relative_path == history.relative_path
            },
            None => history.position >= history.commits.len(),
        },
{
}

/// The revision of each commit is of the file and the repository of the history.
pub proof fn law_revision_of_a_commit(history: HistoryView, index: int)
    ensures
        history.revision(index).commit == history.commits[index],
        history.revision(index).root == history.root,
        history.revision(index).relative_path == history.relative_path,
{
}

} // verus!
