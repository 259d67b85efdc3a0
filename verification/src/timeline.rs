//! What the timeline shows of a history.

use crate::revision::{GitCommit, GitHistory, HistoryView};
use vstd::prelude::*;

verus! {

/// How a point of the timeline looks.
#[derive(Clone, Copy, Debug, Eq, PartialEq, Structural)]
pub enum PointKind {
    /// The selected place, be it a commit or the work tree.
    Selected,
    /// The work tree.
    Worktree,
    /// A commit whose model is in the disk cache.
    Cached,
    /// Another commit.
    Plain,
}

/// How point number `index` looks.
pub open spec fn point_kind(history: HistoryView, index: int, cached: bool) -> PointKind {
    if index == history.position {
        PointKind::Selected
    } else if index == history.commits.len() {
        PointKind::Worktree
    } else if 0 <= index < history.commits.len() && cached {
        PointKind::Cached
    } else {
        PointKind::Plain
    }
}

/// What the timeline says of the selection.
pub enum Caption {
    /// The work tree is selected.
    Worktree,
    /// This commit is selected.
    Commit(GitCommit),
    /// Neither.
    NoHistory,
}

impl GitHistory {
    /// How point number `index` looks. `cached` tells whether the disk cache holds the model of
    /// that commit.
    pub fn point(&self, index: usize, cached: bool) -> (kind: PointKind)
        ensures
            kind == point_kind(self@, index as int, cached),
    {
        if index == self.position {
            PointKind::Selected
        } else if index == self.commits.len() {
            PointKind::Worktree
        } else if index < self.commits.len() && cached {
            PointKind::Cached
        } else {
            PointKind::Plain
        }
    }

    /// What the timeline says of the selection.
    pub fn caption(&self) -> (caption: Caption)
        ensures
            match caption {
                Caption::Worktree => self@.shows_worktree(),
                Caption::Commit(commit) => 0 <= self@.position < self@.commits.len() && commit@
                    == self@.commits[self@.position],
                Caption::NoHistory => self@.position > self@.commits.len(),
            },
    {
        if self.position == self.commits.len() {
            Caption::Worktree
        } else if self.position < self.commits.len() {
            Caption::Commit(self.commits[self.position].clone())
        } else {
            Caption::NoHistory
        }
    }

    /// The branch whose commits are the timeline: the selected one, if there is such a branch.
    pub fn branch_to_walk(&self) -> (name: Option<String>)
        ensures
            match name {
                Some(name) => self@.selected_branch < self@.branches.len() && name@
                    == self@.branches[self@.selected_branch],
                None => self@.selected_branch >= self@.branches.len(),
            },
    {
        if self.selected_branch < self.branches.len() {
            Some(self.branches[self.selected_branch].clone())
        } else {
            None
        }
    }

    /// What the timeline calls the selected branch.
    pub fn branch_label(&self) -> (label: String)
        ensures
            label@ == (if self@.selected_branch < self@.branches.len() {
                self@.branches[self@.selected_branch]
            } else {
                "不明"@
            }),
    {
        if self.selected_branch < self.branches.len() {
            self.branches[self.selected_branch].clone()
        } else {
            "不明".to_owned()
        }
    }
}

/// The point at the right end, behind all commits, is the work tree, and the selected place is
/// the work tree if and only if no commit is selected.
pub proof fn law_worktree_ends_the_timeline(history: HistoryView, cached: bool)
    requires
        history.wf(),
    ensures
        history.selected() is None <==> history.shows_worktree(),
        !history.shows_worktree() ==> point_kind(history, history.commits.len() as int, cached)
            == PointKind::Worktree,
{
}

/// A point of the timeline is marked as selected if, and only if, it is the selected place. Of the
/// others, the one behind all commits is the work tree, and a commit is marked as cached if, and
/// only if, the disk cache has its model.
pub proof fn law_point_tells_its_place(history: HistoryView, index: int, cached: bool)
    requires
        0 <= index,
    ensures
        index != history.position && index > history.commits.len() ==> point_kind(
            history,
            index,
            cached,
        ) is Plain,
        point_kind(history, index, cached) is Selected <==> index == history.position,
        index != history.position ==> (point_kind(history, index, cached) is Worktree <==> index
            == history.commits.len()),
        index != history.position && index < history.commits.len() ==> (point_kind(
            history,
            index,
            cached,
        ) is Cached <==> cached),
        index != history.position && index < history.commits.len() ==> (point_kind(
            history,
            index,
            cached,
        ) is Plain <==> !cached),
{
}

} // verus!
