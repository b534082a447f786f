//! Plain data about a repository and the parsers for the text that the
//! version-control engine prints.

pub mod parse;
pub mod url;

use vstd::prelude::*;

verus! {

/// Why a repository operation failed.
#[derive(Debug, Clone, PartialEq, Eq)]
pub enum GitError {
    /// A command of the version-control engine failed; the text says how.
    CommandFailed(String),
    /// Output of the version-control engine could not be understood.
    ParseError(String),
}

/// Mathematical model of a [`GitError`].
pub enum GitErrorView {
    CommandFailed(Seq<char>),
    ParseError(Seq<char>),
}

impl View for GitError {
    type V = GitErrorView;

    open spec fn view(&self) -> GitErrorView {
        match self {
            GitError::CommandFailed(m) => GitErrorView::CommandFailed(m@),
            GitError::ParseError(m) => GitErrorView::ParseError(m@),
        }
    }
}

impl GitError {
    /// The text carried by the error.
    pub fn message(&self) -> (m: &str)
        ensures
            m@ == match self@ {
                GitErrorView::CommandFailed(t) => t,
                GitErrorView::ParseError(t) => t,
            },
    {
        match self {
            GitError::CommandFailed(m) => m.as_str(),
            GitError::ParseError(m) => m.as_str(),
        }
    }
}

/// One checked-out working copy, as the engine lists it.
#[derive(Debug, Clone, PartialEq, Eq)]
pub struct Worktree {
    /// Where the working copy lives.
    pub path: String,
    /// The commit it is at.
    pub head: String,
    /// The branch it is on; `None` when detached.
    pub branch: Option<String>,
    pub bare: bool,
    pub detached: bool,
    /// The reason it was locked with, if it is locked.
    pub locked: Option<String>,
    /// The reason it could be pruned for, if any.
    pub prunable: Option<String>,
}

/// Mathematical model of a [`Worktree`].
pub struct WorktreeView {
    pub path: Seq<char>,
    pub head: Seq<char>,
    pub branch: Option<Seq<char>>,
    pub bare: bool,
    pub detached: bool,
    pub locked: Option<Seq<char>>,
    pub prunable: Option<Seq<char>>,
}

/// The view of an optional string.
pub open spec fn opt_view(s: Option<String>) -> Option<Seq<char>> {
    match s {
        Some(t) => Some(t@),
        None => None,
    }
}

impl View for Worktree {
    type V = WorktreeView;

    open spec fn view(&self) -> WorktreeView {
        WorktreeView {
            path: self.path@,
            head: self.head@,
            branch: opt_view(self.branch),
            bare: self.bare,
            detached: self.detached,
            locked: opt_view(self.locked),
            prunable: opt_view(self.prunable),
        }
    }
}

/// A copy of an optional string.
pub fn clone_opt(o: &Option<String>) -> (r: Option<String>)
    ensures
        opt_view(r) == opt_view(*o),
{
    match o {
        Some(s) => Some(s.clone()),
        None => None,
    }
}

impl Worktree {
    /// A copy of the working copy's record.
    pub fn duplicate(&self) -> (r: Worktree)
        ensures
            r@ == self@,
    {
        Worktree {
            path: self.path.clone(),
            head: self.head.clone(),
            branch: clone_opt(&self.branch),
            bare: self.bare,
            detached: self.detached,
            locked: clone_opt(&self.locked),
            prunable: clone_opt(&self.prunable),
        }
    }
}

/// Lines added and lines deleted.
#[derive(Debug, Clone, Copy, PartialEq, Eq, Structural)]
pub struct LineDiff {
    pub added: usize,
    pub deleted: usize,
}

impl LineDiff {
    /// No line added, none deleted.
    pub fn empty() -> (d: LineDiff)
        ensures
            d == (LineDiff { added: 0, deleted: 0 }),
    {
        LineDiff { added: 0, deleted: 0 }
    }

    /// Whether nothing was added or deleted.
    pub fn is_empty(&self) -> (r: bool)
        ensures
            r == (self.added == 0 && self.deleted == 0),
    {
        self.added == 0 && self.deleted == 0
    }
}

} // verus!
