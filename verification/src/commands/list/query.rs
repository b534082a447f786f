//! The questions that are asked of the repository and the answers to them.

use vstd::prelude::*;
use crate::commands::list::ci_status::PrStatus;
use crate::git::{opt_view, LineDiff};

verus! {

/// One question to the repository, asked at the working copy of the task's
/// subject.
#[derive(Debug, Clone, PartialEq, Eq)]
#[allow(inconsistent_fields)]
pub enum Query {
    /// When was `head` committed?
    CommitTimestamp { head: String },
    /// What is the message of `head`?
    CommitMessage { head: String },
    /// How many commits is `head` ahead of and behind `base`?
    AheadBehind { base: String, head: String },
    /// How many lines does `head` add to and delete from `base`?
    BranchDiffStats { base: String, head: String },
    /// The short status listing of the working tree.
    Status,
    /// How many lines does the working tree add to and delete from its commit?
    WorkingTreeDiffStats,
    /// How many lines does the working tree add to and delete from `base`?
    WorkingTreeDiffWithBase { base: Option<String>, is_dirty: bool },
    /// Would merging `head` into `base` conflict?
    HasMergeConflicts { base: String, head: String },
    /// Is a merge, a rebase or the like under way?
    WorktreeState,
    /// The note that the user attached to `branch`.
    UserStatus { branch: Option<String> },
    /// Which remote branch does `branch` track?
    UpstreamBranch { branch: String },
    /// Where is the root of the working copy?
    WorktreeRoot,
    /// What does the continuous-integration service say of `branch` at `head`?
    PrStatus { branch: String, head: String, repo_path: String },
}

/// Mathematical model of a [`Query`].
#[allow(inconsistent_fields)]
pub enum QueryView {
    CommitTimestamp { head: Seq<char> },
    CommitMessage { head: Seq<char> },
    AheadBehind { base: Seq<char>, head: Seq<char> },
    BranchDiffStats { base: Seq<char>, head: Seq<char> },
    Status,
    WorkingTreeDiffStats,
    WorkingTreeDiffWithBase { base: Option<Seq<char>>, is_dirty: bool },
    HasMergeConflicts { base: Seq<char>, head: Seq<char> },
    WorktreeState,
    UserStatus { branch: Option<Seq<char>> },
    UpstreamBranch { branch: Seq<char> },
    WorktreeRoot,
    PrStatus { branch: Seq<char>, head: Seq<char>, repo_path: Seq<char> },
}

impl View for Query {
    type V = QueryView;

    open spec fn view(&self) -> QueryView {
        match self {
            Query::CommitTimestamp { head } => QueryView::CommitTimestamp { head: head@ },
            Query::CommitMessage { head } => QueryView::CommitMessage { head: head@ },
            Query::AheadBehind { base, head } => QueryView::AheadBehind {
                base: base@,
                head: head@,
            },
            Query::BranchDiffStats { base, head } => QueryView::BranchDiffStats {
                base: base@,
                head: head@,
            },
            Query::Status => QueryView::Status,
            Query::WorkingTreeDiffStats => QueryView::WorkingTreeDiffStats,
            Query::WorkingTreeDiffWithBase { base, is_dirty } => QueryView::WorkingTreeDiffWithBase {
                base: opt_view(*base),
                is_dirty: *is_dirty,
            },
            Query::HasMergeConflicts { base, head } => QueryView::HasMergeConflicts {
                base: base@,
                head: head@,
            },
            Query::WorktreeState => QueryView::WorktreeState,
            Query::UserStatus { branch } => QueryView::UserStatus { branch: opt_view(*branch) },
            Query::UpstreamBranch { branch } => QueryView::UpstreamBranch { branch: branch@ },
            Query::WorktreeRoot => QueryView::WorktreeRoot,
            Query::PrStatus { branch, head, repo_path } => QueryView::PrStatus {
                branch: branch@,
                head: head@,
                repo_path: repo_path@,
            },
        }
    }
}

/// What the repository answered to a query.
#[derive(Debug, Clone, PartialEq, Eq)]
#[allow(inconsistent_fields)]
pub enum Reply {
    /// The query failed; the text says how.
    Failed(String),
    Timestamp(i64),
    Text(String),
    /// Commits ahead and commits behind.
    Counts(usize, usize),
    Diff(LineDiff),
    MaybeDiff(Option<LineDiff>),
    Flag(bool),
    MaybeText(Option<String>),
    Ci(Option<PrStatus>),
}

/// Mathematical model of a [`Reply`].
#[allow(inconsistent_fields)]
pub enum ReplyView {
    Failed(Seq<char>),
    Timestamp(i64),
    Text(Seq<char>),
    Counts(usize, usize),
    Diff(LineDiff),
    MaybeDiff(Option<LineDiff>),
    Flag(bool),
    MaybeText(Option<Seq<char>>),
    Ci(Option<PrStatus>),
}

impl View for Reply {
    type V = ReplyView;

    open spec fn view(&self) -> ReplyView {
        match self {
            Reply::Failed(e) => ReplyView::Failed(e@),
            Reply::Timestamp(t) => ReplyView::Timestamp(*t),
            Reply::Text(t) => ReplyView::Text(t@),
            Reply::Counts(a, b) => ReplyView::Counts(*a, *b),
            Reply::Diff(d) => ReplyView::Diff(*d),
            Reply::MaybeDiff(d) => ReplyView::MaybeDiff(*d),
            Reply::Flag(b) => ReplyView::Flag(*b),
            Reply::MaybeText(t) => ReplyView::MaybeText(opt_view(*t)),
            Reply::Ci(s) => ReplyView::Ci(*s),
        }
    }
}

} // verus!
