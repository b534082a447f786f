//! Update messages: one freshly gathered cell of one row.

use vstd::prelude::*;
use crate::git::{opt_view, LineDiff};
use crate::commands::list::ci_status::PrStatus;
use crate::commands::list::{
    AheadBehind, BranchDiffTotals, CommitDetails, CommitDetailsView, UpstreamStatus,
    UpstreamStatusView, no_upstream,
};

verus! {

/// The cells of a row that are gathered independently of each other.
#[derive(Debug, Clone, Copy, PartialEq, Eq, Structural)]
pub enum CellKind {
    CommitDetails,
    AheadBehind,
    BranchDiff,
    WorkingTreeDiff,
    Conflicts,
    WorktreeState,
    UserStatus,
    Upstream,
    CiStatus,
}

/// The value of one cell of the row with index `item_idx`.
#[derive(Debug, Clone, PartialEq, Eq)]
#[allow(inconsistent_fields)]
pub enum CellUpdate {
    CommitDetails { item_idx: usize, commit: CommitDetails },
    AheadBehind { item_idx: usize, counts: AheadBehind },
    BranchDiff { item_idx: usize, branch_diff: BranchDiffTotals },
    WorkingTreeDiff {
        item_idx: usize,
        working_tree_diff: LineDiff,
        working_tree_diff_with_main: Option<LineDiff>,
        working_tree_symbols: String,
        is_dirty: bool,
    },
    Conflicts { item_idx: usize, has_conflicts: bool },
    WorktreeState { item_idx: usize, worktree_state: Option<String> },
    UserStatus { item_idx: usize, user_status: Option<String> },
    Upstream { item_idx: usize, upstream: UpstreamStatus },
    CiStatus { item_idx: usize, pr_status: Option<PrStatus> },
}

/// Mathematical model of a [`CellUpdate`].
#[allow(inconsistent_fields)]
pub enum CellUpdateView {
    CommitDetails { item_idx: usize, commit: CommitDetailsView },
    AheadBehind { item_idx: usize, counts: AheadBehind },
    BranchDiff { item_idx: usize, branch_diff: BranchDiffTotals },
    WorkingTreeDiff {
        item_idx: usize,
        working_tree_diff: LineDiff,
        working_tree_diff_with_main: Option<LineDiff>,
        working_tree_symbols: Seq<char>,
        is_dirty: bool,
    },
    Conflicts { item_idx: usize, has_conflicts: bool },
    WorktreeState { item_idx: usize, worktree_state: Option<Seq<char>> },
    UserStatus { item_idx: usize, user_status: Option<Seq<char>> },
    Upstream { item_idx: usize, upstream: UpstreamStatusView },
    CiStatus { item_idx: usize, pr_status: Option<PrStatus> },
}

impl View for CellUpdate {
    type V = CellUpdateView;

    open spec fn view(&self) -> CellUpdateView {
        match self {
            CellUpdate::CommitDetails { item_idx, commit } => CellUpdateView::CommitDetails {
                item_idx: *item_idx,
                commit: commit@,
            },
            CellUpdate::AheadBehind { item_idx, counts } => CellUpdateView::AheadBehind {
                item_idx: *item_idx,
                counts: *counts,
            },
            CellUpdate::BranchDiff { item_idx, branch_diff } => CellUpdateView::BranchDiff {
                item_idx: *item_idx,
                branch_diff: *branch_diff,
            },
            CellUpdate::WorkingTreeDiff {
                item_idx,
                working_tree_diff,
                working_tree_diff_with_main,
                working_tree_symbols,
                is_dirty,
            } => CellUpdateView::WorkingTreeDiff {
                item_idx: *item_idx,
                working_tree_diff: *working_tree_diff,
                working_tree_diff_with_main: *working_tree_diff_with_main,
                working_tree_symbols: working_tree_symbols@,
                is_dirty: *is_dirty,
            },
            CellUpdate::Conflicts { item_idx, has_conflicts } => CellUpdateView::Conflicts {
                item_idx: *item_idx,
                has_conflicts: *has_conflicts,
            },
            CellUpdate::WorktreeState { item_idx, worktree_state } => CellUpdateView::WorktreeState {
                item_idx: *item_idx,
                worktree_state: opt_view(*worktree_state),
            },
            CellUpdate::UserStatus { item_idx, user_status } => CellUpdateView::UserStatus {
                item_idx: *item_idx,
                user_status: opt_view(*user_status),
            },
            CellUpdate::Upstream { item_idx, upstream } => CellUpdateView::Upstream {
                item_idx: *item_idx,
                upstream: upstream@,
            },
            CellUpdate::CiStatus { item_idx, pr_status } => CellUpdateView::CiStatus {
                item_idx: *item_idx,
                pr_status: *pr_status,
            },
        }
    }
}

impl CellUpdateView {
    /// The row that the update is for.
    pub open spec fn item_idx(self) -> usize {
        match self {
            CellUpdateView::CommitDetails { item_idx, .. } => item_idx,
            CellUpdateView::AheadBehind { item_idx, .. } => item_idx,
            CellUpdateView::BranchDiff { item_idx, .. } => item_idx,
            CellUpdateView::WorkingTreeDiff { item_idx, .. } => item_idx,
            CellUpdateView::Conflicts { item_idx, .. } => item_idx,
            CellUpdateView::WorktreeState { item_idx, .. } => item_idx,
            CellUpdateView::UserStatus { item_idx, .. } => item_idx,
            CellUpdateView::Upstream { item_idx, .. } => item_idx,
            CellUpdateView::CiStatus { item_idx, .. } => item_idx,
        }
    }

    /// The cell that the update fills.
    pub open spec fn kind(self) -> CellKind {
        match self {
            CellUpdateView::CommitDetails { .. } => CellKind::CommitDetails,
            CellUpdateView::AheadBehind { .. } => CellKind::AheadBehind,
            CellUpdateView::BranchDiff { .. } => CellKind::BranchDiff,
            CellUpdateView::WorkingTreeDiff { .. } => CellKind::WorkingTreeDiff,
            CellUpdateView::Conflicts { .. } => CellKind::Conflicts,
            CellUpdateView::WorktreeState { .. } => CellKind::WorktreeState,
            CellUpdateView::UserStatus { .. } => CellKind::UserStatus,
            CellUpdateView::Upstream { .. } => CellKind::Upstream,
            CellUpdateView::CiStatus { .. } => CellKind::CiStatus,
        }
    }
}

/// The value a cell takes when its query is skipped or fails: zero counts, an
/// empty diff, no state, no status.
pub open spec fn default_update(kind: CellKind, item_idx: usize) -> CellUpdateView {
    match kind {
        CellKind::CommitDetails => CellUpdateView::CommitDetails {
            item_idx,
            commit: CommitDetailsView { timestamp: 0, commit_message: Seq::empty() },
        },
        CellKind::AheadBehind => CellUpdateView::AheadBehind {
            item_idx,
            counts: AheadBehind { ahead: 0, behind: 0 },
        },
        CellKind::BranchDiff => CellUpdateView::BranchDiff {
            item_idx,
            branch_diff: BranchDiffTotals { diff: LineDiff { added: 0, deleted: 0 } },
        },
        CellKind::WorkingTreeDiff => CellUpdateView::WorkingTreeDiff {
            item_idx,
            working_tree_diff: LineDiff { added: 0, deleted: 0 },
            working_tree_diff_with_main: None,
            working_tree_symbols: Seq::empty(),
            is_dirty: false,
        },
        CellKind::Conflicts => CellUpdateView::Conflicts { item_idx, has_conflicts: false },
        CellKind::WorktreeState => CellUpdateView::WorktreeState { item_idx, worktree_state: None },
        CellKind::UserStatus => CellUpdateView::UserStatus { item_idx, user_status: None },
        CellKind::Upstream => CellUpdateView::Upstream { item_idx, upstream: no_upstream() },
        CellKind::CiStatus => CellUpdateView::CiStatus { item_idx, pr_status: None },
    }
}

impl CellUpdate {
    /// The row that the update is for.
    pub fn item_idx(&self) -> (r: usize)
        ensures
            r == self@.item_idx(),
    {
        match self {
            CellUpdate::CommitDetails { item_idx, .. } => *item_idx,
            CellUpdate::AheadBehind { item_idx, .. } => *item_idx,
            CellUpdate::BranchDiff { item_idx, .. } => *item_idx,
            CellUpdate::WorkingTreeDiff { item_idx, .. } => *item_idx,
            CellUpdate::Conflicts { item_idx, .. } => *item_idx,
            CellUpdate::WorktreeState { item_idx, .. } => *item_idx,
            CellUpdate::UserStatus { item_idx, .. } => *item_idx,
            CellUpdate::Upstream { item_idx, .. } => *item_idx,
            CellUpdate::CiStatus { item_idx, .. } => *item_idx,
        }
    }

    /// The cell that the update fills.
    pub fn kind(&self) -> (r: CellKind)
        ensures
            r == self@.kind(),
    {
        match self {
            CellUpdate::CommitDetails { .. } => CellKind::CommitDetails,
            CellUpdate::AheadBehind { .. } => CellKind::AheadBehind,
            CellUpdate::BranchDiff { .. } => CellKind::BranchDiff,
            CellUpdate::WorkingTreeDiff { .. } => CellKind::WorkingTreeDiff,
            CellUpdate::Conflicts { .. } => CellKind::Conflicts,
            CellUpdate::WorktreeState { .. } => CellKind::WorktreeState,
            CellUpdate::UserStatus { .. } => CellKind::UserStatus,
            CellUpdate::Upstream { .. } => CellKind::Upstream,
            CellUpdate::CiStatus { .. } => CellKind::CiStatus,
        }
    }

    /// The update that carries the default value of a cell.
    pub fn default_for(kind: CellKind, item_idx: usize) -> (u: CellUpdate)
        ensures
            u@ == default_update(kind, item_idx),
    {
        match kind {
            CellKind::CommitDetails => CellUpdate::CommitDetails {
                item_idx,
                commit: CommitDetails::absent(),
            },
            CellKind::AheadBehind => CellUpdate::AheadBehind {
                item_idx,
                counts: AheadBehind::level(),
            },
            CellKind::BranchDiff => CellUpdate::BranchDiff {
                item_idx,
                branch_diff: BranchDiffTotals::none(),
            },
            CellKind::WorkingTreeDiff => CellUpdate::WorkingTreeDiff {
                item_idx,
                working_tree_diff: LineDiff::empty(),
                working_tree_diff_with_main: None,
                working_tree_symbols: String::new(),
                is_dirty: false,
            },
            CellKind::Conflicts => CellUpdate::Conflicts { item_idx, has_conflicts: false },
            CellKind::WorktreeState => CellUpdate::WorktreeState { item_idx, worktree_state: None },
            CellKind::UserStatus => CellUpdate::UserStatus { item_idx, user_status: None },
            CellKind::Upstream => CellUpdate::Upstream {
                item_idx,
                upstream: UpstreamStatus::untracked(),
            },
            CellKind::CiStatus => CellUpdate::CiStatus { item_idx, pr_status: None },
        }
    }
}

} // verus!
