//! The rows of the table while updates arrive: each row knows which of its
//! cells have arrived, so that a default value is never taken for one that is
//! still awaited.

use vstd::prelude::*;
use crate::commands::list::collect::{CellKind, CellUpdate, CellUpdateView};
use crate::commands::list::{BranchInfoView, ListItem, ListItemView, WorktreeInfoView};

verus! {

/// Which cells of a row have arrived.
#[derive(Debug, Clone, Copy, PartialEq, Eq, Structural)]
pub struct CellFlags {
    pub commit: bool,
    pub counts: bool,
    pub branch_diff: bool,
    pub working_tree: bool,
    pub conflicts: bool,
    pub state: bool,
    pub user_status: bool,
    pub upstream: bool,
    pub ci: bool,
}

/// 1 for a cell that has arrived, 0 for one that has not.
pub open spec fn one_if(b: bool) -> int {
    if b {
        1
    } else {
        0
    }
}

/// How many of three cells have arrived.
pub open spec fn sum3(a: bool, b: bool, c: bool) -> int {
    one_if(a) + one_if(b) + one_if(c)
}

impl CellFlags {
    /// No cell has arrived.
    pub open spec fn none_spec() -> CellFlags {
        CellFlags {
            commit: false,
            counts: false,
            branch_diff: false,
            working_tree: false,
            conflicts: false,
            state: false,
            user_status: false,
            upstream: false,
            ci: false,
        }
    }

    /// Whether the cell `kind` has arrived.
    pub open spec fn has_spec(self, kind: CellKind) -> bool {
        match kind {
            CellKind::CommitDetails => self.commit,
            CellKind::AheadBehind => self.counts,
            CellKind::BranchDiff => self.branch_diff,
            CellKind::WorkingTreeDiff => self.working_tree,
            CellKind::Conflicts => self.conflicts,
            CellKind::WorktreeState => self.state,
            CellKind::UserStatus => self.user_status,
            CellKind::Upstream => self.upstream,
            CellKind::CiStatus => self.ci,
        }
    }

    /// The flags with the cell `kind` marked as arrived.
    pub open spec fn with_spec(self, kind: CellKind) -> CellFlags {
        match kind {
            CellKind::CommitDetails => CellFlags { commit: true, ..self },
            CellKind::AheadBehind => CellFlags { counts: true, ..self },
            CellKind::BranchDiff => CellFlags { branch_diff: true, ..self },
            CellKind::WorkingTreeDiff => CellFlags { working_tree: true, ..self },
            CellKind::Conflicts => CellFlags { conflicts: true, ..self },
            CellKind::WorktreeState => CellFlags { state: true, ..self },
            CellKind::UserStatus => CellFlags { user_status: true, ..self },
            CellKind::Upstream => CellFlags { upstream: true, ..self },
            CellKind::CiStatus => CellFlags { ci: true, ..self },
        }
    }

    /// How many cells have arrived.
    pub open spec fn count_spec(self) -> int {
        sum3(self.commit, self.counts, self.branch_diff) + sum3(
            self.conflicts,
            self.upstream,
            self.ci,
        ) + sum3(self.working_tree, self.state, self.user_status)
    }

    /// No cell has arrived.
    pub fn none() -> (f: CellFlags)
        ensures
            f == CellFlags::none_spec(),
    {
        CellFlags {
            commit: false,
            counts: false,
            branch_diff: false,
            working_tree: false,
            conflicts: false,
            state: false,
            user_status: false,
            upstream: false,
            ci: false,
        }
    }

    /// Whether the cell `kind` has arrived.
    pub fn has(&self, kind: CellKind) -> (r: bool)
        ensures
            r == self.has_spec(kind),
    {
        match kind {
            CellKind::CommitDetails => self.commit,
            CellKind::AheadBehind => self.counts,
            CellKind::BranchDiff => self.branch_diff,
            CellKind::WorkingTreeDiff => self.working_tree,
            CellKind::Conflicts => self.conflicts,
            CellKind::WorktreeState => self.state,
            CellKind::UserStatus => self.user_status,
            CellKind::Upstream => self.upstream,
            CellKind::CiStatus => self.ci,
        }
    }

    /// Marks the cell `kind` as arrived.
    pub fn mark(&mut self, kind: CellKind)
        ensures
            *final(self) == old(self).with_spec(kind),
    {
        match kind {
            CellKind::CommitDetails => self.commit = true,
            CellKind::AheadBehind => self.counts = true,
            CellKind::BranchDiff => self.branch_diff = true,
            CellKind::WorkingTreeDiff => self.working_tree = true,
            CellKind::Conflicts => self.conflicts = true,
            CellKind::WorktreeState => self.state = true,
            CellKind::UserStatus => self.user_status = true,
            CellKind::Upstream => self.upstream = true,
            CellKind::CiStatus => self.ci = true,
        }
    }

    /// How many cells have arrived.
    pub fn count(&self) -> (n: usize)
        ensures
            n == self.count_spec(),
            n <= 9,
    {
        let shared: usize = bit3(self.commit, self.counts, self.branch_diff) + bit3(
            self.conflicts,
            self.upstream,
            self.ci,
        );
        shared + bit3(self.working_tree, self.state, self.user_status)
    }
}

fn bit3(a: bool, b: bool, c: bool) -> (n: usize)
    ensures
        n == sum3(a, b, c),
        n <= 3,
{
    let x: usize = if a {
        1
    } else {
        0
    };
    let y: usize = if b {
        1
    } else {
        0
    };
    let z: usize = if c {
        1
    } else {
        0
    };
    x + y + z
}

/// Whether the cell `kind` is gathered for `item`. A working copy has all
/// nine cells; a branch has none of the three that describe a working tree.
pub open spec fn expects(item: ListItemView, kind: CellKind) -> bool {
    match item {
        ListItemView::Worktree(_) => true,
        ListItemView::Branch(_) => match kind {
            CellKind::WorkingTreeDiff => false,
            CellKind::WorktreeState => false,
            CellKind::UserStatus => false,
            _ => true,
        },
    }
}

/// How many cells are gathered for `item`.
pub open spec fn expected_count(item: ListItemView) -> int {
    match item {
        ListItemView::Worktree(_) => 9,
        ListItemView::Branch(_) => 6,
    }
}

/// `item` with the value of `update` written into its cell. A cell that the
/// item does not have is not written.
pub open spec fn write_cell(item: ListItemView, update: CellUpdateView) -> ListItemView {
    match item {
        ListItemView::Worktree(wt) => ListItemView::Worktree(
            match update {
                CellUpdateView::CommitDetails { commit, .. } => WorktreeInfoView {
                    commit,
                    ..wt
                },
                CellUpdateView::AheadBehind { counts, .. } => WorktreeInfoView {
                    counts,
                    ..wt
                },
                CellUpdateView::BranchDiff {
                    branch_diff,
                    ..
                } => WorktreeInfoView { branch_diff, ..wt },
                CellUpdateView::WorkingTreeDiff {
                    working_tree_diff,
                    working_tree_diff_with_main,
                    working_tree_symbols,
                    is_dirty,
                    ..
                } => WorktreeInfoView {
                    working_tree_diff,
                    working_tree_diff_with_main,
                    working_tree_symbols,
                    is_dirty,
                    ..wt
                },
                CellUpdateView::Conflicts {
                    has_conflicts,
                    ..
                } => WorktreeInfoView { has_conflicts, ..wt },
                CellUpdateView::WorktreeState {
                    worktree_state,
                    ..
                } => WorktreeInfoView { worktree_state, ..wt },
                CellUpdateView::UserStatus {
                    user_status,
                    ..
                } => WorktreeInfoView { user_status, ..wt },
                CellUpdateView::Upstream { upstream, .. } => WorktreeInfoView {
                    upstream,
                    ..wt
                },
                CellUpdateView::CiStatus { pr_status, .. } => WorktreeInfoView {
                    pr_status,
                    ..wt
                },
            },
        ),
        ListItemView::Branch(br) => ListItemView::Branch(
            match update {
                CellUpdateView::CommitDetails { commit, .. } => BranchInfoView {
                    commit,
                    ..br
                },
                CellUpdateView::AheadBehind { counts, .. } => BranchInfoView {
                    counts,
                    ..br
                },
                CellUpdateView::BranchDiff {
                    branch_diff,
                    ..
                } => BranchInfoView { branch_diff, ..br },
                CellUpdateView::Conflicts {
                    has_conflicts,
                    ..
                } => BranchInfoView { has_conflicts, ..br },
                CellUpdateView::Upstream { upstream, .. } => BranchInfoView {
                    upstream,
                    ..br
                },
                CellUpdateView::CiStatus { pr_status, .. } => BranchInfoView {
                    pr_status,
                    ..br
                },
                _ => br,
            },
        ),
    }
}

/// Writes the value of `update` into its cell of `item`.
pub fn write_into(item: &mut ListItem, update: CellUpdate)
    ensures
        final(item)@ == write_cell(old(item)@, update@),
{
    match item {
        ListItem::Worktree(wt) => match update {
            CellUpdate::CommitDetails { commit, .. } => {
                wt.commit = commit;
            },
            CellUpdate::AheadBehind { counts, .. } => {
                wt.counts = counts;
            },
            CellUpdate::BranchDiff { branch_diff, .. } => {
                wt.branch_diff = branch_diff;
            },
            CellUpdate::WorkingTreeDiff {
                working_tree_diff,
                working_tree_diff_with_main,
                working_tree_symbols,
                is_dirty,
                ..
            } => {
                wt.working_tree_diff = working_tree_diff;
                wt.working_tree_diff_with_main = working_tree_diff_with_main;
                wt.working_tree_symbols = working_tree_symbols;
                wt.is_dirty = is_dirty;
            },
            CellUpdate::Conflicts { has_conflicts, .. } => {
                wt.has_conflicts = has_conflicts;
            },
            CellUpdate::WorktreeState { worktree_state, .. } => {
                wt.worktree_state = worktree_state;
            },
            CellUpdate::UserStatus { user_status, .. } => {
                wt.user_status = user_status;
            },
            CellUpdate::Upstream { upstream, .. } => {
                wt.upstream = upstream;
            },
            CellUpdate::CiStatus { pr_status, .. } => {
                wt.pr_status = pr_status;
            },
        },
        ListItem::Branch(br) => match update {
            CellUpdate::CommitDetails { commit, .. } => {
                br.commit = commit;
            },
            CellUpdate::AheadBehind { counts, .. } => {
                br.counts = counts;
            },
            CellUpdate::BranchDiff { branch_diff, .. } => {
                br.branch_diff = branch_diff;
            },
            CellUpdate::Conflicts { has_conflicts, .. } => {
                br.has_conflicts = has_conflicts;
            },
            CellUpdate::Upstream { upstream, .. } => {
                br.upstream = upstream;
            },
            CellUpdate::CiStatus { pr_status, .. } => {
                br.pr_status = pr_status;
            },
            _ => {},
        },
    }
}

// ---------------------------------------------------------------------------
// Rows
// ---------------------------------------------------------------------------

/// One row of the table: the item and which of its cells have arrived. A cell
/// that has not arrived holds its default value; the flags tell the two apart.
#[derive(Debug, Clone, PartialEq, Eq)]
pub struct Row {
    pub item: ListItem,
    pub received: CellFlags,
}

/// Mathematical model of a [`Row`].
pub struct RowView {
    pub item: ListItemView,
    pub received: CellFlags,
}

impl View for Row {
    type V = RowView;

    open spec fn view(&self) -> RowView {
        RowView { item: self.item@, received: self.received }
    }
}

/// Where a row stands: still waiting, with so many cells filled, or complete.
#[derive(Debug, Clone, Copy, PartialEq, Eq, Structural)]
pub enum RowState {
    Pending(usize),
    Complete,
}

impl RowView {
    /// Only cells that the item has are marked as arrived.
    pub open spec fn wf(self) -> bool {
        self.item is Branch ==> !self.received.working_tree && !self.received.state
            && !self.received.user_status
    }

    /// How many cells of the row have arrived.
    pub open spec fn filled(self) -> int {
        self.received.count_spec()
    }

    /// Whether every cell of the row has arrived.
    pub open spec fn is_complete(self) -> bool {
        let f = self.received;
        &&& f.commit && f.counts && f.branch_diff && f.conflicts && f.upstream && f.ci
        &&& self.item is Worktree ==> f.working_tree && f.state && f.user_status
    }

    /// The row's state.
    pub open spec fn state(self) -> RowState {
        if self.is_complete() {
            RowState::Complete
        } else {
            RowState::Pending(self.filled() as usize)
        }
    }
}

proof fn lemma_three(a: bool, b: bool, c: bool)
    ensures
        0 <= sum3(a, b, c) <= 3,
        sum3(a, b, c) == 3 <==> a && b && c,
{
}

/// A row has had as many cells as its kind has exactly when none is missing,
/// and never more.
pub proof fn lemma_row_complete(row: RowView)
    requires
        row.wf(),
    ensures
        0 <= row.filled() <= expected_count(row.item),
        row.is_complete() <==> row.filled() == expected_count(row.item),
{
    let f = row.received;
    lemma_three(f.commit, f.counts, f.branch_diff);
    lemma_three(f.conflicts, f.upstream, f.ci);
    lemma_three(f.working_tree, f.state, f.user_status);
}

/// The marked cells of a row are cells that its item has, and the row is
/// complete exactly when every cell that its item has is marked.
pub proof fn lemma_row_cells(row: RowView)
    requires
        row.wf(),
    ensures
        forall|kind: CellKind| row.received.has_spec(kind) ==> expects(row.item, kind),
        row.is_complete() <==> forall|kind: CellKind|
            expects(row.item, kind) ==> row.received.has_spec(kind),
{
    let f = row.received;
    if forall|kind: CellKind| expects(row.item, kind) ==> f.has_spec(kind) {
        assert(expects(row.item, CellKind::CommitDetails) ==> f.has_spec(CellKind::CommitDetails));
        assert(expects(row.item, CellKind::AheadBehind) ==> f.has_spec(CellKind::AheadBehind));
        assert(expects(row.item, CellKind::BranchDiff) ==> f.has_spec(CellKind::BranchDiff));
        assert(expects(row.item, CellKind::Conflicts) ==> f.has_spec(CellKind::Conflicts));
        assert(expects(row.item, CellKind::Upstream) ==> f.has_spec(CellKind::Upstream));
        assert(expects(row.item, CellKind::CiStatus) ==> f.has_spec(CellKind::CiStatus));
        assert(expects(row.item, CellKind::WorkingTreeDiff) ==> f.has_spec(
            CellKind::WorkingTreeDiff,
        ));
        assert(expects(row.item, CellKind::WorktreeState) ==> f.has_spec(CellKind::WorktreeState));
        assert(expects(row.item, CellKind::UserStatus) ==> f.has_spec(CellKind::UserStatus));
    }
}

/// Whether the cell `kind` is gathered for `item`.
pub fn item_expects(item: &ListItem, kind: CellKind) -> (r: bool)
    ensures
        r == expects(item@, kind),
{
    match item {
        ListItem::Worktree(_) => true,
        ListItem::Branch(_) => match kind {
            CellKind::WorkingTreeDiff => false,
            CellKind::WorktreeState => false,
            CellKind::UserStatus => false,
            _ => true,
        },
    }
}

impl CellFlags {
    /// Every cell has arrived.
    pub open spec fn all_spec() -> CellFlags {
        CellFlags {
            commit: true,
            counts: true,
            branch_diff: true,
            working_tree: true,
            conflicts: true,
            state: true,
            user_status: true,
            upstream: true,
            ci: true,
        }
    }

    /// Every cell has arrived.
    pub fn all() -> (f: CellFlags)
        ensures
            f == CellFlags::all_spec(),
    {
        CellFlags {
            commit: true,
            counts: true,
            branch_diff: true,
            working_tree: true,
            conflicts: true,
            state: true,
            user_status: true,
            upstream: true,
            ci: true,
        }
    }
}

impl Row {
    /// A row for `item` of which no cell has arrived.
    pub fn new(item: ListItem) -> (row: Row)
        ensures
            row@ == (RowView { item: item@, received: CellFlags::none_spec() }),
            row@.wf(),
    {
        Row { item, received: CellFlags::none() }
    }

    /// How many cells are gathered for the row: nine for a working copy, six
    /// for a branch.
    pub fn expected(&self) -> (n: usize)
        ensures
            n == expected_count(self@.item),
    {
        match &self.item {
            ListItem::Worktree(_) => 9,
            ListItem::Branch(_) => 6,
        }
    }

    /// Whether the cell `kind` is gathered for the row.
    pub fn expects(&self, kind: CellKind) -> (r: bool)
        ensures
            r == expects(self@.item, kind),
    {
        item_expects(&self.item, kind)
    }

    /// Whether every cell of the row has arrived.
    pub fn is_complete(&self) -> (r: bool)
        ensures
            r == self@.is_complete(),
    {
        let f = &self.received;
        let shared = f.commit && f.counts && f.branch_diff && f.conflicts && f.upstream && f.ci;
        match &self.item {
            ListItem::Worktree(_) => shared && f.working_tree && f.state && f.user_status,
            ListItem::Branch(_) => shared,
        }
    }

    /// The row's state: complete, or waiting with so many cells filled.
    pub fn state(&self) -> (s: RowState)
        ensures
            s == self@.state(),
    {
        if self.is_complete() {
            RowState::Complete
        } else {
            RowState::Pending(self.received.count())
        }
    }
}

/// Marking two cells gives the same flags in either order, and marking one
/// cell leaves the others as they were.
pub proof fn lemma_flags_commute(f: CellFlags, a: CellKind, b: CellKind)
    ensures
        f.with_spec(a).with_spec(b) == f.with_spec(b).with_spec(a),
        a != b ==> f.with_spec(a).has_spec(b) == f.has_spec(b),
        f.with_spec(a).has_spec(a),
{
}

/// Writing a cell does not change the kind of the item.
pub proof fn lemma_write_keeps_kind(item: ListItemView, u: CellUpdateView)
    ensures
        forall|kind: CellKind| expects(write_cell(item, u), kind) == expects(item, kind),
        write_cell(item, u) is Worktree <==> item is Worktree,
{
}

/// Writing two different cells gives the same item in either order.
pub proof fn lemma_write_commutes(item: ListItemView, u: CellUpdateView, v: CellUpdateView)
    requires
        u.kind() != v.kind(),
    ensures
        write_cell(write_cell(item, u), v) == write_cell(write_cell(item, v), u),
{
    match item {
        ListItemView::Worktree(wt) => {
            match u {
                CellUpdateView::CommitDetails { .. } => {},
                CellUpdateView::AheadBehind { .. } => {},
                CellUpdateView::BranchDiff { .. } => {},
                CellUpdateView::WorkingTreeDiff { .. } => {},
                CellUpdateView::Conflicts { .. } => {},
                CellUpdateView::WorktreeState { .. } => {},
                CellUpdateView::UserStatus { .. } => {},
                CellUpdateView::Upstream { .. } => {},
                CellUpdateView::CiStatus { .. } => {},
            }
        },
        ListItemView::Branch(br) => {
            match u {
                CellUpdateView::CommitDetails { .. } => {},
                CellUpdateView::AheadBehind { .. } => {},
                CellUpdateView::BranchDiff { .. } => {},
                CellUpdateView::WorkingTreeDiff { .. } => {},
                CellUpdateView::Conflicts { .. } => {},
                CellUpdateView::WorktreeState { .. } => {},
                CellUpdateView::UserStatus { .. } => {},
                CellUpdateView::Upstream { .. } => {},
                CellUpdateView::CiStatus { .. } => {},
            }
        },
    }
}

} // verus!
