//! The rows of the listing: working copies and branches, with the metadata
//! that is gathered for each.

pub mod ci_status;
pub mod collect;
pub mod collect_progressive_impl;
pub mod consumer;
pub mod layout;
pub mod order;
pub mod progressive;
pub mod query;
pub mod render;
pub mod row;
pub mod task;

use vstd::prelude::*;
use crate::git::{opt_view, GitError, GitErrorView, LineDiff, Worktree, WorktreeView};
use crate::text::number::{decimal, push_decimal};
use crate::text::{append_str, chars_of, string_of};
use crate::commands::list::ci_status::PrStatus;
use crate::commands::list::consumer::{items_of, row_views};
use crate::commands::list::row::Row;

verus! {

/// When a commit was made and what its message says.
#[derive(Debug, Clone, PartialEq, Eq)]
pub struct CommitDetails {
    /// Seconds since the Unix epoch.
    pub timestamp: i64,
    pub commit_message: String,
}

/// Mathematical model of [`CommitDetails`].
pub struct CommitDetailsView {
    pub timestamp: i64,
    pub commit_message: Seq<char>,
}

impl View for CommitDetails {
    type V = CommitDetailsView;

    open spec fn view(&self) -> CommitDetailsView {
        CommitDetailsView { timestamp: self.timestamp, commit_message: self.commit_message@ }
    }
}

impl CommitDetails {
    /// The value used when the commit could not be read: time zero and an
    /// empty message.
    pub fn absent() -> (c: CommitDetails)
        ensures
            c@ == (CommitDetailsView { timestamp: 0, commit_message: Seq::empty() }),
    {
        CommitDetails { timestamp: 0, commit_message: String::new() }
    }
}

/// Commits ahead of and behind a base branch.
#[derive(Debug, Clone, Copy, PartialEq, Eq, Structural)]
pub struct AheadBehind {
    pub ahead: usize,
    pub behind: usize,
}

impl AheadBehind {
    /// Level with the base: nothing ahead, nothing behind.
    pub fn level() -> (c: AheadBehind)
        ensures
            c == (AheadBehind { ahead: 0, behind: 0 }),
    {
        AheadBehind { ahead: 0, behind: 0 }
    }
}

/// Lines added and deleted on a branch since it left the base branch.
#[derive(Debug, Clone, Copy, PartialEq, Eq, Structural)]
pub struct BranchDiffTotals {
    pub diff: LineDiff,
}

impl BranchDiffTotals {
    /// No difference from the base.
    pub fn none() -> (d: BranchDiffTotals)
        ensures
            d == (BranchDiffTotals { diff: LineDiff { added: 0, deleted: 0 } }),
    {
        BranchDiffTotals { diff: LineDiff::empty() }
    }
}

/// How a branch stands against the remote branch it tracks.
#[derive(Debug, Clone, PartialEq, Eq)]
pub struct UpstreamStatus {
    pub remote: Option<String>,
    pub ahead: usize,
    pub behind: usize,
}

/// Mathematical model of [`UpstreamStatus`].
pub struct UpstreamStatusView {
    pub remote: Option<Seq<char>>,
    pub ahead: usize,
    pub behind: usize,
}

impl View for UpstreamStatus {
    type V = UpstreamStatusView;

    open spec fn view(&self) -> UpstreamStatusView {
        UpstreamStatusView {
            remote: opt_view(self.remote),
            ahead: self.ahead,
            behind: self.behind,
        }
    }
}

/// The upstream status of a branch that tracks nothing.
pub open spec fn no_upstream() -> UpstreamStatusView {
    UpstreamStatusView { remote: None, ahead: 0, behind: 0 }
}

impl UpstreamStatus {
    /// The status of a branch that tracks nothing.
    pub fn untracked() -> (u: UpstreamStatus)
        ensures
            u@ == no_upstream(),
    {
        UpstreamStatus { remote: None, ahead: 0, behind: 0 }
    }

    /// The remote's name and the two counts, unless both counts are zero. A
    /// status without a remote's name is reported under `origin`.
    pub fn active(&self) -> (r: Option<(&str, usize, usize)>)
        ensures
            match r {
                Some((name, a, b)) => {
                    &&& !(self.ahead == 0 && self.behind == 0)
                    &&& a == self.ahead
                    &&& b == self.behind
                    &&& name@ == match self@.remote {
                        Some(n) => n,
                        None => "origin"@,
                    }
                },
                None => self.ahead == 0 && self.behind == 0,
            },
    {
        if self.ahead == 0 && self.behind == 0 {
            None
        } else {
            let name: &str = match &self.remote {
                Some(n) => n.as_str(),
                None => "origin",
            };
            Some((name, self.ahead, self.behind))
        }
    }
}

/// A working copy with everything gathered about it.
#[derive(Debug, Clone, PartialEq, Eq)]
pub struct WorktreeInfo {
    pub worktree: Worktree,
    pub commit: CommitDetails,
    pub counts: AheadBehind,
    /// Lines added and deleted in the working tree against its commit.
    pub working_tree_diff: LineDiff,
    pub branch_diff: BranchDiffTotals,
    /// Whether this is the repository's main working copy.
    pub is_primary: bool,
    pub upstream: UpstreamStatus,
    /// A merge, rebase or the like that is under way, if any.
    pub worktree_state: Option<String>,
    /// Lines added and deleted in the working tree against the base branch.
    pub working_tree_diff_with_main: Option<LineDiff>,
    /// One symbol for each kind of uncommitted change.
    pub working_tree_symbols: String,
    /// Whether the working tree has any uncommitted change.
    pub is_dirty: bool,
    /// Whether merging into the base branch would conflict.
    pub has_conflicts: bool,
    /// A note that the user attached to the branch.
    pub user_status: Option<String>,
    pub pr_status: Option<PrStatus>,
}

/// Mathematical model of a [`WorktreeInfo`].
pub struct WorktreeInfoView {
    pub worktree: WorktreeView,
    pub commit: CommitDetailsView,
    pub counts: AheadBehind,
    pub working_tree_diff: LineDiff,
    pub branch_diff: BranchDiffTotals,
    pub is_primary: bool,
    pub upstream: UpstreamStatusView,
    pub worktree_state: Option<Seq<char>>,
    pub working_tree_diff_with_main: Option<LineDiff>,
    pub working_tree_symbols: Seq<char>,
    pub is_dirty: bool,
    pub has_conflicts: bool,
    pub user_status: Option<Seq<char>>,
    pub pr_status: Option<PrStatus>,
}

impl View for WorktreeInfo {
    type V = WorktreeInfoView;

    open spec fn view(&self) -> WorktreeInfoView {
        WorktreeInfoView {
            worktree: self.worktree@,
            commit: self.commit@,
            counts: self.counts,
            working_tree_diff: self.working_tree_diff,
            branch_diff: self.branch_diff,
            is_primary: self.is_primary,
            upstream: self.upstream@,
            worktree_state: opt_view(self.worktree_state),
            working_tree_diff_with_main: self.working_tree_diff_with_main,
            working_tree_symbols: self.working_tree_symbols@,
            is_dirty: self.is_dirty,
            has_conflicts: self.has_conflicts,
            user_status: opt_view(self.user_status),
            pr_status: self.pr_status,
        }
    }
}

/// A branch without a working copy, with everything gathered about it.
#[derive(Debug, Clone, PartialEq, Eq)]
pub struct BranchInfo {
    pub name: String,
    pub head: String,
    pub commit: CommitDetails,
    pub counts: AheadBehind,
    pub branch_diff: BranchDiffTotals,
    pub upstream: UpstreamStatus,
    pub has_conflicts: bool,
    pub pr_status: Option<PrStatus>,
}

/// Mathematical model of a [`BranchInfo`].
pub struct BranchInfoView {
    pub name: Seq<char>,
    pub head: Seq<char>,
    pub commit: CommitDetailsView,
    pub counts: AheadBehind,
    pub branch_diff: BranchDiffTotals,
    pub upstream: UpstreamStatusView,
    pub has_conflicts: bool,
    pub pr_status: Option<PrStatus>,
}

impl View for BranchInfo {
    type V = BranchInfoView;

    open spec fn view(&self) -> BranchInfoView {
        BranchInfoView {
            name: self.name@,
            head: self.head@,
            commit: self.commit@,
            counts: self.counts,
            branch_diff: self.branch_diff,
            upstream: self.upstream@,
            has_conflicts: self.has_conflicts,
            pr_status: self.pr_status,
        }
    }
}

/// One row of the listing.
#[derive(Debug, Clone, PartialEq, Eq)]
pub enum ListItem {
    Worktree(WorktreeInfo),
    Branch(BranchInfo),
}

/// Mathematical model of a [`ListItem`].
pub enum ListItemView {
    Worktree(WorktreeInfoView),
    Branch(BranchInfoView),
}

impl View for ListItem {
    type V = ListItemView;

    open spec fn view(&self) -> ListItemView {
        match self {
            ListItem::Worktree(info) => ListItemView::Worktree(info@),
            ListItem::Branch(info) => ListItemView::Branch(info@),
        }
    }
}

impl ListItemView {
    /// The branch shown for the row; a working copy without one is `(detached)`.
    pub open spec fn branch_name(self) -> Seq<char> {
        match self {
            ListItemView::Worktree(wt) => match wt.worktree.branch {
                Some(b) => b,
                None => "(detached)"@,
            },
            ListItemView::Branch(br) => br.name,
        }
    }

    pub open spec fn commit(self) -> CommitDetailsView {
        match self {
            ListItemView::Worktree(wt) => wt.commit,
            ListItemView::Branch(br) => br.commit,
        }
    }

    pub open spec fn counts(self) -> AheadBehind {
        match self {
            ListItemView::Worktree(wt) => wt.counts,
            ListItemView::Branch(br) => br.counts,
        }
    }

    pub open spec fn branch_diff(self) -> BranchDiffTotals {
        match self {
            ListItemView::Worktree(wt) => wt.branch_diff,
            ListItemView::Branch(br) => br.branch_diff,
        }
    }

    pub open spec fn upstream(self) -> UpstreamStatusView {
        match self {
            ListItemView::Worktree(wt) => wt.upstream,
            ListItemView::Branch(br) => br.upstream,
        }
    }

    pub open spec fn head(self) -> Seq<char> {
        match self {
            ListItemView::Worktree(wt) => wt.worktree.head,
            ListItemView::Branch(br) => br.head,
        }
    }

    pub open spec fn pr_status(self) -> Option<PrStatus> {
        match self {
            ListItemView::Worktree(wt) => wt.pr_status,
            ListItemView::Branch(br) => br.pr_status,
        }
    }

    pub open spec fn has_conflicts(self) -> bool {
        match self {
            ListItemView::Worktree(wt) => wt.has_conflicts,
            ListItemView::Branch(br) => br.has_conflicts,
        }
    }
}

impl ListItem {
    /// The branch shown for the row; a working copy without one is `(detached)`.
    pub fn branch_name(&self) -> (r: &str)
        ensures
            r@ == self@.branch_name(),
    {
        match self {
            ListItem::Worktree(wt) => match &wt.worktree.branch {
                Some(b) => b.as_str(),
                None => "(detached)",
            },
            ListItem::Branch(br) => br.name.as_str(),
        }
    }

    /// Whether the row is the repository's main working copy. A branch never is.
    pub fn is_primary(&self) -> (r: bool)
        ensures
            r == match self@ {
                ListItemView::Worktree(wt) => wt.is_primary,
                ListItemView::Branch(_) => false,
            },
    {
        match self {
            ListItem::Worktree(wt) => wt.is_primary,
            ListItem::Branch(_) => false,
        }
    }

    /// When the row's commit was made.
    pub fn commit_timestamp(&self) -> (r: i64)
        ensures
            r == self@.commit().timestamp,
    {
        match self {
            ListItem::Worktree(info) => info.commit.timestamp,
            ListItem::Branch(info) => info.commit.timestamp,
        }
    }

    /// The commit the row is at.
    pub fn head(&self) -> (r: &str)
        ensures
            r@ == self@.head(),
    {
        match self {
            ListItem::Worktree(info) => info.worktree.head.as_str(),
            ListItem::Branch(info) => info.head.as_str(),
        }
    }

    pub fn commit_details(&self) -> (r: &CommitDetails)
        ensures
            r@ == self@.commit(),
    {
        match self {
            ListItem::Worktree(info) => &info.commit,
            ListItem::Branch(info) => &info.commit,
        }
    }

    pub fn counts(&self) -> (r: &AheadBehind)
        ensures
            *r == self@.counts(),
    {
        match self {
            ListItem::Worktree(info) => &info.counts,
            ListItem::Branch(info) => &info.counts,
        }
    }

    pub fn branch_diff(&self) -> (r: &BranchDiffTotals)
        ensures
            *r == self@.branch_diff(),
    {
        match self {
            ListItem::Worktree(info) => &info.branch_diff,
            ListItem::Branch(info) => &info.branch_diff,
        }
    }

    pub fn upstream(&self) -> (r: &UpstreamStatus)
        ensures
            r@ == self@.upstream(),
    {
        match self {
            ListItem::Worktree(info) => &info.upstream,
            ListItem::Branch(info) => &info.upstream,
        }
    }

    /// The working copy behind the row, if it has one.
    pub fn worktree_info(&self) -> (r: Option<&WorktreeInfo>)
        ensures
            match r {
                Some(info) => self@ == ListItemView::Worktree(info@) && *self == ListItem::Worktree(
                    *info,
                ),
                None => self@ is Branch,
            },
    {
        match self {
            ListItem::Worktree(info) => Some(info),
            ListItem::Branch(_) => None,
        }
    }

    /// Where the row's working copy lives, if it has one.
    pub fn worktree_path(&self) -> (r: Option<&str>)
        ensures
            match r {
                Some(p) => self@ matches ListItemView::Worktree(wt) && p@ == wt.worktree.path,
                None => self@ is Branch,
            },
    {
        match self.worktree_info() {
            Some(info) => Some(info.worktree.path.as_str()),
            None => None,
        }
    }
}

// ---------------------------------------------------------------------------
// Building the rows
// ---------------------------------------------------------------------------

/// The item for a working copy before anything has been gathered about it:
/// every cell is at its default value.
pub open spec fn fresh_worktree(wt: WorktreeView, primary: WorktreeView) -> WorktreeInfoView {
    WorktreeInfoView {
        worktree: wt,
        commit: CommitDetailsView { timestamp: 0, commit_message: Seq::empty() },
        counts: AheadBehind { ahead: 0, behind: 0 },
        working_tree_diff: LineDiff { added: 0, deleted: 0 },
        branch_diff: BranchDiffTotals { diff: LineDiff { added: 0, deleted: 0 } },
        is_primary: wt.path == primary.path,
        upstream: no_upstream(),
        worktree_state: None,
        working_tree_diff_with_main: None,
        working_tree_symbols: Seq::empty(),
        is_dirty: false,
        has_conflicts: false,
        user_status: None,
        pr_status: None,
    }
}

/// The item for a branch before anything has been gathered about it.
pub open spec fn fresh_branch(name: Seq<char>, head: Seq<char>) -> BranchInfoView {
    BranchInfoView {
        name,
        head,
        commit: CommitDetailsView { timestamp: 0, commit_message: Seq::empty() },
        counts: AheadBehind { ahead: 0, behind: 0 },
        branch_diff: BranchDiffTotals { diff: LineDiff { added: 0, deleted: 0 } },
        upstream: no_upstream(),
        has_conflicts: false,
        pr_status: None,
    }
}

impl WorktreeInfo {
    /// The item for the working copy `wt`, with every cell at its default
    /// value. It is the primary one exactly if it lives where `primary` does.
    pub fn from_worktree(wt: &Worktree, primary: &Worktree) -> (info: WorktreeInfo)
        ensures
            info@ == fresh_worktree(wt@, primary@),
    {
        WorktreeInfo {
            worktree: wt.duplicate(),
            commit: CommitDetails::absent(),
            counts: AheadBehind::level(),
            working_tree_diff: LineDiff::empty(),
            branch_diff: BranchDiffTotals::none(),
            is_primary: wt.path == primary.path,
            upstream: UpstreamStatus::untracked(),
            worktree_state: None,
            working_tree_diff_with_main: None,
            working_tree_symbols: String::new(),
            is_dirty: false,
            has_conflicts: false,
            user_status: None,
            pr_status: None,
        }
    }
}

impl BranchInfo {
    /// The item for the branch `branch` at the commit `head`, with every cell
    /// at its default value.
    pub fn from_branch(branch: &str, head: &str) -> (info: BranchInfo)
        ensures
            info@ == fresh_branch(branch@, head@),
    {
        BranchInfo {
            name: string_of(&chars_of(branch)),
            head: string_of(&chars_of(head)),
            commit: CommitDetails::absent(),
            counts: AheadBehind::level(),
            branch_diff: BranchDiffTotals::none(),
            upstream: UpstreamStatus::untracked(),
            has_conflicts: false,
            pr_status: None,
        }
    }
}

/// A branch and the commit that it points to.
#[derive(Debug, Clone, PartialEq, Eq)]
pub struct BranchRef {
    pub name: String,
    pub head: String,
}

/// The items for a listing: the working copies in the order given, the first
/// being the primary one, then the branches. The index of an item in this
/// list is the index that its updates carry.
pub open spec fn listed_items(
    worktrees: Seq<WorktreeView>,
    branches: Seq<(Seq<char>, Seq<char>)>,
) -> Seq<ListItemView> {
    Seq::new(
        worktrees.len() + branches.len(),
        |i: int|
            if i < worktrees.len() {
                ListItemView::Worktree(fresh_worktree(worktrees[i], worktrees[0]))
            } else {
                ListItemView::Branch(
                    fresh_branch(branches[i - worktrees.len()].0, branches[i - worktrees.len()].1),
                )
            },
    )
}

/// The views of the working copies `worktrees`.
pub open spec fn worktree_views(worktrees: Seq<Worktree>) -> Seq<WorktreeView> {
    Seq::new(worktrees.len(), |i: int| worktrees[i]@)
}

/// The names and commits of `branches`.
pub open spec fn branch_views(branches: Seq<BranchRef>) -> Seq<(Seq<char>, Seq<char>)> {
    Seq::new(branches.len(), |i: int| (branches[i].name@, branches[i].head@))
}

/// The views of the elements of `items`.
pub open spec fn list_item_views(items: Seq<ListItem>) -> Seq<ListItemView> {
    Seq::new(items.len(), |i: int| items[i]@)
}

/// Builds the items of a listing from the working copies, of which the first
/// is the primary one, and the branches that have no working copy. A listing
/// without any working copy is an error.
pub fn build_items(worktrees: &Vec<Worktree>, branches: &Vec<BranchRef>) -> (r: Result<
    Vec<ListItem>,
    GitError,
>)
    ensures
        match r {
            Ok(items) => worktrees.len() > 0 && list_item_views(items@) == listed_items(
                worktree_views(worktrees@),
                branch_views(branches@),
            ),
            Err(e) => worktrees.len() == 0 && e@ == GitErrorView::CommandFailed(
                "No worktrees found"@,
            ),
        },
{
    let mut items: Vec<ListItem> = Vec::new();
    if worktrees.len() == 0 {
        return Err(GitError::CommandFailed(string_of(&chars_of("No worktrees found"))));
    }
    let ghost wv = worktree_views(worktrees@);
    let ghost bv = branch_views(branches@);
    let ghost target = listed_items(wv, bv);
    let primary = &worktrees[0];
    let mut i: usize = 0;
    while i < worktrees.len()
        invariant
            i <= worktrees.len(),
            worktrees.len() > 0,
            primary@ == wv[0],
            wv == worktree_views(worktrees@),
            bv == branch_views(branches@),
            target == listed_items(wv, bv),
            items.len() == i,
            forall|k: int| 0 <= k < i ==> (#[trigger] items[k])@ == target[k],
        decreases worktrees.len() - i,
    {
        let info = WorktreeInfo::from_worktree(&worktrees[i], primary);
        assert(wv[i as int] == worktrees@[i as int]@);
        items.push(ListItem::Worktree(info));
        i += 1;
    }
    let mut j: usize = 0;
    while j < branches.len()
        invariant
            j <= branches.len(),
            wv == worktree_views(worktrees@),
            bv == branch_views(branches@),
            target == listed_items(wv, bv),
            items.len() == worktrees.len() + j,
            forall|k: int| 0 <= k < items.len() ==> (#[trigger] items[k])@ == target[k],
        decreases branches.len() - j,
    {
        let b = &branches[j];
        let info = BranchInfo::from_branch(b.name.as_str(), b.head.as_str());
        assert(bv[j as int] == (b.name@, b.head@));
        items.push(ListItem::Branch(info));
        j += 1;
    }
    assert(list_item_views(items@) =~= target);
    Ok(items)
}

// ---------------------------------------------------------------------------
// The summary
// ---------------------------------------------------------------------------

/// Whether the item is a working copy with uncommitted changes: its status
/// shows a change, or its working tree adds or deletes lines.
pub open spec fn has_changes(item: ListItemView) -> bool {
    match item {
        ListItemView::Worktree(wt) => wt.is_dirty || wt.working_tree_diff.added > 0
            || wt.working_tree_diff.deleted > 0,
        ListItemView::Branch(_) => false,
    }
}

/// Whether the item is ahead of its base branch or of the branch it tracks.
pub open spec fn is_ahead(item: ListItemView) -> bool {
    item.counts().ahead > 0 || item.upstream().ahead > 0
}

/// Whether the item is behind its base branch or the branch it tracks.
pub open spec fn is_behind(item: ListItemView) -> bool {
    item.counts().behind > 0 || item.upstream().behind > 0
}

/// How many of `items` satisfy `p`.
pub open spec fn count_items(items: Seq<ListItemView>, p: spec_fn(ListItemView) -> bool) -> int
    decreases items.len(),
{
    if items.len() == 0 {
        0
    } else {
        count_items(items.drop_last(), p) + if p(items.last()) {
            1int
        } else {
            0int
        }
    }
}

/// What the summary line counts.
#[derive(Debug, Clone, Copy, PartialEq, Eq, Structural)]
pub struct SummaryMetrics {
    pub worktrees: usize,
    pub branches: usize,
    pub dirty_worktrees: usize,
    pub ahead_items: usize,
    pub behind_items: usize,
}

impl SummaryMetrics {
    /// The counts with `item` counted in.
    pub open spec fn with_item(self, item: ListItemView) -> SummaryMetrics {
        SummaryMetrics {
            worktrees: if item is Worktree {
                (self.worktrees + 1) as usize
            } else {
                self.worktrees
            },
            branches: if item is Branch {
                (self.branches + 1) as usize
            } else {
                self.branches
            },
            dirty_worktrees: if has_changes(item) {
                (self.dirty_worktrees + 1) as usize
            } else {
                self.dirty_worktrees
            },
            ahead_items: if is_ahead(item) {
                (self.ahead_items + 1) as usize
            } else {
                self.ahead_items
            },
            behind_items: if is_behind(item) {
                (self.behind_items + 1) as usize
            } else {
                self.behind_items
            },
        }
    }

    /// The largest of the counts.
    pub open spec fn largest(self) -> int {
        let a = if self.worktrees > self.branches {
            self.worktrees
        } else {
            self.branches
        };
        let b = if self.dirty_worktrees > self.ahead_items {
            self.dirty_worktrees
        } else {
            self.ahead_items
        };
        let c = if a > b {
            a
        } else {
            b
        };
        if c > self.behind_items {
            c as int
        } else {
            self.behind_items as int
        }
    }

    /// Whether the counts are those of `items`.
    pub open spec fn counts_of(self, items: Seq<ListItemView>) -> bool {
        &&& self.worktrees == count_items(items, |i: ListItemView| i is Worktree)
        &&& self.branches == count_items(items, |i: ListItemView| i is Branch)
        &&& self.dirty_worktrees == count_items(items, |i: ListItemView| has_changes(i))
        &&& self.ahead_items == count_items(items, |i: ListItemView| is_ahead(i))
        &&& self.behind_items == count_items(items, |i: ListItemView| is_behind(i))
    }

    /// Nothing counted yet.
    pub fn new() -> (m: SummaryMetrics)
        ensures
            m == (SummaryMetrics {
                worktrees: 0,
                branches: 0,
                dirty_worktrees: 0,
                ahead_items: 0,
                behind_items: 0,
            }),
            m.counts_of(Seq::empty()),
    {
        SummaryMetrics { worktrees: 0, branches: 0, dirty_worktrees: 0, ahead_items: 0, behind_items: 0 }
    }

    /// Counts `item` in.
    pub fn update(&mut self, item: &ListItem)
        requires
            old(self).largest() < usize::MAX,
        ensures
            *final(self) == old(self).with_item(item@),
    {
        match item {
            ListItem::Worktree(info) => {
                self.worktrees += 1;
                if info.is_dirty || info.working_tree_diff.added > 0 || info.working_tree_diff.deleted
                    > 0 {
                    self.dirty_worktrees += 1;
                }
            },
            ListItem::Branch(_) => {
                self.branches += 1;
            },
        }
        let counts = item.counts();
        let upstream = item.upstream();
        if counts.ahead > 0 || upstream.ahead > 0 {
            self.ahead_items += 1;
        }
        if counts.behind > 0 || upstream.behind > 0 {
            self.behind_items += 1;
        }
    }

    /// The counts of the items of `rows`.
    pub fn of(rows: &Vec<Row>) -> (m: SummaryMetrics)
        ensures
            m.counts_of(items_of(row_views(rows@))),
            m == summary_metrics(items_of(row_views(rows@))),
    {
        let ghost all = items_of(row_views(rows@));
        let mut m = SummaryMetrics::new();
        let mut k: usize = 0;
        assert(all.take(0) =~= Seq::<ListItemView>::empty());
        while k < rows.len()
            invariant
                k <= rows.len(),
                all == items_of(row_views(rows@)),
                m.counts_of(all.take(k as int)),
                m.largest() <= k,
            decreases rows.len() - k,
        {
            assert(all.take(k + 1).drop_last() =~= all.take(k as int));
            assert(all.take(k + 1).last() == rows@[k as int]@.item);
            m.update(&rows[k].item);
            k += 1;
        }
        assert(all.take(rows.len() as int) =~= all);
        m
    }
}

/// The counts of `items`.
pub open spec fn summary_metrics(items: Seq<ListItemView>) -> SummaryMetrics {
    SummaryMetrics {
        worktrees: count_items(items, |i: ListItemView| i is Worktree) as usize,
        branches: count_items(items, |i: ListItemView| i is Branch) as usize,
        dirty_worktrees: count_items(items, |i: ListItemView| has_changes(i)) as usize,
        ahead_items: count_items(items, |i: ListItemView| is_ahead(i)) as usize,
        behind_items: count_items(items, |i: ListItemView| is_behind(i)) as usize,
    }
}

/// `n` and a word, such as `3 ahead`.
pub open spec fn counted(n: int, word: Seq<char>) -> Seq<char> {
    decimal(n as nat) + " "@ + word
}

/// `, ` and `n` and a word, if `n` is not zero.
pub open spec fn also(n: int, word: Seq<char>) -> Seq<char> {
    if n > 0 {
        ", "@ + counted(n, word)
    } else {
        seq![]
    }
}

/// The summary line. With `include_branches` it tells working copies and
/// branches apart; without, it counts every row as a working copy, in the
/// singular if there is one. Working copies with changes and rows ahead or
/// behind are named only where there are any.
pub open spec fn summary_text(m: SummaryMetrics, include_branches: bool) -> Seq<char> {
    (if include_branches {
        counted(m.worktrees as int, "worktrees"@) + also(m.branches as int, "branches"@)
    } else if m.worktrees + m.branches == 1 {
        counted(1, "worktree"@)
    } else {
        counted(m.worktrees + m.branches, "worktrees"@)
    }) + also(m.dirty_worktrees as int, "with changes"@) + also(m.ahead_items as int, "ahead"@)
        + also(m.behind_items as int, "behind"@)
}

fn push_counted(out: &mut Vec<char>, n: u128, word: &str)
    ensures
        final(out)@ == old(out)@ + counted(n as int, word@),
{
    push_decimal(out, n);
    append_str(out, " ");
    append_str(out, word);
    assert(out@ =~= old(out)@ + counted(n as int, word@));
}

fn push_also(out: &mut Vec<char>, n: usize, word: &str)
    ensures
        final(out)@ == old(out)@ + also(n as int, word@),
{
    if n > 0 {
        append_str(out, ", ");
        push_counted(out, n as u128, word);
        assert(out@ =~= old(out)@ + also(n as int, word@));
    } else {
        assert(out@ =~= old(out)@ + also(n as int, word@));
    }
}

/// Formats the summary line for the counts `m`.
pub fn display_summary(m: &SummaryMetrics, include_branches: bool) -> (line: String)
    ensures
        line@ == summary_text(*m, include_branches),
{
    let mut out: Vec<char> = Vec::new();
    if include_branches {
        push_counted(&mut out, m.worktrees as u128, "worktrees");
        push_also(&mut out, m.branches, "branches");
    } else {
        let rows: u128 = m.worktrees as u128 + m.branches as u128;
        if rows == 1 {
            push_counted(&mut out, 1, "worktree");
        } else {
            push_counted(&mut out, rows, "worktrees");
        }
    }
    let ghost head = out@;
    push_also(&mut out, m.dirty_worktrees, "with changes");
    push_also(&mut out, m.ahead_items, "ahead");
    push_also(&mut out, m.behind_items, "behind");
    assert(out@ =~= summary_text(*m, include_branches));
    string_of(&out)
}

// ---------------------------------------------------------------------------
// Advice
// ---------------------------------------------------------------------------

/// The warning for a branch about which nothing could be found out.
pub open spec fn enrich_warning(branch: Seq<char>, error: Seq<char>) -> Seq<char> {
    "Failed to enrich branch "@ + branch + ": "@ + error
}

/// The hint that follows the warning.
pub open spec fn enrich_hint() -> Seq<char> {
    "This branch will be shown with limited information"@
}

/// Words the warning and the hint for a branch about which nothing could be
/// found out. The branch is still listed, with what is known of it.
pub fn branch_advisory(branch: &str, error: &str) -> (r: (String, String))
    ensures
        r.0@ == enrich_warning(branch@, error@),
        r.1@ == enrich_hint(),
{
    let mut warning = chars_of("Failed to enrich branch ");
    append_str(&mut warning, branch);
    append_str(&mut warning, ": ");
    append_str(&mut warning, error);
    let hint = chars_of("This branch will be shown with limited information");
    (string_of(&warning), string_of(&hint))
}

} // verus!
