//! The gathering of one cell: a task asks the repository one query at a time
//! and ends in the one update for its cell.
//!
//! What a task asks next may depend on the answer before. After at most three
//! answers it emits its update. A query that fails leaves the cell at its
//! default value: a task never fails and never stays silent.

use vstd::prelude::*;
use crate::commands::list::collect::{default_update, CellKind, CellUpdate, CellUpdateView};
use crate::commands::list::collect_progressive_impl::{
    parse_status_for_symbols, status_is_dirty, status_symbols,
};
use crate::commands::list::query::{Query, QueryView, Reply, ReplyView};
use crate::commands::list::{
    AheadBehind, BranchDiffTotals, CommitDetails, CommitDetailsView, UpstreamStatus,
    UpstreamStatusView,
};
use crate::git::{clone_opt, opt_view, LineDiff};
use crate::text::split::{split_once, split_once_chars};
use crate::text::{append_str, chars_of, string_of};

verus! {

/// The row that a task gathers a cell for.
#[derive(Debug, Clone, PartialEq, Eq)]
pub struct Subject {
    /// The row's index: the key under which its updates are sent.
    pub item_idx: usize,
    /// The working copy at which the queries are asked.
    pub path: String,
    /// The row's commit.
    pub head: String,
    /// The row's branch, if it has one.
    pub branch: Option<String>,
    /// The branch that the row is compared with, if it is compared at all.
    pub base: Option<String>,
    /// Whether a failed upstream query is reported with a warning.
    pub warn: bool,
}

/// Mathematical model of a [`Subject`].
pub struct SubjectView {
    pub item_idx: usize,
    pub path: Seq<char>,
    pub head: Seq<char>,
    pub branch: Option<Seq<char>>,
    pub base: Option<Seq<char>>,
    pub warn: bool,
}

impl View for Subject {
    type V = SubjectView;

    open spec fn view(&self) -> SubjectView {
        SubjectView {
            item_idx: self.item_idx,
            path: self.path@,
            head: self.head@,
            branch: opt_view(self.branch),
            base: opt_view(self.base),
            warn: self.warn,
        }
    }
}

/// What a task is waiting for, with what it has learnt so far.
#[derive(Debug, Clone, PartialEq, Eq)]
#[allow(inconsistent_fields)]
pub enum Stage {
    CommitTimestamp,
    CommitMessage { timestamp: Option<i64> },
    AheadBehind { base: String },
    BranchDiff { base: String },
    Status,
    WorkingTreeDiffStats { symbols: String },
    WorkingTreeDiffWithBase { symbols: String, is_dirty: bool, diff: LineDiff },
    Conflicts { base: String },
    WorktreeState,
    UserStatus,
    UpstreamBranch { branch: String },
    UpstreamCounts { upstream_branch: String },
    WorktreeRoot { branch: Option<String> },
    PrStatus { branch: String, repo_path: String },
}

/// Mathematical model of a [`Stage`].
#[allow(inconsistent_fields)]
pub enum StageView {
    CommitTimestamp,
    CommitMessage { timestamp: Option<i64> },
    AheadBehind { base: Seq<char> },
    BranchDiff { base: Seq<char> },
    Status,
    WorkingTreeDiffStats { symbols: Seq<char> },
    WorkingTreeDiffWithBase { symbols: Seq<char>, is_dirty: bool, diff: LineDiff },
    Conflicts { base: Seq<char> },
    WorktreeState,
    UserStatus,
    UpstreamBranch { branch: Seq<char> },
    UpstreamCounts { upstream_branch: Seq<char> },
    WorktreeRoot { branch: Option<Seq<char>> },
    PrStatus { branch: Seq<char>, repo_path: Seq<char> },
}

impl View for Stage {
    type V = StageView;

    open spec fn view(&self) -> StageView {
        match self {
            Stage::CommitTimestamp => StageView::CommitTimestamp,
            Stage::CommitMessage { timestamp } => StageView::CommitMessage {
                timestamp: *timestamp,
            },
            Stage::AheadBehind { base } => StageView::AheadBehind { base: base@ },
            Stage::BranchDiff { base } => StageView::BranchDiff { base: base@ },
            Stage::Status => StageView::Status,
            Stage::WorkingTreeDiffStats { symbols } => StageView::WorkingTreeDiffStats {
                symbols: symbols@,
            },
            Stage::WorkingTreeDiffWithBase {
                symbols,
                is_dirty,
                diff,
            } => StageView::WorkingTreeDiffWithBase {
                symbols: symbols@,
                is_dirty: *is_dirty,
                diff: *diff,
            },
            Stage::Conflicts { base } => StageView::Conflicts { base: base@ },
            Stage::WorktreeState => StageView::WorktreeState,
            Stage::UserStatus => StageView::UserStatus,
            Stage::UpstreamBranch { branch } => StageView::UpstreamBranch { branch: branch@ },
            Stage::UpstreamCounts { upstream_branch } => StageView::UpstreamCounts {
                upstream_branch: upstream_branch@,
            },
            Stage::WorktreeRoot { branch } => StageView::WorktreeRoot { branch: opt_view(*branch) },
            Stage::PrStatus { branch, repo_path } => StageView::PrStatus {
                branch: branch@,
                repo_path: repo_path@,
            },
        }
    }
}

/// The gathering of one cell of one row, at some stage.
#[derive(Debug, Clone, PartialEq, Eq)]
pub struct CellTask {
    pub subject: Subject,
    pub stage: Stage,
}

/// Mathematical model of a [`CellTask`].
pub struct CellTaskView {
    pub subject: SubjectView,
    pub stage: StageView,
}

impl View for CellTask {
    type V = CellTaskView;

    open spec fn view(&self) -> CellTaskView {
        CellTaskView { subject: self.subject@, stage: self.stage@ }
    }
}

/// What is to be done next for a cell: ask the task's query and hand the answer
/// to the task, or send the finished update, after printing the warning if
/// there is one.
#[derive(Debug, Clone, PartialEq, Eq)]
pub enum Step {
    Ask(CellTask),
    Emit { update: CellUpdate, warning: Option<String> },
}

/// Mathematical model of a [`Step`].
pub enum StepView {
    Ask(CellTaskView),
    Emit { update: CellUpdateView, warning: Option<Seq<char>> },
}

impl View for Step {
    type V = StepView;

    open spec fn view(&self) -> StepView {
        match self {
            Step::Ask(task) => StepView::Ask(task@),
            Step::Emit { update, warning } => StepView::Emit {
                update: update@,
                warning: opt_view(*warning),
            },
        }
    }
}

/// The views of the elements of `steps`.
pub open spec fn step_views(steps: Seq<Step>) -> Seq<StepView> {
    Seq::new(steps.len(), |i: int| steps[i]@)
}

// ---------------------------------------------------------------------------
// What a task asks and how it goes on
// ---------------------------------------------------------------------------

/// The cell that a task at this stage is gathering.
pub open spec fn cell_of(stage: StageView) -> CellKind {
    match stage {
        StageView::CommitTimestamp => CellKind::CommitDetails,
        StageView::CommitMessage { .. } => CellKind::CommitDetails,
        StageView::AheadBehind { .. } => CellKind::AheadBehind,
        StageView::BranchDiff { .. } => CellKind::BranchDiff,
        StageView::Status => CellKind::WorkingTreeDiff,
        StageView::WorkingTreeDiffStats { .. } => CellKind::WorkingTreeDiff,
        StageView::WorkingTreeDiffWithBase { .. } => CellKind::WorkingTreeDiff,
        StageView::Conflicts { .. } => CellKind::Conflicts,
        StageView::WorktreeState => CellKind::WorktreeState,
        StageView::UserStatus => CellKind::UserStatus,
        StageView::UpstreamBranch { .. } => CellKind::Upstream,
        StageView::UpstreamCounts { .. } => CellKind::Upstream,
        StageView::WorktreeRoot { .. } => CellKind::CiStatus,
        StageView::PrStatus { .. } => CellKind::CiStatus,
    }
}

/// The most answers that a task at this stage still needs before it emits.
pub open spec fn queries_left(stage: StageView) -> nat {
    match stage {
        StageView::CommitTimestamp => 2,
        StageView::Status => 3,
        StageView::WorkingTreeDiffStats { .. } => 2,
        StageView::UpstreamBranch { .. } => 2,
        StageView::WorktreeRoot { .. } => 2,
        _ => 1,
    }
}

/// The query that a task asks.
pub open spec fn query_spec(task: CellTaskView) -> QueryView {
    let head = task.subject.head;
    match task.stage {
        StageView::CommitTimestamp => QueryView::CommitTimestamp { head },
        StageView::CommitMessage { .. } => QueryView::CommitMessage { head },
        StageView::AheadBehind { base } => QueryView::AheadBehind { base, head },
        StageView::BranchDiff { base } => QueryView::BranchDiffStats { base, head },
        StageView::Status => QueryView::Status,
        StageView::WorkingTreeDiffStats { .. } => QueryView::WorkingTreeDiffStats,
        StageView::WorkingTreeDiffWithBase { is_dirty, .. } => QueryView::WorkingTreeDiffWithBase {
            base: task.subject.base,
            is_dirty,
        },
        StageView::Conflicts { base } => QueryView::HasMergeConflicts { base, head },
        StageView::WorktreeState => QueryView::WorktreeState,
        StageView::UserStatus => QueryView::UserStatus { branch: task.subject.branch },
        StageView::UpstreamBranch { branch } => QueryView::UpstreamBranch { branch },
        StageView::UpstreamCounts { upstream_branch } => QueryView::AheadBehind {
            base: upstream_branch,
            head,
        },
        StageView::WorktreeRoot { .. } => QueryView::WorktreeRoot,
        StageView::PrStatus { branch, repo_path } => QueryView::PrStatus { branch, head, repo_path },
    }
}

/// The step that sends `update` without a warning.
pub open spec fn emit(update: CellUpdateView) -> StepView {
    StepView::Emit { update, warning: None }
}

/// The step that sends the default value of the task's cell.
pub open spec fn emit_default(task: CellTaskView) -> StepView {
    emit(default_update(cell_of(task.stage), task.subject.item_idx))
}

/// The step that goes on with the same subject at another stage.
pub open spec fn ask(subject: SubjectView, stage: StageView) -> StepView {
    StepView::Ask(CellTaskView { subject, stage })
}

/// The name of the remote in a remote branch's name: what stands before the
/// first `/`, if there is one.
pub open spec fn remote_of(upstream_branch: Seq<char>) -> Option<Seq<char>> {
    match split_once(upstream_branch, '/') {
        Some((remote, _)) => Some(remote),
        None => None,
    }
}

/// The warning for an upstream query that failed with `error`.
pub open spec fn upstream_warning(what: Seq<char>, path: Seq<char>, error: Seq<char>) -> Seq<char> {
    "Warning: "@ + what + " failed for "@ + path + ": "@ + error
}

/// The step after a failed upstream query: the default value, with a warning
/// where the subject asks for one.
pub open spec fn emit_upstream_failure(
    task: CellTaskView,
    what: Seq<char>,
    error: Seq<char>,
) -> StepView {
    StepView::Emit {
        update: default_update(CellKind::Upstream, task.subject.item_idx),
        warning: if task.subject.warn {
            Some(upstream_warning(what, task.subject.path, error))
        } else {
            None
        },
    }
}

/// How a task goes on after `reply`. An answer of another shape than the query
/// calls for counts as a failure.
pub open spec fn advance_spec(task: CellTaskView, reply: ReplyView) -> StepView {
    let item_idx = task.subject.item_idx;
    match task.stage {
        StageView::CommitTimestamp => ask(
            task.subject,
            StageView::CommitMessage {
                timestamp: match reply {
                    ReplyView::Timestamp(t) => Some(t),
                    _ => None,
                },
            },
        ),
        StageView::CommitMessage { timestamp } => match (timestamp, reply) {
            (Some(t), ReplyView::Text(m)) => emit(
                CellUpdateView::CommitDetails {
                    item_idx,
                    commit: CommitDetailsView { timestamp: t, commit_message: m },
                },
            ),
            _ => emit_default(task),
        },
        StageView::AheadBehind { .. } => match reply {
            ReplyView::Counts(ahead, behind) => emit(
                CellUpdateView::AheadBehind { item_idx, counts: AheadBehind { ahead, behind } },
            ),
            _ => emit_default(task),
        },
        StageView::BranchDiff { .. } => match reply {
            ReplyView::Diff(diff) => emit(
                CellUpdateView::BranchDiff { item_idx, branch_diff: BranchDiffTotals { diff } },
            ),
            _ => emit_default(task),
        },
        StageView::Status => match reply {
            ReplyView::Text(output) => if status_is_dirty(output) {
                ask(task.subject, StageView::WorkingTreeDiffStats { symbols: status_symbols(output) })
            } else {
                ask(
                    task.subject,
                    StageView::WorkingTreeDiffWithBase {
                        symbols: status_symbols(output),
                        is_dirty: false,
                        diff: LineDiff { added: 0, deleted: 0 },
                    },
                )
            },
            _ => emit_default(task),
        },
        StageView::WorkingTreeDiffStats { symbols } => ask(
            task.subject,
            StageView::WorkingTreeDiffWithBase {
                symbols,
                is_dirty: true,
                diff: match reply {
                    ReplyView::Diff(d) => d,
                    _ => LineDiff { added: 0, deleted: 0 },
                },
            },
        ),
        StageView::WorkingTreeDiffWithBase { symbols, is_dirty, diff } => emit(
            CellUpdateView::WorkingTreeDiff {
                item_idx,
                working_tree_diff: diff,
                working_tree_diff_with_main: match reply {
                    ReplyView::MaybeDiff(d) => d,
                    _ => None,
                },
                working_tree_symbols: symbols,
                is_dirty,
            },
        ),
        StageView::Conflicts { .. } => emit(
            CellUpdateView::Conflicts {
                item_idx,
                has_conflicts: match reply {
                    ReplyView::Flag(b) => b,
                    _ => false,
                },
            },
        ),
        StageView::WorktreeState => emit(
            CellUpdateView::WorktreeState {
                item_idx,
                worktree_state: match reply {
                    ReplyView::MaybeText(t) => t,
                    _ => None,
                },
            },
        ),
        StageView::UserStatus => emit(
            CellUpdateView::UserStatus {
                item_idx,
                user_status: match reply {
                    ReplyView::MaybeText(t) => t,
                    _ => None,
                },
            },
        ),
        StageView::UpstreamBranch { .. } => match reply {
            ReplyView::MaybeText(Some(upstream_branch)) => ask(
                task.subject,
                StageView::UpstreamCounts { upstream_branch },
            ),
            ReplyView::Failed(error) => emit_upstream_failure(task, "upstream_branch"@, error),
            _ => emit_default(task),
        },
        StageView::UpstreamCounts { upstream_branch } => match reply {
            ReplyView::Counts(ahead, behind) => emit(
                CellUpdateView::Upstream {
                    item_idx,
                    upstream: UpstreamStatusView {
                        remote: remote_of(upstream_branch),
                        ahead,
                        behind,
                    },
                },
            ),
            ReplyView::Failed(error) => emit_upstream_failure(task, "ahead_behind"@, error),
            _ => emit_default(task),
        },
        StageView::WorktreeRoot { branch } => match (reply, branch) {
            (ReplyView::Text(repo_path), Some(b)) => ask(
                task.subject,
                StageView::PrStatus { branch: b, repo_path },
            ),
            _ => emit_default(task),
        },
        StageView::PrStatus { .. } => emit(
            CellUpdateView::CiStatus {
                item_idx,
                pr_status: match reply {
                    ReplyView::Ci(s) => s,
                    _ => None,
                },
            },
        ),
    }
}

/// The cell that a step belongs to.
pub open spec fn step_cell(step: StepView) -> CellKind {
    match step {
        StepView::Ask(task) => cell_of(task.stage),
        StepView::Emit { update, .. } => update.kind(),
    }
}

/// The row that a step belongs to.
pub open spec fn step_item(step: StepView) -> usize {
    match step {
        StepView::Ask(task) => task.subject.item_idx,
        StepView::Emit { update, .. } => update.item_idx(),
    }
}

/// The most answers that a step still needs before it emits.
pub open spec fn step_queries_left(step: StepView) -> nat {
    match step {
        StepView::Ask(task) => queries_left(task.stage),
        StepView::Emit { .. } => 0,
    }
}

/// Each answer brings a task nearer to its update, and never changes the cell
/// or the row that it works for.
pub proof fn lemma_advance_progress(task: CellTaskView, reply: ReplyView)
    ensures
        step_cell(advance_spec(task, reply)) == cell_of(task.stage),
        step_item(advance_spec(task, reply)) == task.subject.item_idx,
        step_queries_left(advance_spec(task, reply)) < queries_left(task.stage),
{
}

impl Subject {
    /// A copy of the subject.
    pub fn duplicate(&self) -> (r: Subject)
        ensures
            r@ == self@,
    {
        Subject {
            item_idx: self.item_idx,
            path: self.path.clone(),
            head: self.head.clone(),
            branch: clone_opt(&self.branch),
            base: clone_opt(&self.base),
            warn: self.warn,
        }
    }
}

fn upstream_failure(task: &CellTask, what: &str, error: &str) -> (step: Step)
    ensures
        step@ == emit_upstream_failure(task@, what@, error@),
{
    let update = CellUpdate::default_for(CellKind::Upstream, task.subject.item_idx);
    let warning = if task.subject.warn {
        let mut w: Vec<char> = Vec::new();
        append_str(&mut w, "Warning: ");
        append_str(&mut w, what);
        append_str(&mut w, " failed for ");
        append_str(&mut w, task.subject.path.as_str());
        append_str(&mut w, ": ");
        append_str(&mut w, error);
        Some(string_of(&w))
    } else {
        None
    };
    Step::Emit { update, warning }
}

fn remote_name(upstream_branch: &str) -> (r: Option<String>)
    ensures
        opt_view(r) == remote_of(upstream_branch@),
{
    let text = chars_of(upstream_branch);
    match split_once_chars(&text, '/') {
        Some((remote, _)) => Some(string_of(&remote)),
        None => None,
    }
}

impl CellTask {
    /// The query that the task asks at its stage.
    pub fn query(&self) -> (q: Query)
        ensures
            q@ == query_spec(self@),
    {
        match &self.stage {
            Stage::CommitTimestamp => Query::CommitTimestamp { head: self.subject.head.clone() },
            Stage::CommitMessage { .. } => Query::CommitMessage { head: self.subject.head.clone() },
            Stage::AheadBehind { base } => Query::AheadBehind {
                base: base.clone(),
                head: self.subject.head.clone(),
            },
            Stage::BranchDiff { base } => Query::BranchDiffStats {
                base: base.clone(),
                head: self.subject.head.clone(),
            },
            Stage::Status => Query::Status,
            Stage::WorkingTreeDiffStats { .. } => Query::WorkingTreeDiffStats,
            Stage::WorkingTreeDiffWithBase { is_dirty, .. } => Query::WorkingTreeDiffWithBase {
                base: clone_opt(&self.subject.base),
                is_dirty: *is_dirty,
            },
            Stage::Conflicts { base } => Query::HasMergeConflicts {
                base: base.clone(),
                head: self.subject.head.clone(),
            },
            Stage::WorktreeState => Query::WorktreeState,
            Stage::UserStatus => Query::UserStatus { branch: clone_opt(&self.subject.branch) },
            Stage::UpstreamBranch { branch } => Query::UpstreamBranch { branch: branch.clone() },
            Stage::UpstreamCounts { upstream_branch } => Query::AheadBehind {
                base: upstream_branch.clone(),
                head: self.subject.head.clone(),
            },
            Stage::WorktreeRoot { .. } => Query::WorktreeRoot,
            Stage::PrStatus { branch, repo_path } => Query::PrStatus {
                branch: branch.clone(),
                head: self.subject.head.clone(),
                repo_path: repo_path.clone(),
            },
        }
    }

    /// Takes the answer to the task's query and says what is to be done next:
    /// another query, or the update to send. A failed query never stops the
    /// task; it leaves the cell at its default value.
    pub fn advance(self, reply: Reply) -> (step: Step)
        ensures
            step@ == advance_spec(self@, reply@),
    {
        let item_idx = self.subject.item_idx;
        match self.stage {
            Stage::CommitTimestamp => {
                let timestamp = match reply {
                    Reply::Timestamp(t) => Some(t),
                    _ => None,
                };
                Step::Ask(CellTask { subject: self.subject, stage: Stage::CommitMessage { timestamp } })
            },
            Stage::CommitMessage { timestamp } => match (timestamp, reply) {
                (Some(t), Reply::Text(m)) => Step::Emit {
                    update: CellUpdate::CommitDetails {
                        item_idx,
                        commit: CommitDetails { timestamp: t, commit_message: m },
                    },
                    warning: None,
                },
                _ => Step::Emit {
                    update: CellUpdate::default_for(CellKind::CommitDetails, item_idx),
                    warning: None,
                },
            },
            Stage::AheadBehind { .. } => match reply {
                Reply::Counts(ahead, behind) => Step::Emit {
                    update: CellUpdate::AheadBehind { item_idx, counts: AheadBehind { ahead, behind } },
                    warning: None,
                },
                _ => Step::Emit {
                    update: CellUpdate::default_for(CellKind::AheadBehind, item_idx),
                    warning: None,
                },
            },
            Stage::BranchDiff { .. } => match reply {
                Reply::Diff(diff) => Step::Emit {
                    update: CellUpdate::BranchDiff { item_idx, branch_diff: BranchDiffTotals { diff } },
                    warning: None,
                },
                _ => Step::Emit {
                    update: CellUpdate::default_for(CellKind::BranchDiff, item_idx),
                    warning: None,
                },
            },
            Stage::Status => match reply {
                Reply::Text(output) => {
                    let (symbols, is_dirty) = parse_status_for_symbols(output.as_str());
                    if is_dirty {
                        Step::Ask(
                            CellTask {
                                subject: self.subject,
                                stage: Stage::WorkingTreeDiffStats { symbols },
                            },
                        )
                    } else {
                        Step::Ask(
                            CellTask {
                                subject: self.subject,
                                stage: Stage::WorkingTreeDiffWithBase {
                                    symbols,
                                    is_dirty: false,
                                    diff: LineDiff::empty(),
                                },
                            },
                        )
                    }
                },
                _ => Step::Emit {
                    update: CellUpdate::default_for(CellKind::WorkingTreeDiff, item_idx),
                    warning: None,
                },
            },
            Stage::WorkingTreeDiffStats { symbols } => {
                let diff = match reply {
                    Reply::Diff(d) => d,
                    _ => LineDiff::empty(),
                };
                Step::Ask(
                    CellTask {
                        subject: self.subject,
                        stage: Stage::WorkingTreeDiffWithBase { symbols, is_dirty: true, diff },
                    },
                )
            },
            Stage::WorkingTreeDiffWithBase { symbols, is_dirty, diff } => {
                let with_main = match reply {
                    Reply::MaybeDiff(d) => d,
                    _ => None,
                };
                Step::Emit {
                    update: CellUpdate::WorkingTreeDiff {
                        item_idx,
                        working_tree_diff: diff,
                        working_tree_diff_with_main: with_main,
                        working_tree_symbols: symbols,
                        is_dirty,
                    },
                    warning: None,
                }
            },
            Stage::Conflicts { .. } => {
                let has_conflicts = match reply {
                    Reply::Flag(b) => b,
                    _ => false,
                };
                Step::Emit { update: CellUpdate::Conflicts { item_idx, has_conflicts }, warning: None }
            },
            Stage::WorktreeState => {
                let worktree_state = match reply {
                    Reply::MaybeText(t) => t,
                    _ => None,
                };
                Step::Emit {
                    update: CellUpdate::WorktreeState { item_idx, worktree_state },
                    warning: None,
                }
            },
            Stage::UserStatus => {
                let user_status = match reply {
                    Reply::MaybeText(t) => t,
                    _ => None,
                };
                Step::Emit { update: CellUpdate::UserStatus { item_idx, user_status }, warning: None }
            },
            Stage::UpstreamBranch { branch } => match reply {
                Reply::MaybeText(Some(upstream_branch)) => Step::Ask(
                    CellTask { subject: self.subject, stage: Stage::UpstreamCounts { upstream_branch } },
                ),
                Reply::Failed(error) => {
                    let task = CellTask {
                        subject: self.subject,
                        stage: Stage::UpstreamBranch { branch },
                    };
                    upstream_failure(&task, "upstream_branch", error.as_str())
                },
                _ => Step::Emit {
                    update: CellUpdate::default_for(CellKind::Upstream, item_idx),
                    warning: None,
                },
            },
            Stage::UpstreamCounts { upstream_branch } => match reply {
                Reply::Counts(ahead, behind) => {
                    let remote = remote_name(upstream_branch.as_str());
                    Step::Emit {
                        update: CellUpdate::Upstream {
                            item_idx,
                            upstream: UpstreamStatus { remote, ahead, behind },
                        },
                        warning: None,
                    }
                },
                Reply::Failed(error) => {
                    let task = CellTask {
                        subject: self.subject,
                        stage: Stage::UpstreamCounts { upstream_branch },
                    };
                    upstream_failure(&task, "ahead_behind", error.as_str())
                },
                _ => Step::Emit {
                    update: CellUpdate::default_for(CellKind::Upstream, item_idx),
                    warning: None,
                },
            },
            Stage::WorktreeRoot { branch } => match (reply, branch) {
                (Reply::Text(repo_path), Some(b)) => Step::Ask(
                    CellTask { subject: self.subject, stage: Stage::PrStatus { branch: b, repo_path } },
                ),
                _ => Step::Emit {
                    update: CellUpdate::default_for(CellKind::CiStatus, item_idx),
                    warning: None,
                },
            },
            Stage::PrStatus { .. } => {
                let pr_status = match reply {
                    Reply::Ci(s) => s,
                    _ => None,
                };
                Step::Emit { update: CellUpdate::CiStatus { item_idx, pr_status }, warning: None }
            },
        }
    }
}

} // verus!
