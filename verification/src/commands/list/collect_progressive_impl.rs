//! Progressive collection: which queries are made for a row, and which update
//! each of its cells ends in.
//!
//! Every cell of a row is gathered by a task of its own. Where the row lacks
//! what a cell's query needs, or the caller opted out of it, the cell's default
//! value is sent at once: every cell of every row gets exactly one update.

use vstd::prelude::*;
use crate::commands::list::collect::{default_update, CellKind, CellUpdate, CellUpdateView};
use crate::commands::list::query::{Query, QueryView, Reply, ReplyView};
use crate::commands::list::task::{
    advance_spec, ask, emit, lemma_advance_progress, query_spec, step_cell, step_item,
    step_queries_left, step_views, CellTask, CellTaskView, Stage, StageView, Step, StepView, Subject,
    SubjectView,
};
use crate::git::{clone_opt, opt_view, Worktree, WorktreeView};
use crate::text::split::{lines, lines_of, views};
use crate::text::{chars_of, string_of};

verus! {

// ---------------------------------------------------------------------------
// Status symbols
// ---------------------------------------------------------------------------

/// Whether a line of the short status listing stands for a changed file: it
/// takes up at least two bytes.
pub open spec fn status_line_counts(line: Seq<char>) -> bool {
    line.len() >= 2 || (line.len() == 1 && line[0] >= '\u{80}')
}

/// Whether the first status column of a counted line is `c` (an ASCII letter
/// or sign): the state of the file in the index.
pub open spec fn index_status_is(line: Seq<char>, c: char) -> bool {
    status_line_counts(line) && line[0] == c
}

/// Whether the second status column of a counted line is `c`: the state of the
/// file in the working tree.
pub open spec fn worktree_status_is(line: Seq<char>, c: char) -> bool {
    line.len() >= 2 && line[0] < '\u{80}' && line[1] == c
}

pub open spec fn line_untracked(line: Seq<char>) -> bool {
    index_status_is(line, '?') && worktree_status_is(line, '?')
}

pub open spec fn line_modified(line: Seq<char>) -> bool {
    worktree_status_is(line, 'M')
}

pub open spec fn line_staged(line: Seq<char>) -> bool {
    index_status_is(line, 'A') || index_status_is(line, 'M') || index_status_is(line, 'C')
}

pub open spec fn line_renamed(line: Seq<char>) -> bool {
    index_status_is(line, 'R')
}

pub open spec fn line_deleted(line: Seq<char>) -> bool {
    index_status_is(line, 'D') || worktree_status_is(line, 'D')
}

/// Whether the status listing names any changed file.
pub open spec fn status_is_dirty(output: Seq<char>) -> bool {
    exists|i: int| 0 <= i < lines(output).len() && status_line_counts(#[trigger] lines(output)[i])
}

/// `mark` if `present`, else nothing.
pub open spec fn symbol_if(present: bool, mark: char) -> Seq<char> {
    if present {
        seq![mark]
    } else {
        seq![]
    }
}

/// The symbols for a status listing: `?` untracked, `!` modified, `+` staged,
/// `»` renamed, `✘` deleted, each at most once and in this order.
pub open spec fn status_symbols(output: Seq<char>) -> Seq<char> {
    let ls = lines(output);
    symbol_if(exists|i: int| 0 <= i < ls.len() && line_untracked(#[trigger] ls[i]), '?')
        + symbol_if(exists|i: int| 0 <= i < ls.len() && line_modified(#[trigger] ls[i]), '!')
        + symbol_if(exists|i: int| 0 <= i < ls.len() && line_staged(#[trigger] ls[i]), '+')
        + symbol_if(exists|i: int| 0 <= i < ls.len() && line_renamed(#[trigger] ls[i]), '»')
        + symbol_if(exists|i: int| 0 <= i < ls.len() && line_deleted(#[trigger] ls[i]), '✘')
}

/// Reads the short status listing of a working tree. Returns the symbols for
/// the kinds of change it shows and whether it shows any change at all.
pub fn parse_status_for_symbols(status_output: &str) -> (r: (String, bool))
    ensures
        r.0@ == status_symbols(status_output@),
        r.1 == status_is_dirty(status_output@),
{
    let text = chars_of(status_output);
    let ls = lines_of(&text);
    let ghost lv = lines(status_output@);
    let mut has_untracked = false;
    let mut has_modified = false;
    let mut has_staged = false;
    let mut has_renamed = false;
    let mut has_deleted = false;
    let mut is_dirty = false;
    let mut k: usize = 0;
    while k < ls.len()
        invariant
            k <= ls.len(),
            views(ls@) == lv,
            is_dirty == exists|i: int| 0 <= i < k && status_line_counts(#[trigger] lv[i]),
            has_untracked == exists|i: int| 0 <= i < k && line_untracked(#[trigger] lv[i]),
            has_modified == exists|i: int| 0 <= i < k && line_modified(#[trigger] lv[i]),
            has_staged == exists|i: int| 0 <= i < k && line_staged(#[trigger] lv[i]),
            has_renamed == exists|i: int| 0 <= i < k && line_renamed(#[trigger] lv[i]),
            has_deleted == exists|i: int| 0 <= i < k && line_deleted(#[trigger] lv[i]),
        decreases ls.len() - k,
    {
        let line = &ls[k];
        assert(lv[k as int] == line@);
        let n = line.len();
        let counts = n >= 2 || (n == 1 && line[0] >= '\u{80}');
        if counts {
            let first = line[0];
            let two = n >= 2 && first < '\u{80}';
            is_dirty = true;
            if first == '?' && two && line[1] == '?' {
                has_untracked = true;
            }
            if two && line[1] == 'M' {
                has_modified = true;
            }
            if first == 'A' || first == 'M' || first == 'C' {
                has_staged = true;
            }
            if first == 'R' {
                has_renamed = true;
            }
            if first == 'D' || (two && line[1] == 'D') {
                has_deleted = true;
            }
        }
        k += 1;
    }
    let mut working_tree: Vec<char> = Vec::new();
    if has_untracked {
        working_tree.push('?');
    }
    if has_modified {
        working_tree.push('!');
    }
    if has_staged {
        working_tree.push('+');
    }
    if has_renamed {
        working_tree.push('»');
    }
    if has_deleted {
        working_tree.push('✘');
    }
    assert(working_tree@ =~= status_symbols(status_output@));
    (string_of(&working_tree), is_dirty)
}

// ---------------------------------------------------------------------------
// How a step ends
// ---------------------------------------------------------------------------

/// Where a step stands after the answers `replies` were handed to it one by
/// one. A step that has emitted takes no further answer.
pub open spec fn settle(step: StepView, replies: Seq<ReplyView>) -> StepView
    decreases replies.len(),
{
    match step {
        StepView::Emit { .. } => step,
        StepView::Ask(task) => if replies.len() == 0 {
            step
        } else {
            settle(advance_spec(task, replies[0]), replies.drop_first())
        },
    }
}

/// Whatever the repository answers, failures included, a step ends in exactly
/// one update, for its own cell and its own row, once it has had as many
/// answers as it can ask for.
pub proof fn lemma_step_emits(step: StepView, replies: Seq<ReplyView>)
    requires
        replies.len() >= step_queries_left(step),
    ensures
        settle(step, replies) is Emit,
        step_cell(settle(step, replies)) == step_cell(step),
        step_item(settle(step, replies)) == step_item(step),
    decreases replies.len(),
{
    match step {
        StepView::Emit { .. } => {},
        StepView::Ask(task) => {
            lemma_advance_progress(task, replies[0]);
            lemma_step_emits(advance_spec(task, replies[0]), replies.drop_first());
        },
    }
}

// ---------------------------------------------------------------------------
// The tasks of a row
// ---------------------------------------------------------------------------

/// The cells gathered for a working copy, in the order of its tasks.
pub open spec fn worktree_cells() -> Seq<CellKind> {
    seq![
        CellKind::CommitDetails,
        CellKind::AheadBehind,
        CellKind::BranchDiff,
        CellKind::WorkingTreeDiff,
        CellKind::Conflicts,
        CellKind::WorktreeState,
        CellKind::UserStatus,
        CellKind::Upstream,
        CellKind::CiStatus,
    ]
}

/// The cells gathered for a branch without a working copy, in the order of its
/// tasks. It has no working tree, so three cells fall away.
pub open spec fn branch_cells() -> Seq<CellKind> {
    seq![
        CellKind::CommitDetails,
        CellKind::AheadBehind,
        CellKind::BranchDiff,
        CellKind::Upstream,
        CellKind::Conflicts,
        CellKind::CiStatus,
    ]
}

/// The first step for one cell of a row. Where the row lacks what the cell's
/// query needs (no base branch, no branch, or the caller opted out), the step
/// sends the cell's default value at once.
///
/// `locate_root` says whether the root of the working copy is asked for before
/// the continuous-integration service is.
pub open spec fn first_step(
    kind: CellKind,
    subject: SubjectView,
    fetch_ci: bool,
    check_conflicts: bool,
    locate_root: bool,
) -> StepView {
    let skip = emit(default_update(kind, subject.item_idx));
    match kind {
        CellKind::CommitDetails => ask(subject, StageView::CommitTimestamp),
        CellKind::AheadBehind => match subject.base {
            Some(base) => ask(subject, StageView::AheadBehind { base }),
            None => skip,
        },
        CellKind::BranchDiff => match subject.base {
            Some(base) => ask(subject, StageView::BranchDiff { base }),
            None => skip,
        },
        CellKind::WorkingTreeDiff => ask(subject, StageView::Status),
        CellKind::Conflicts => match subject.base {
            Some(base) => if check_conflicts {
                ask(subject, StageView::Conflicts { base })
            } else {
                skip
            },
            None => skip,
        },
        CellKind::WorktreeState => ask(subject, StageView::WorktreeState),
        CellKind::UserStatus => ask(subject, StageView::UserStatus),
        CellKind::Upstream => match subject.branch {
            Some(branch) => ask(subject, StageView::UpstreamBranch { branch }),
            None => skip,
        },
        CellKind::CiStatus => if !fetch_ci {
            skip
        } else if locate_root {
            ask(subject, StageView::WorktreeRoot { branch: subject.branch })
        } else {
            match subject.branch {
                Some(branch) => ask(
                    subject,
                    StageView::PrStatus { branch, repo_path: subject.path },
                ),
                None => skip,
            }
        },
    }
}

/// The subject for a working copy. It is compared with the branch of the
/// primary working copy, unless it is the primary one itself.
pub open spec fn worktree_subject(
    wt: WorktreeView,
    primary: WorktreeView,
    item_idx: usize,
) -> SubjectView {
    SubjectView {
        item_idx,
        path: wt.path,
        head: wt.head,
        branch: wt.branch,
        base: if wt.path != primary.path {
            primary.branch
        } else {
            None
        },
        warn: true,
    }
}

/// The subject for a branch without a working copy. Its queries are asked at
/// the primary working copy.
pub open spec fn branch_subject(
    branch_name: Seq<char>,
    commit_sha: Seq<char>,
    primary: WorktreeView,
    item_idx: usize,
) -> SubjectView {
    SubjectView {
        item_idx,
        path: primary.path,
        head: commit_sha,
        branch: Some(branch_name),
        base: primary.branch,
        warn: false,
    }
}

/// The first steps for the cells `cells` of one row.
pub open spec fn plan(
    cells: Seq<CellKind>,
    subject: SubjectView,
    fetch_ci: bool,
    check_conflicts: bool,
    locate_root: bool,
) -> Seq<StepView> {
    Seq::new(
        cells.len(),
        |k: int| first_step(cells[k], subject, fetch_ci, check_conflicts, locate_root),
    )
}

fn start(
    kind: CellKind,
    subject: &Subject,
    fetch_ci: bool,
    check_conflicts: bool,
    locate_root: bool,
) -> (step: Step)
    ensures
        step@ == first_step(kind, subject@, fetch_ci, check_conflicts, locate_root),
{
    let item_idx = subject.item_idx;
    let stage: Option<Stage> = match kind {
        CellKind::CommitDetails => Some(Stage::CommitTimestamp),
        CellKind::AheadBehind => match &subject.base {
            Some(base) => Some(Stage::AheadBehind { base: base.clone() }),
            None => None,
        },
        CellKind::BranchDiff => match &subject.base {
            Some(base) => Some(Stage::BranchDiff { base: base.clone() }),
            None => None,
        },
        CellKind::WorkingTreeDiff => Some(Stage::Status),
        CellKind::Conflicts => match &subject.base {
            Some(base) => if check_conflicts {
                Some(Stage::Conflicts { base: base.clone() })
            } else {
                None
            },
            None => None,
        },
        CellKind::WorktreeState => Some(Stage::WorktreeState),
        CellKind::UserStatus => Some(Stage::UserStatus),
        CellKind::Upstream => match &subject.branch {
            Some(branch) => Some(Stage::UpstreamBranch { branch: branch.clone() }),
            None => None,
        },
        CellKind::CiStatus => if !fetch_ci {
            None
        } else if locate_root {
            Some(Stage::WorktreeRoot { branch: clone_opt(&subject.branch) })
        } else {
            match &subject.branch {
                Some(branch) => Some(
                    Stage::PrStatus { branch: branch.clone(), repo_path: subject.path.clone() },
                ),
                None => None,
            }
        },
    };
    match stage {
        Some(stage) => Step::Ask(CellTask { subject: subject.duplicate(), stage }),
        None => Step::Emit { update: CellUpdate::default_for(kind, item_idx), warning: None },
    }
}

/// Starts the collection for a working copy: returns the first step of each of
/// its nine cells. The caller runs each step to its end, on a task of its own:
/// it asks the query of an `Ask` step at the working copy, hands the answer to
/// [`CellTask::advance`] and goes on with the step that comes back, until an
/// `Emit` step tells it which update to send.
pub fn collect_worktree_progressive(
    wt: &Worktree,
    primary: &Worktree,
    item_idx: usize,
    fetch_ci: bool,
    check_conflicts: bool,
) -> (steps: Vec<Step>)
    ensures
        step_views(steps@) == plan(
            worktree_cells(),
            worktree_subject(wt@, primary@, item_idx),
            fetch_ci,
            check_conflicts,
            true,
        ),
{
    let base = if wt.path != primary.path {
        clone_opt(&primary.branch)
    } else {
        None
    };
    let subject = Subject {
        item_idx,
        path: wt.path.clone(),
        head: wt.head.clone(),
        branch: clone_opt(&wt.branch),
        base,
        warn: true,
    };
    let mut steps: Vec<Step> = Vec::new();
    steps.push(start(CellKind::CommitDetails, &subject, fetch_ci, check_conflicts, true));
    steps.push(start(CellKind::AheadBehind, &subject, fetch_ci, check_conflicts, true));
    steps.push(start(CellKind::BranchDiff, &subject, fetch_ci, check_conflicts, true));
    steps.push(start(CellKind::WorkingTreeDiff, &subject, fetch_ci, check_conflicts, true));
    steps.push(start(CellKind::Conflicts, &subject, fetch_ci, check_conflicts, true));
    steps.push(start(CellKind::WorktreeState, &subject, fetch_ci, check_conflicts, true));
    steps.push(start(CellKind::UserStatus, &subject, fetch_ci, check_conflicts, true));
    steps.push(start(CellKind::Upstream, &subject, fetch_ci, check_conflicts, true));
    steps.push(start(CellKind::CiStatus, &subject, fetch_ci, check_conflicts, true));
    assert(step_views(steps@) =~= plan(
        worktree_cells(),
        worktree_subject(wt@, primary@, item_idx),
        fetch_ci,
        check_conflicts,
        true,
    ));
    steps
}

/// Starts the collection for a branch without a working copy: returns the
/// first step of each of its six cells, to be run like those of a working
/// copy.
pub fn collect_branch_progressive(
    branch_name: &str,
    commit_sha: &str,
    primary: &Worktree,
    item_idx: usize,
    fetch_ci: bool,
    check_conflicts: bool,
) -> (steps: Vec<Step>)
    ensures
        step_views(steps@) == plan(
            branch_cells(),
            branch_subject(branch_name@, commit_sha@, primary@, item_idx),
            fetch_ci,
            check_conflicts,
            false,
        ),
{
    let subject = Subject {
        item_idx,
        path: primary.path.clone(),
        head: string_of(&chars_of(commit_sha)),
        branch: Some(string_of(&chars_of(branch_name))),
        base: clone_opt(&primary.branch),
        warn: false,
    };
    let mut steps: Vec<Step> = Vec::new();
    steps.push(start(CellKind::CommitDetails, &subject, fetch_ci, check_conflicts, false));
    steps.push(start(CellKind::AheadBehind, &subject, fetch_ci, check_conflicts, false));
    steps.push(start(CellKind::BranchDiff, &subject, fetch_ci, check_conflicts, false));
    steps.push(start(CellKind::Upstream, &subject, fetch_ci, check_conflicts, false));
    steps.push(start(CellKind::Conflicts, &subject, fetch_ci, check_conflicts, false));
    steps.push(start(CellKind::CiStatus, &subject, fetch_ci, check_conflicts, false));
    assert(step_views(steps@) =~= plan(
        branch_cells(),
        branch_subject(branch_name@, commit_sha@, primary@, item_idx),
        fetch_ci,
        check_conflicts,
        false,
    ));
    steps
}

/// The first step of a cell is a step for that cell and that row, and asks at
/// most three queries.
pub proof fn lemma_first_step(
    kind: CellKind,
    subject: SubjectView,
    fetch_ci: bool,
    check_conflicts: bool,
    locate_root: bool,
)
    ensures
        step_cell(first_step(kind, subject, fetch_ci, check_conflicts, locate_root)) == kind,
        step_item(first_step(kind, subject, fetch_ci, check_conflicts, locate_root))
            == subject.item_idx,
        step_queries_left(first_step(kind, subject, fetch_ci, check_conflicts, locate_root)) <= 3,
{
}

/// Every row gets exactly one update for each of its cells, nine for a working
/// copy and six for a branch, each carrying the row's index, whatever the
/// options are and whatever the repository answers, be it a failure every
/// time.
///
/// `replies[k]` holds the answers that the task of the `k`-th cell gets, of
/// which it uses as many as it asks queries.
pub proof fn lemma_one_update_per_cell(
    cells: Seq<CellKind>,
    subject: SubjectView,
    fetch_ci: bool,
    check_conflicts: bool,
    locate_root: bool,
    replies: Seq<Seq<ReplyView>>,
)
    requires
        replies.len() == cells.len(),
        forall|k: int| 0 <= k < replies.len() ==> (#[trigger] replies[k]).len() >= 3,
    ensures
        plan(cells, subject, fetch_ci, check_conflicts, locate_root).len() == cells.len(),
        worktree_cells().len() == 9,
        branch_cells().len() == 6,
        forall|k: int|
            0 <= k < cells.len() ==> {
                let end = settle(
                    #[trigger] plan(cells, subject, fetch_ci, check_conflicts, locate_root)[k],
                    replies[k],
                );
                &&& end is Emit
                &&& end->update.kind() == cells[k]
                &&& end->update.item_idx() == subject.item_idx
            },
{
    let steps = plan(cells, subject, fetch_ci, check_conflicts, locate_root);
    assert forall|k: int| 0 <= k < cells.len() implies {
        let end = settle(#[trigger] steps[k], replies[k]);
        &&& end is Emit
        &&& end->update.kind() == cells[k]
        &&& end->update.item_idx() == subject.item_idx
    } by {
        lemma_first_step(cells[k], subject, fetch_ci, check_conflicts, locate_root);
        lemma_step_emits(steps[k], replies[k]);
    }
}

/// Where a step stands after at most `fuel` queries were asked of a repository
/// that answers `repo(q)` to the query `q`.
pub open spec fn run(step: StepView, repo: spec_fn(QueryView) -> ReplyView, fuel: nat) -> StepView
    decreases fuel,
{
    match step {
        StepView::Emit { .. } => step,
        StepView::Ask(task) => if fuel == 0 {
            step
        } else {
            run(advance_spec(task, repo(query_spec(task))), repo, (fuel - 1) as nat)
        },
    }
}

/// Against any repository, a step ends in one update for its cell and row
/// after as many queries as it can ask.
pub proof fn lemma_run_emits(step: StepView, repo: spec_fn(QueryView) -> ReplyView, fuel: nat)
    requires
        fuel >= step_queries_left(step),
    ensures
        run(step, repo, fuel) is Emit,
        step_cell(run(step, repo, fuel)) == step_cell(step),
        step_item(run(step, repo, fuel)) == step_item(step),
    decreases fuel,
{
    match step {
        StepView::Emit { .. } => {},
        StepView::Ask(task) => {
            let reply = repo(query_spec(task));
            lemma_advance_progress(task, reply);
            lemma_run_emits(advance_spec(task, reply), repo, (fuel - 1) as nat);
        },
    }
}

/// Collecting twice from a repository that has not changed gives the same
/// values: two repositories that answer every query alike lead every step to
/// the same update and the same warning.
pub proof fn lemma_collection_repeats(
    step: StepView,
    first: spec_fn(QueryView) -> ReplyView,
    second: spec_fn(QueryView) -> ReplyView,
    fuel: nat,
)
    requires
        forall|q: QueryView| #[trigger] first(q) == second(q),
    ensures
        run(step, first, fuel) == run(step, second, fuel),
    decreases fuel,
{
    match step {
        StepView::Emit { .. } => {},
        StepView::Ask(task) => {
            if fuel > 0 {
                let reply = first(query_spec(task));
                assert(reply == second(query_spec(task)));
                lemma_collection_repeats(
                    advance_spec(task, reply),
                    first,
                    second,
                    (fuel - 1) as nat,
                );
            }
        },
    }
}

// ---------------------------------------------------------------------------
// Running steps in sequence
// ---------------------------------------------------------------------------

/// One more answer takes a step that still asks one step further.
proof fn lemma_settle_push(step: StepView, replies: Seq<ReplyView>, reply: ReplyView)
    requires
        settle(step, replies) is Ask,
    ensures
        settle(step, replies.push(reply)) == advance_spec(settle(step, replies)->0, reply),
    decreases replies.len(),
{
    match step {
        StepView::Emit { .. } => {
            assert(settle(step, replies) == step);
        },
        StepView::Ask(task) => {
            let longer = replies.push(reply);
            if replies.len() == 0 {
                assert(longer.drop_first() =~= Seq::<ReplyView>::empty());
                assert(longer[0] == reply);
                let next = advance_spec(task, reply);
                assert(settle(next, longer.drop_first()) == next);
                assert(settle(step, replies) == step);
            } else {
                assert(longer.drop_first() =~= replies.drop_first().push(reply));
                assert(longer[0] == replies[0]);
                let next = advance_spec(task, replies[0]);
                assert(settle(step, replies) == settle(next, replies.drop_first()));
                lemma_settle_push(next, replies.drop_first(), reply);
            }
        },
    }
}

/// The views of `replies`.
pub open spec fn reply_views(replies: Seq<Reply>) -> Seq<ReplyView> {
    Seq::new(replies.len(), |i: int| replies[i]@)
}

/// Whether `reply` is an answer that `ask` may give to the query of `task`,
/// asked at the working copy of its subject.
pub open spec fn answers<F: Fn(&Query, &str) -> Reply>(ask: F, task: CellTaskView, reply: Reply) -> bool {
    exists|q: Query, path: &str|
        q@ == query_spec(task) && path@ == task.subject.path && #[trigger] ask.ensures(
            (&q, path),
            reply,
        )
}

/// Whether `replies` are answers of `ask`, each to the query that `step` has
/// come to ask after the answers before it.
pub open spec fn given_by<F: Fn(&Query, &str) -> Reply>(
    ask: F,
    step: StepView,
    replies: Seq<Reply>,
) -> bool
    decreases replies.len(),
{
    if replies.len() == 0 {
        true
    } else {
        match step {
            StepView::Emit { .. } => false,
            StepView::Ask(task) => answers(ask, task, replies[0]) && given_by(
                ask,
                advance_spec(task, replies[0]@),
                replies.drop_first(),
            ),
        }
    }
}

/// Whether `update` and `warning` are what `step` ends in when its queries are
/// answered by `ask`: after some answers of `ask`, three at most, the step has
/// emitted them.
pub open spec fn ends_in<F: Fn(&Query, &str) -> Reply>(
    ask: F,
    step: StepView,
    update: CellUpdateView,
    warning: Option<Seq<char>>,
) -> bool {
    exists|replies: Seq<Reply>|
        replies.len() <= 3 && given_by(ask, step, replies) && #[trigger] settle(
            step,
            reply_views(replies),
        ) == (StepView::Emit { update, warning })
}

/// One more answer of `ask` to the query that a step has come to ask is one
/// more answer given by `ask`.
proof fn lemma_given_by_push<F: Fn(&Query, &str) -> Reply>(
    ask: F,
    step: StepView,
    replies: Seq<Reply>,
    reply: Reply,
)
    requires
        given_by(ask, step, replies),
        settle(step, reply_views(replies)) is Ask,
        answers(ask, settle(step, reply_views(replies))->0, reply),
    ensures
        given_by(ask, step, replies.push(reply)),
        reply_views(replies.push(reply)) == reply_views(replies).push(reply@),
    decreases replies.len(),
{
    let longer = replies.push(reply);
    assert(reply_views(longer) =~= reply_views(replies).push(reply@));
    match step {
        StepView::Emit { .. } => {
            assert(settle(step, reply_views(replies)) == step);
        },
        StepView::Ask(task) => {
            if replies.len() == 0 {
                assert(settle(step, reply_views(replies)) == step);
                assert(longer[0] == reply);
                assert(longer.drop_first() =~= Seq::<Reply>::empty());
                assert(given_by(ask, advance_spec(task, reply@), longer.drop_first()));
            } else {
                let next = advance_spec(task, replies[0]@);
                assert(reply_views(replies)[0] == replies[0]@);
                assert(reply_views(replies).drop_first() =~= reply_views(replies.drop_first()));
                assert(settle(step, reply_views(replies)) == settle(
                    next,
                    reply_views(replies.drop_first()),
                ));
                lemma_given_by_push(ask, next, replies.drop_first(), reply);
                assert(longer[0] == replies[0]);
                assert(longer.drop_first() =~= replies.drop_first().push(reply));
                assert(given_by(ask, next, longer.drop_first()));
            }
        },
    }
}

/// Runs one step to its end. `ask` asks the repository: it is handed a query
/// and the path of the working copy to ask at, and returns the answer. The
/// step ends in the one update that the answers of `ask` lead to, for its own
/// cell and row.
pub fn run_step<F: Fn(&Query, &str) -> Reply>(step: Step, ask: &F) -> (end: (
    CellUpdate,
    Option<String>,
))
    requires
        forall|q: &Query, path: &str| ask.requires((q, path)),
    ensures
        ends_in(*ask, step@, end.0@, opt_view(end.1)),
        end.0@.kind() == step_cell(step@),
        end.0@.item_idx() == step_item(step@),
{
    let ghost start = step@;
    let ghost mut replies: Seq<Reply> = Seq::empty();
    let mut current = step;
    proof {
        lemma_queries_left(start);
        assert(reply_views(replies) =~= Seq::<ReplyView>::empty());
    }
    loop
        invariant
            forall|q: &Query, path: &str| ask.requires((q, path)),
            start == step@,
            given_by(*ask, start, replies),
            settle(start, reply_views(replies)) == current@,
            step_cell(current@) == step_cell(start),
            step_item(current@) == step_item(start),
            replies.len() + step_queries_left(current@) <= 3,
        decreases step_queries_left(current@),
    {
        match current {
            Step::Emit { update, warning } => {
                return (update, warning);
            },
            Step::Ask(task) => {
                let query = task.query();
                let reply = ask(&query, task.subject.path.as_str());
                proof {
                    assert(answers(*ask, task@, reply));
                    lemma_given_by_push(*ask, start, replies, reply);
                    lemma_settle_push(start, reply_views(replies), reply@);
                    lemma_advance_progress(task@, reply@);
                    replies = replies.push(reply);
                }
                current = task.advance(reply);
            },
        }
    }
}

/// No step asks more than three queries.
pub proof fn lemma_queries_left(step: StepView)
    ensures
        step_queries_left(step) <= 3,
{
}

/// What a step ended in: the update to send and the warning to print before
/// it, if there is one.
#[derive(Debug, Clone, PartialEq, Eq)]
pub struct Emitted {
    pub update: CellUpdate,
    pub warning: Option<String>,
}

/// Runs the steps of a row one after the other, each to its end, and returns
/// what they ended in, in the same order: one update for every step, whatever
/// the repository answers.
pub fn run_steps<F: Fn(&Query, &str) -> Reply>(steps: Vec<Step>, ask: &F) -> (out: Vec<Emitted>)
    requires
        forall|q: &Query, path: &str| ask.requires((q, path)),
    ensures
        out.len() == steps.len(),
        forall|k: int|
            0 <= k < out.len() ==> {
                &&& ends_in(
                    *ask,
                    step_views(steps@)[k],
                    (#[trigger] out[k]).update@,
                    opt_view(out[k].warning),
                )
                &&& out[k].update@.kind() == step_cell(step_views(steps@)[k])
                &&& out[k].update@.item_idx() == step_item(step_views(steps@)[k])
            },
{
    let ghost given = step_views(steps@);
    let mut steps = steps;
    let mut rest: Vec<Step> = Vec::new();
    while steps.len() > 0
        invariant
            steps.len() + rest.len() == given.len(),
            forall|i: int| 0 <= i < steps.len() ==> (#[trigger] steps[i])@ == given[i],
            forall|j: int|
                0 <= j < rest.len() ==> (#[trigger] rest[j])@ == given[given.len() - 1 - j],
        decreases steps.len(),
    {
        let ghost n = steps.len();
        let step = steps.pop().unwrap();
        assert(step@ == given[n - 1]);
        rest.push(step);
    }
    let mut out: Vec<Emitted> = Vec::new();
    while rest.len() > 0
        invariant
            forall|q: &Query, path: &str| ask.requires((q, path)),
            out.len() + rest.len() == given.len(),
            forall|j: int|
                0 <= j < rest.len() ==> (#[trigger] rest[j])@ == given[given.len() - 1 - j],
            forall|k: int|
                0 <= k < out.len() ==> {
                    &&& ends_in(
                        *ask,
                        given[k],
                        (#[trigger] out[k]).update@,
                        opt_view(out[k].warning),
                    )
                    &&& out[k].update@.kind() == step_cell(given[k])
                    &&& out[k].update@.item_idx() == step_item(given[k])
                },
        decreases rest.len(),
    {
        let ghost m = rest.len();
        let step = rest.pop().unwrap();
        assert(step@ == given[given.len() - m]);
        let (update, warning) = run_step(step, ask);
        out.push(Emitted { update, warning });
    }
    out
}

/// Collects a working copy in sequence: runs the tasks of its nine cells one
/// after the other and returns the nine updates, in the order of the cells,
/// each for the row `item_idx`. This is the whole collection where no
/// concurrency is wanted; with concurrency each step is run on a task of its
/// own.
pub fn collect_worktree_in_sequence<F: Fn(&Query, &str) -> Reply>(
    wt: &Worktree,
    primary: &Worktree,
    item_idx: usize,
    fetch_ci: bool,
    check_conflicts: bool,
    ask: &F,
) -> (out: Vec<Emitted>)
    requires
        forall|q: &Query, path: &str| ask.requires((q, path)),
    ensures
        out.len() == 9,
        forall|k: int|
            0 <= k < 9 ==> (#[trigger] out[k]).update@.kind() == worktree_cells()[k]
                && out[k].update@.item_idx() == item_idx,
        forall|k: int|
            0 <= k < 9 ==> ends_in(
                *ask,
                plan(
                    worktree_cells(),
                    worktree_subject(wt@, primary@, item_idx),
                    fetch_ci,
                    check_conflicts,
                    true,
                )[k],
                (#[trigger] out[k]).update@,
                opt_view(out[k].warning),
            ),
{
    let steps = collect_worktree_progressive(wt, primary, item_idx, fetch_ci, check_conflicts);
    proof {
        let subject = worktree_subject(wt@, primary@, item_idx);
        assert(worktree_cells().len() == 9);
        assert(step_views(steps@).len() == steps.len());
        assert forall|k: int| 0 <= k < 9 implies step_cell(#[trigger] step_views(steps@)[k])
            == worktree_cells()[k] && step_item(step_views(steps@)[k]) == item_idx by {
            lemma_first_step(worktree_cells()[k], subject, fetch_ci, check_conflicts, true);
        }
    }
    run_steps(steps, ask)
}

/// Collects a branch without a working copy in sequence: runs the tasks of its
/// six cells one after the other and returns the six updates, in the order of
/// the cells, each for the row `item_idx`.
pub fn collect_branch_in_sequence<F: Fn(&Query, &str) -> Reply>(
    branch_name: &str,
    commit_sha: &str,
    primary: &Worktree,
    item_idx: usize,
    fetch_ci: bool,
    check_conflicts: bool,
    ask: &F,
) -> (out: Vec<Emitted>)
    requires
        forall|q: &Query, path: &str| ask.requires((q, path)),
    ensures
        out.len() == 6,
        forall|k: int|
            0 <= k < 6 ==> (#[trigger] out[k]).update@.kind() == branch_cells()[k]
                && out[k].update@.item_idx() == item_idx,
        forall|k: int|
            0 <= k < 6 ==> ends_in(
                *ask,
                plan(
                    branch_cells(),
                    branch_subject(branch_name@, commit_sha@, primary@, item_idx),
                    fetch_ci,
                    check_conflicts,
                    false,
                )[k],
                (#[trigger] out[k]).update@,
                opt_view(out[k].warning),
            ),
{
    let steps = collect_branch_progressive(
        branch_name,
        commit_sha,
        primary,
        item_idx,
        fetch_ci,
        check_conflicts,
    );
    proof {
        let subject = branch_subject(branch_name@, commit_sha@, primary@, item_idx);
        assert(branch_cells().len() == 6);
        assert(step_views(steps@).len() == steps.len());
        assert forall|k: int| 0 <= k < 6 implies step_cell(#[trigger] step_views(steps@)[k])
            == branch_cells()[k] && step_item(step_views(steps@)[k]) == item_idx by {
            lemma_first_step(branch_cells()[k], subject, fetch_ci, check_conflicts, false);
        }
    }
    run_steps(steps, ask)
}

} // verus!
