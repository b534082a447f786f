use worktrunk::commands::list::ci_status::PrStatus;
use worktrunk::commands::list::collect::{CellKind, CellUpdate};
use worktrunk::commands::list::collect_progressive_impl::{
    collect_branch_in_sequence, collect_branch_progressive, collect_worktree_in_sequence,
    collect_worktree_progressive, parse_status_for_symbols, run_step, run_steps,
};
use worktrunk::commands::list::query::{Query, Reply};
use worktrunk::commands::list::task::{CellTask, Stage, Step, Subject};
use worktrunk::commands::list::{AheadBehind, BranchDiffTotals, CommitDetails, UpstreamStatus};
use worktrunk::git::{LineDiff, Worktree};

fn worktree(path: &str, head: &str, branch: Option<&str>) -> Worktree {
    Worktree {
        path: path.to_string(),
        head: head.to_string(),
        branch: branch.map(|b| b.to_string()),
        bare: false,
        detached: false,
        locked: None,
        prunable: None,
    }
}

fn kinds(steps: &[Step]) -> Vec<CellKind> {
    steps
        .iter()
        .map(|s| match s {
            Step::Ask(task) => match task.stage {
                Stage::CommitTimestamp | Stage::CommitMessage { .. } => CellKind::CommitDetails,
                Stage::AheadBehind { .. } => CellKind::AheadBehind,
                Stage::BranchDiff { .. } => CellKind::BranchDiff,
                Stage::Status
                | Stage::WorkingTreeDiffStats { .. }
                | Stage::WorkingTreeDiffWithBase { .. } => CellKind::WorkingTreeDiff,
                Stage::Conflicts { .. } => CellKind::Conflicts,
                Stage::WorktreeState => CellKind::WorktreeState,
                Stage::UserStatus => CellKind::UserStatus,
                Stage::UpstreamBranch { .. } | Stage::UpstreamCounts { .. } => CellKind::Upstream,
                Stage::WorktreeRoot { .. } | Stage::PrStatus { .. } => CellKind::CiStatus,
            },
            Step::Emit { update, .. } => update.kind(),
        })
        .collect()
}

fn all_nine() -> Vec<CellKind> {
    vec![
        CellKind::CommitDetails,
        CellKind::AheadBehind,
        CellKind::BranchDiff,
        CellKind::WorkingTreeDiff,
        CellKind::Conflicts,
        CellKind::WorktreeState,
        CellKind::UserStatus,
        CellKind::Upstream,
        CellKind::CiStatus,
    ]
}

fn branch_six() -> Vec<CellKind> {
    vec![
        CellKind::CommitDetails,
        CellKind::AheadBehind,
        CellKind::BranchDiff,
        CellKind::Upstream,
        CellKind::Conflicts,
        CellKind::CiStatus,
    ]
}

fn subject(warn: bool) -> Subject {
    Subject {
        item_idx: 4,
        path: "/repo.x".to_string(),
        head: "abc".to_string(),
        branch: Some("x".to_string()),
        base: Some("main".to_string()),
        warn,
    }
}

fn failing(_: &Query, _: &str) -> Reply {
    Reply::Failed("fatal: not a git repository".to_string())
}

#[test]
fn status_symbols_for_each_kind_of_change() {
    assert_eq!(parse_status_for_symbols(""), (String::new(), false));
    assert_eq!(parse_status_for_symbols("?? new.txt\n"), ("?".to_string(), true));
    assert_eq!(parse_status_for_symbols(" M changed.rs\n"), ("!".to_string(), true));
    assert_eq!(parse_status_for_symbols("A  added.rs\n"), ("+".to_string(), true));
    assert_eq!(parse_status_for_symbols("M  staged.rs\n"), ("+".to_string(), true));
    assert_eq!(parse_status_for_symbols("C  copied.rs\n"), ("+".to_string(), true));
    assert_eq!(parse_status_for_symbols("R  old -> new\n"), ("»".to_string(), true));
    assert_eq!(parse_status_for_symbols("D  gone.rs\n"), ("✘".to_string(), true));
    assert_eq!(parse_status_for_symbols(" D gone.rs\n"), ("✘".to_string(), true));
}

#[test]
fn status_symbols_keep_their_order_and_appear_once() {
    let output = " D z\nR  a -> b\nMM both.rs\n?? u1\n?? u2\nAM x\n";
    assert_eq!(parse_status_for_symbols(output), ("?!+»✘".to_string(), true));
}

#[test]
fn status_lines_shorter_than_two_bytes_do_not_count() {
    assert_eq!(parse_status_for_symbols("\nM\n"), (String::new(), false));
    // Two bytes, though one character: the tree counts as dirty, without a symbol.
    assert_eq!(parse_status_for_symbols("é\n"), (String::new(), true));
    assert_eq!(parse_status_for_symbols("éM\n"), (String::new(), true));
    assert_eq!(parse_status_for_symbols("!! ignored\n"), (String::new(), true));
}

#[test]
fn worktree_plan_has_nine_steps_in_order() {
    let primary = worktree("/repo", "p", Some("main"));
    let wt = worktree("/repo.x", "abc", Some("x"));
    for fetch_ci in [false, true] {
        for check_conflicts in [false, true] {
            let steps = collect_worktree_progressive(&wt, &primary, 3, fetch_ci, check_conflicts);
            assert_eq!(steps.len(), 9);
            assert_eq!(kinds(&steps), all_nine());
            let primary_steps =
                collect_worktree_progressive(&primary, &primary, 0, fetch_ci, check_conflicts);
            assert_eq!(kinds(&primary_steps), all_nine());
        }
    }
}

#[test]
fn branch_plan_has_six_steps_in_order() {
    let primary = worktree("/repo", "p", Some("main"));
    for fetch_ci in [false, true] {
        for check_conflicts in [false, true] {
            let steps = collect_branch_progressive("topic", "def", &primary, 5, fetch_ci, check_conflicts);
            assert_eq!(steps.len(), 6);
            assert_eq!(kinds(&steps), branch_six());
        }
    }
}

#[test]
fn primary_worktree_skips_comparisons_with_defaults() {
    let primary = worktree("/repo", "p", Some("main"));
    let steps = collect_worktree_progressive(&primary, &primary, 0, false, true);
    assert_eq!(
        steps[1],
        Step::Emit {
            update: CellUpdate::AheadBehind { item_idx: 0, counts: AheadBehind { ahead: 0, behind: 0 } },
            warning: None
        }
    );
    assert_eq!(
        steps[2],
        Step::Emit {
            update: CellUpdate::BranchDiff {
                item_idx: 0,
                branch_diff: BranchDiffTotals { diff: LineDiff { added: 0, deleted: 0 } }
            },
            warning: None
        }
    );
    assert_eq!(
        steps[4],
        Step::Emit { update: CellUpdate::Conflicts { item_idx: 0, has_conflicts: false }, warning: None }
    );
    assert_eq!(
        steps[8],
        Step::Emit { update: CellUpdate::CiStatus { item_idx: 0, pr_status: None }, warning: None }
    );
    assert!(matches!(steps[0], Step::Ask(_)));
    assert!(matches!(steps[3], Step::Ask(_)));
    assert!(matches!(steps[7], Step::Ask(_)));
}

#[test]
fn secondary_worktree_asks_against_the_primary_branch() {
    let primary = worktree("/repo", "p", Some("main"));
    let wt = worktree("/repo.x", "abc", Some("x"));
    let steps = collect_worktree_progressive(&wt, &primary, 1, true, true);
    let queries: Vec<Query> = steps
        .iter()
        .map(|s| match s {
            Step::Ask(task) => {
                assert_eq!(task.subject.path, "/repo.x");
                assert_eq!(task.subject.item_idx, 1);
                task.query()
            }
            Step::Emit { .. } => panic!("every cell is asked for"),
        })
        .collect();
    assert_eq!(
        queries,
        vec![
            Query::CommitTimestamp { head: "abc".to_string() },
            Query::AheadBehind { base: "main".to_string(), head: "abc".to_string() },
            Query::BranchDiffStats { base: "main".to_string(), head: "abc".to_string() },
            Query::Status,
            Query::HasMergeConflicts { base: "main".to_string(), head: "abc".to_string() },
            Query::WorktreeState,
            Query::UserStatus { branch: Some("x".to_string()) },
            Query::UpstreamBranch { branch: "x".to_string() },
            Query::WorktreeRoot,
        ]
    );
}

#[test]
fn detached_worktree_has_no_upstream_query() {
    let primary = worktree("/repo", "p", Some("main"));
    let wt = worktree("/repo.d", "abc", None);
    let steps = collect_worktree_progressive(&wt, &primary, 2, false, false);
    assert_eq!(
        steps[7],
        Step::Emit {
            update: CellUpdate::Upstream {
                item_idx: 2,
                upstream: UpstreamStatus { remote: None, ahead: 0, behind: 0 }
            },
            warning: None
        }
    );
}

#[test]
fn branch_queries_run_at_the_primary_worktree() {
    let primary = worktree("/repo", "p", Some("main"));
    let steps = collect_branch_progressive("topic", "def", &primary, 5, true, true);
    let queries: Vec<Query> = steps
        .iter()
        .map(|s| match s {
            Step::Ask(task) => {
                assert_eq!(task.subject.path, "/repo");
                task.query()
            }
            Step::Emit { .. } => panic!("every cell is asked for"),
        })
        .collect();
    assert_eq!(
        queries,
        vec![
            Query::CommitTimestamp { head: "def".to_string() },
            Query::AheadBehind { base: "main".to_string(), head: "def".to_string() },
            Query::BranchDiffStats { base: "main".to_string(), head: "def".to_string() },
            Query::UpstreamBranch { branch: "topic".to_string() },
            Query::HasMergeConflicts { base: "main".to_string(), head: "def".to_string() },
            Query::PrStatus {
                branch: "topic".to_string(),
                head: "def".to_string(),
                repo_path: "/repo".to_string()
            },
        ]
    );
}

#[test]
fn every_cell_gets_its_default_when_every_query_fails() {
    let primary = worktree("/repo", "p", Some("main"));
    let wt = worktree("/repo.x", "abc", Some("x"));
    let steps = collect_worktree_progressive(&wt, &primary, 1, true, true);
    let out = run_steps(steps, &failing);
    assert_eq!(out.len(), 9);
    let got: Vec<CellKind> = out.iter().map(|e| e.update.kind()).collect();
    assert_eq!(got, all_nine());
    for (e, kind) in out.iter().zip(all_nine()) {
        assert_eq!(e.update, CellUpdate::default_for(kind, 1));
    }
    // Only the upstream query of a working copy is reported.
    let warnings: Vec<Option<String>> = out.iter().map(|e| e.warning.clone()).collect();
    let mut expected = vec![None; 9];
    expected[7] =
        Some("Warning: upstream_branch failed for /repo.x: fatal: not a git repository".to_string());
    assert_eq!(warnings, expected);

    let steps = collect_branch_progressive("topic", "def", &primary, 2, true, true);
    let out = run_steps(steps, &failing);
    assert_eq!(out.len(), 6);
    for (e, kind) in out.iter().zip(branch_six()) {
        assert_eq!(e.update, CellUpdate::default_for(kind, 2));
        assert_eq!(e.warning, None);
    }
}

#[test]
fn collecting_twice_gives_the_same_updates() {
    let primary = worktree("/repo", "p", Some("main"));
    let wt = worktree("/repo.x", "abc", Some("x"));
    let repo = |q: &Query, _: &str| match q {
        Query::CommitTimestamp { .. } => Reply::Timestamp(1_700_000_000),
        Query::CommitMessage { head } => Reply::Text(format!("Commit {head}")),
        Query::AheadBehind { base, .. } if base == "main" => Reply::Counts(2, 1),
        Query::AheadBehind { .. } => Reply::Counts(0, 3),
        Query::BranchDiffStats { .. } => Reply::Diff(LineDiff { added: 10, deleted: 4 }),
        Query::Status => Reply::Text("?? new.txt\n".to_string()),
        Query::WorkingTreeDiffStats => Reply::Diff(LineDiff { added: 0, deleted: 0 }),
        Query::WorkingTreeDiffWithBase { .. } => {
            Reply::MaybeDiff(Some(LineDiff { added: 10, deleted: 4 }))
        }
        Query::HasMergeConflicts { .. } => Reply::Flag(true),
        Query::WorktreeState => Reply::MaybeText(Some("rebase".to_string())),
        Query::UserStatus { .. } => Reply::MaybeText(None),
        Query::UpstreamBranch { .. } => Reply::MaybeText(Some("origin/x".to_string())),
        Query::WorktreeRoot => Reply::Text("/repo.x".to_string()),
        Query::PrStatus { .. } => Reply::Ci(Some(PrStatus::Passed)),
    };
    let first = run_steps(collect_worktree_progressive(&wt, &primary, 1, true, true), &repo);
    let second = run_steps(collect_worktree_progressive(&wt, &primary, 1, true, true), &repo);
    assert_eq!(first, second);
    let updates: Vec<CellUpdate> = first.into_iter().map(|e| e.update).collect();
    assert_eq!(
        updates,
        vec![
            CellUpdate::CommitDetails {
                item_idx: 1,
                commit: CommitDetails { timestamp: 1_700_000_000, commit_message: "Commit abc".to_string() }
            },
            CellUpdate::AheadBehind { item_idx: 1, counts: AheadBehind { ahead: 2, behind: 1 } },
            CellUpdate::BranchDiff {
                item_idx: 1,
                branch_diff: BranchDiffTotals { diff: LineDiff { added: 10, deleted: 4 } }
            },
            CellUpdate::WorkingTreeDiff {
                item_idx: 1,
                working_tree_diff: LineDiff { added: 0, deleted: 0 },
                working_tree_diff_with_main: Some(LineDiff { added: 10, deleted: 4 }),
                working_tree_symbols: "?".to_string(),
                is_dirty: true,
            },
            CellUpdate::Conflicts { item_idx: 1, has_conflicts: true },
            CellUpdate::WorktreeState { item_idx: 1, worktree_state: Some("rebase".to_string()) },
            CellUpdate::UserStatus { item_idx: 1, user_status: None },
            CellUpdate::Upstream {
                item_idx: 1,
                upstream: UpstreamStatus { remote: Some("origin".to_string()), ahead: 0, behind: 3 }
            },
            CellUpdate::CiStatus { item_idx: 1, pr_status: Some(PrStatus::Passed) },
        ]
    );
}

#[test]
fn clean_working_tree_skips_the_diff_query() {
    let task = CellTask { subject: subject(true), stage: Stage::Status };
    let step = task.advance(Reply::Text(String::new()));
    match &step {
        Step::Ask(next) => {
            assert_eq!(
                next.stage,
                Stage::WorkingTreeDiffWithBase {
                    symbols: String::new(),
                    is_dirty: false,
                    diff: LineDiff { added: 0, deleted: 0 }
                }
            );
            assert_eq!(
                next.query(),
                Query::WorkingTreeDiffWithBase { base: Some("main".to_string()), is_dirty: false }
            );
        }
        Step::Emit { .. } => panic!("the comparison with the base is still to be asked"),
    }
    let dirty = CellTask { subject: subject(true), stage: Stage::Status }
        .advance(Reply::Text(" M a\n".to_string()));
    match dirty {
        Step::Ask(next) => {
            assert_eq!(next.stage, Stage::WorkingTreeDiffStats { symbols: "!".to_string() });
            assert_eq!(next.query(), Query::WorkingTreeDiffStats);
            // A failed diff leaves the diff empty; the cell still arrives.
            let after = next.advance(Reply::Failed("boom".to_string()));
            let end = run_step(after, &failing);
            assert_eq!(
                end.0,
                CellUpdate::WorkingTreeDiff {
                    item_idx: 4,
                    working_tree_diff: LineDiff { added: 0, deleted: 0 },
                    working_tree_diff_with_main: None,
                    working_tree_symbols: "!".to_string(),
                    is_dirty: true,
                }
            );
        }
        Step::Emit { .. } => panic!("the diff is still to be asked"),
    }
}

#[test]
fn commit_details_need_both_answers() {
    let start = || CellTask { subject: subject(true), stage: Stage::CommitTimestamp };
    let both = |first: Reply, second: Reply| match start().advance(first) {
        Step::Ask(next) => {
            assert_eq!(next.query(), Query::CommitMessage { head: "abc".to_string() });
            next.advance(second)
        }
        Step::Emit { .. } => panic!("the message is still to be asked"),
    };
    assert_eq!(
        both(Reply::Timestamp(7), Reply::Text("msg".to_string())),
        Step::Emit {
            update: CellUpdate::CommitDetails {
                item_idx: 4,
                commit: CommitDetails { timestamp: 7, commit_message: "msg".to_string() }
            },
            warning: None
        }
    );
    let default = Step::Emit { update: CellUpdate::default_for(CellKind::CommitDetails, 4), warning: None };
    assert_eq!(both(Reply::Failed("x".to_string()), Reply::Text("msg".to_string())), default);
    assert_eq!(both(Reply::Timestamp(7), Reply::Failed("x".to_string())), default);
    assert_eq!(both(Reply::Timestamp(7), Reply::Flag(true)), default);
}

#[test]
fn upstream_failures_warn_only_for_working_copies() {
    let counts = |warn: bool| CellTask {
        subject: subject(warn),
        stage: Stage::UpstreamCounts { upstream_branch: "origin/x".to_string() },
    };
    assert_eq!(
        counts(true).advance(Reply::Failed("bad revision".to_string())),
        Step::Emit {
            update: CellUpdate::default_for(CellKind::Upstream, 4),
            warning: Some("Warning: ahead_behind failed for /repo.x: bad revision".to_string())
        }
    );
    assert_eq!(
        counts(false).advance(Reply::Failed("bad revision".to_string())),
        Step::Emit { update: CellUpdate::default_for(CellKind::Upstream, 4), warning: None }
    );
    assert_eq!(
        counts(true).query(),
        Query::AheadBehind { base: "origin/x".to_string(), head: "abc".to_string() }
    );
    let no_slash = CellTask {
        subject: subject(true),
        stage: Stage::UpstreamCounts { upstream_branch: "local".to_string() },
    };
    assert_eq!(
        no_slash.advance(Reply::Counts(1, 0)),
        Step::Emit {
            update: CellUpdate::Upstream {
                item_idx: 4,
                upstream: UpstreamStatus { remote: None, ahead: 1, behind: 0 }
            },
            warning: None
        }
    );
    let none = CellTask { subject: subject(true), stage: Stage::UpstreamBranch { branch: "x".to_string() } };
    assert_eq!(
        none.advance(Reply::MaybeText(None)),
        Step::Emit { update: CellUpdate::default_for(CellKind::Upstream, 4), warning: None }
    );
}

#[test]
fn ci_status_of_a_working_copy_needs_root_and_branch() {
    let root = |branch: Option<&str>| CellTask {
        subject: subject(true),
        stage: Stage::WorktreeRoot { branch: branch.map(|b| b.to_string()) },
    };
    match root(Some("x")).advance(Reply::Text("/repo.x".to_string())) {
        Step::Ask(next) => {
            assert_eq!(
                next.query(),
                Query::PrStatus {
                    branch: "x".to_string(),
                    head: "abc".to_string(),
                    repo_path: "/repo.x".to_string()
                }
            );
            assert_eq!(
                next.advance(Reply::Ci(Some(PrStatus::Failed))),
                Step::Emit {
                    update: CellUpdate::CiStatus { item_idx: 4, pr_status: Some(PrStatus::Failed) },
                    warning: None
                }
            );
        }
        Step::Emit { .. } => panic!("the service is still to be asked"),
    }
    let none = Step::Emit { update: CellUpdate::CiStatus { item_idx: 4, pr_status: None }, warning: None };
    assert_eq!(root(None).advance(Reply::Text("/repo.x".to_string())), none);
    assert_eq!(root(Some("x")).advance(Reply::Failed("no root".to_string())), none);
}

#[test]
fn collection_in_sequence_gives_one_update_per_cell() {
    let primary = worktree("/repo", "p", Some("main"));
    let wt = worktree("/repo.x", "abc", Some("x"));
    for fetch_ci in [false, true] {
        for check_conflicts in [false, true] {
            let out = collect_worktree_in_sequence(&wt, &primary, 7, fetch_ci, check_conflicts, &failing);
            assert_eq!(out.iter().map(|e| e.update.kind()).collect::<Vec<_>>(), all_nine());
            assert!(out.iter().all(|e| e.update.item_idx() == 7));
            let out =
                collect_branch_in_sequence("topic", "def", &primary, 8, fetch_ci, check_conflicts, &failing);
            assert_eq!(out.iter().map(|e| e.update.kind()).collect::<Vec<_>>(), branch_six());
            assert!(out.iter().all(|e| e.update.item_idx() == 8));
        }
    }
}
