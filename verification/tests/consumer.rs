use worktrunk::commands::list::ci_status::PrStatus;
use worktrunk::commands::list::collect::{CellKind, CellUpdate};
use worktrunk::commands::list::collect_progressive_impl::{
    collect_branch_progressive, collect_worktree_progressive, run_steps,
};
use worktrunk::commands::list::consumer::{Action, Consumer, Event, Redraw, Repaint};
use worktrunk::commands::list::query::{Query, Reply};
use worktrunk::commands::list::row::{CellFlags, Row, RowState};
use worktrunk::commands::list::progressive::RenderMode;
use worktrunk::commands::list::render::render_listing;
use worktrunk::commands::list::{
    branch_advisory, build_items, AheadBehind, BranchDiffTotals, BranchInfo, BranchRef, CommitDetails, ListItem,
    UpstreamStatus, WorktreeInfo,
};
use worktrunk::git::{GitError, LineDiff, Worktree};

fn worktree(path: &str, head: &str, branch: Option<&str>) -> Worktree {
    Worktree {
        path: path.to_string(),
        head: head.to_string(),
        branch: branch.map(|b| b.to_string()),
        bare: false,
        detached: false,
        locked: None,
        prunable: None,
    }
}

fn items() -> Vec<ListItem> {
    let worktrees = vec![
        worktree("/repo", "aaa", Some("main")),
        worktree("/repo.feature", "bbb", Some("feature")),
    ];
    let branches = vec![BranchRef { name: "topic".to_string(), head: "ccc".to_string() }];
    build_items(&worktrees, &branches).unwrap()
}

fn answer(q: &Query, path: &str) -> Reply {
    match q {
        Query::CommitTimestamp { head } => Reply::Timestamp(match head.as_str() {
            "aaa" => 1_000,
            "bbb" => 3_000,
            _ => 2_000,
        }),
        Query::CommitMessage { head } => Reply::Text(format!("Work on {head}\n\nBody")),
        Query::AheadBehind { base, .. } if base == "main" && path == "/repo.feature" => Reply::Counts(2, 1),
        Query::AheadBehind { base, .. } if base == "origin/topic" => Reply::Counts(0, 3),
        Query::AheadBehind { .. } => Reply::Counts(0, 0),
        Query::BranchDiffStats { .. } => Reply::Diff(LineDiff { added: 5, deleted: 2 }),
        Query::Status => Reply::Text(if path == "/repo.feature" { "?? new.txt\n" } else { "" }.to_string()),
        Query::WorkingTreeDiffStats => Reply::Diff(LineDiff { added: 0, deleted: 0 }),
        Query::WorkingTreeDiffWithBase { .. } => Reply::MaybeDiff(None),
        Query::HasMergeConflicts { .. } => Reply::Flag(false),
        Query::WorktreeState => Reply::MaybeText(None),
        Query::UserStatus { .. } => Reply::MaybeText(None),
        Query::UpstreamBranch { branch } if branch == "topic" => {
            Reply::MaybeText(Some("origin/topic".to_string()))
        }
        Query::UpstreamBranch { .. } => Reply::MaybeText(None),
        Query::WorktreeRoot => Reply::Text(path.to_string()),
        Query::PrStatus { .. } => Reply::Ci(Some(PrStatus::Passed)),
    }
}

fn all_updates() -> Vec<CellUpdate> {
    let primary = worktree("/repo", "aaa", Some("main"));
    let feature = worktree("/repo.feature", "bbb", Some("feature"));
    let mut updates = Vec::new();
    for e in run_steps(collect_worktree_progressive(&primary, &primary, 0, false, true), &answer) {
        updates.push(e.update);
    }
    for e in run_steps(collect_worktree_progressive(&feature, &primary, 1, false, true), &answer) {
        updates.push(e.update);
    }
    for e in run_steps(collect_branch_progressive("topic", "ccc", &primary, 2, false, true), &answer) {
        updates.push(e.update);
    }
    updates
}

fn run(mode: RenderMode, repaint: Repaint, updates: Vec<CellUpdate>) -> (Consumer, Vec<Action>) {
    let mut consumer = Consumer::new(items(), mode, repaint);
    let mut actions = Vec::new();
    for u in updates {
        actions.push(consumer.step(Event::Update(u)));
    }
    (consumer, actions)
}

#[test]
fn items_keep_their_index_and_start_empty() {
    let built = items();
    assert_eq!(built.len(), 3);
    assert_eq!(built[0].branch_name(), "main");
    assert!(built[0].is_primary());
    assert_eq!(built[1].branch_name(), "feature");
    assert!(!built[1].is_primary());
    assert_eq!(built[1].worktree_path(), Some("/repo.feature"));
    assert_eq!(built[2].branch_name(), "topic");
    assert_eq!(built[2].head(), "ccc");
    assert!(built[2].worktree_info().is_none());
    assert_eq!(built[2].worktree_path(), None);
    assert!(!built[2].is_primary());
    assert_eq!(built[1].commit_timestamp(), 0);
    assert_eq!(*built[1].counts(), AheadBehind { ahead: 0, behind: 0 });
    assert_eq!(*built[1].branch_diff(), BranchDiffTotals { diff: LineDiff { added: 0, deleted: 0 } });
    assert_eq!(*built[1].upstream(), UpstreamStatus { remote: None, ahead: 0, behind: 0 });
    assert_eq!(*built[1].commit_details(), CommitDetails { timestamp: 0, commit_message: String::new() });
    assert_eq!(built[1].upstream().active(), None);
}

#[test]
fn listing_without_working_copies_is_an_error() {
    let branches = vec![BranchRef { name: "topic".to_string(), head: "ccc".to_string() }];
    assert_eq!(
        build_items(&Vec::new(), &branches),
        Err(GitError::CommandFailed("No worktrees found".to_string()))
    );
}

#[test]
fn detached_worktree_is_named_so() {
    let wt = worktree("/d", "abc", None);
    let item = ListItem::Worktree(WorktreeInfo::from_worktree(&wt, &wt));
    assert_eq!(item.branch_name(), "(detached)");
    assert!(item.is_primary());
    let branch = ListItem::Branch(BranchInfo::from_branch("b", "h"));
    assert_eq!(branch.head(), "h");
}

#[test]
fn upstream_active_reports_origin_by_default() {
    let unnamed = UpstreamStatus { remote: None, ahead: 1, behind: 0 };
    assert_eq!(unnamed.active(), Some(("origin", 1, 0)));
    let named = UpstreamStatus { remote: Some("fork".to_string()), ahead: 0, behind: 2 };
    assert_eq!(named.active(), Some(("fork", 0, 2)));
    let level = UpstreamStatus { remote: Some("fork".to_string()), ahead: 0, behind: 0 };
    assert_eq!(level.active(), None);
}

#[test]
fn consumer_counts_cells_per_row() {
    let updates = all_updates();
    assert_eq!(updates.len(), 24);
    let mut consumer = Consumer::new(items(), RenderMode::Buffered, Repaint::Row);
    assert_eq!(consumer.expected, 24);
    assert_eq!(consumer.row_state(0), Some(RowState::Pending(0)));
    assert_eq!(consumer.row_state(3), None);
    assert!(!consumer.is_finished());
    let mut seen = [0usize; 3];
    let total = updates.len();
    for (n, u) in updates.into_iter().enumerate() {
        let idx = u.item_idx();
        assert!(consumer.accepts(&u));
        let action = consumer.step(Event::Update(u));
        seen[idx] += 1;
        let expected = if idx == 2 { 6 } else { 9 };
        let state = if seen[idx] == expected { RowState::Complete } else { RowState::Pending(seen[idx]) };
        assert_eq!(consumer.row_state(idx), Some(state));
        assert_eq!(action.done, n + 1 == total);
        assert_eq!(consumer.received, (n + 1) as u128);
    }
    assert!(consumer.is_finished());
    for row in &consumer.rows {
        assert!(row.is_complete());
        assert_eq!(row.state(), RowState::Complete);
        assert_eq!(row.received.count(), row.expected());
    }
}

#[test]
fn consumer_writes_the_cell_that_an_update_names() {
    let mut consumer = Consumer::new(items(), RenderMode::Progressive, Repaint::Row);
    let action = consumer.step(Event::Update(CellUpdate::AheadBehind {
        item_idx: 1,
        counts: AheadBehind { ahead: 0, behind: 0 },
    }));
    assert_eq!(action, Action { redraw: Redraw::Row(1), done: false });
    // Known to be zero is not the same as not known yet.
    assert!(consumer.rows[1].received.has(CellKind::AheadBehind));
    assert!(!consumer.rows[0].received.has(CellKind::AheadBehind));
    assert_eq!(consumer.rows[1].item, items()[1]);
    consumer.step(Event::Update(CellUpdate::Upstream {
        item_idx: 2,
        upstream: UpstreamStatus { remote: Some("origin".to_string()), ahead: 0, behind: 3 },
    }));
    assert_eq!(
        *consumer.rows[2].item.upstream(),
        UpstreamStatus { remote: Some("origin".to_string()), ahead: 0, behind: 3 }
    );
    assert_eq!(consumer.rows[0].item, items()[0]);
    assert_eq!(consumer.rows[1].item, items()[1]);
}

#[test]
fn consumer_ignores_updates_it_does_not_wait_for() {
    let mut consumer = Consumer::new(items(), RenderMode::Progressive, Repaint::Row);
    let first = CellUpdate::Conflicts { item_idx: 0, has_conflicts: true };
    assert_eq!(consumer.step(Event::Update(first)).redraw, Redraw::Row(0));
    let snapshot = consumer.clone();
    let nothing = Action { redraw: Redraw::Nothing, done: false };
    // The same cell a second time.
    let again = CellUpdate::Conflicts { item_idx: 0, has_conflicts: false };
    assert!(!consumer.accepts(&again));
    assert_eq!(consumer.step(Event::Update(again)), nothing);
    // A row that does not exist.
    let beyond = CellUpdate::Conflicts { item_idx: 3, has_conflicts: true };
    assert_eq!(consumer.step(Event::Update(beyond)), nothing);
    // A cell that a branch does not have.
    let no_tree = CellUpdate::WorktreeState { item_idx: 2, worktree_state: Some("merge".to_string()) };
    assert_eq!(consumer.step(Event::Update(no_tree)), nothing);
    assert_eq!(consumer, snapshot);
}

#[test]
fn consumer_redraws_by_mode_and_repaint() {
    let u = || CellUpdate::Conflicts { item_idx: 1, has_conflicts: false };
    let (_, a) = run(RenderMode::Progressive, Repaint::Row, vec![u()]);
    assert_eq!(a[0].redraw, Redraw::Row(1));
    let (_, a) = run(RenderMode::Progressive, Repaint::Table, vec![u()]);
    assert_eq!(a[0].redraw, Redraw::Table);
    let (_, a) = run(RenderMode::Buffered, Repaint::Row, vec![u()]);
    assert_eq!(a[0].redraw, Redraw::Nothing);
    let (_, a) = run(RenderMode::Buffered, Repaint::Table, vec![u()]);
    assert_eq!(a[0].redraw, Redraw::Nothing);
}

#[test]
fn closed_channel_ends_the_consumer() {
    let mut consumer = Consumer::new(items(), RenderMode::Progressive, Repaint::Row);
    let before = consumer.clone();
    assert_eq!(consumer.step(Event::Closed), Action { redraw: Redraw::Nothing, done: true });
    assert_eq!(consumer, before);
    assert!(!consumer.is_finished());
}

#[test]
fn final_content_is_the_same_in_every_mode() {
    let (progressive, _) = run(RenderMode::Progressive, Repaint::Row, all_updates());
    let (repainting, _) = run(RenderMode::Progressive, Repaint::Table, all_updates());
    let (buffered, _) = run(RenderMode::Buffered, Repaint::Row, all_updates());
    assert_eq!(progressive.rows, buffered.rows);
    assert_eq!(repainting.rows, buffered.rows);
    for forced in [Some(true), Some(false), None] {
        for tty in [true, false] {
            let mode = RenderMode::detect(forced, tty);
            let (c, _) = run(mode, Repaint::Row, all_updates());
            assert_eq!(
                render_listing(&c.rows, 100, 10_000, false),
                render_listing(&buffered.rows, 100, 10_000, false)
            );
        }
    }
}

#[test]
fn final_content_does_not_depend_on_arrival_order() {
    let (in_order, _) = run(RenderMode::Buffered, Repaint::Row, all_updates());
    let mut reversed = all_updates();
    reversed.reverse();
    let (backwards, _) = run(RenderMode::Buffered, Repaint::Row, reversed);
    assert_eq!(in_order.rows, backwards.rows);
    assert!(backwards.is_finished());
    // Interleave the rows: every third update first.
    let updates = all_updates();
    let mut shuffled = Vec::new();
    for start in 0..3 {
        let mut k = start;
        while k < updates.len() {
            shuffled.push(updates[k].clone());
            k += 3;
        }
    }
    let (mixed, _) = run(RenderMode::Progressive, Repaint::Row, shuffled);
    assert_eq!(in_order.rows, mixed.rows);
}

#[test]
fn rows_and_flags_basics() {
    let row = Row::new(items().remove(2));
    assert_eq!(row.expected(), 6);
    assert!(row.expects(CellKind::Upstream));
    assert!(!row.expects(CellKind::UserStatus));
    assert_eq!(row.state(), RowState::Pending(0));
    let mut flags = CellFlags::none();
    assert_eq!(flags.count(), 0);
    flags.mark(CellKind::CiStatus);
    flags.mark(CellKind::CiStatus);
    flags.mark(CellKind::CommitDetails);
    assert_eq!(flags.count(), 2);
    assert!(flags.has(CellKind::CiStatus));
    assert!(!flags.has(CellKind::Upstream));
    assert_eq!(CellFlags::all().count(), 9);
}

#[test]
fn advisory_for_a_branch_that_could_not_be_enriched() {
    let (warning, hint) = branch_advisory("topic", "unknown revision");
    assert_eq!(warning, "Failed to enrich branch topic: unknown revision");
    assert_eq!(hint, "This branch will be shown with limited information");
}
