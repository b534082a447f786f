use worktrunk::commands::list::collect::{CellKind, CellUpdate};
use worktrunk::commands::list::consumer::{Consumer, Event, Repaint};
use worktrunk::commands::list::row::Row;
use worktrunk::commands::list::layout::{
    arrange, calculate_responsive_layout, Column, ColumnKind, NaturalWidths,
};
use worktrunk::commands::list::order::display_order;
use worktrunk::commands::list::progressive::RenderMode;
use worktrunk::commands::list::render::{
    cell_text_of, fit, format_header_line, format_list_item_line, render_listing, render_table,
};
use worktrunk::commands::list::ci_status::PrStatus;
use worktrunk::commands::list::{
    build_items, display_summary, AheadBehind, BranchDiffTotals, BranchRef, CommitDetails,
    ListItem, SummaryMetrics, UpstreamStatus,
};
use worktrunk::display::width::display_width;
use worktrunk::git::{LineDiff, Worktree};

const NOW: i64 = 1_700_000_000;

fn worktree(path: &str, head: &str, branch: Option<&str>) -> Worktree {
    Worktree {
        path: path.to_string(),
        head: head.to_string(),
        branch: branch.map(|b| b.to_string()),
        bare: false,
        detached: false,
        locked: None,
        prunable: None,
    }
}

fn kinds(cols: &[Column]) -> Vec<ColumnKind> {
    cols.iter().map(|c| c.kind).collect()
}

fn total(cols: &[Column]) -> usize {
    cols.iter().map(|c| c.width).sum::<usize>() + 2 * (cols.len() - 1)
}

fn widths() -> NaturalWidths {
    NaturalWidths { branch: 10, message: 40, time: 12, path: 14 }
}

/// A primary working copy, a second one that is two ahead and one behind with
/// an untracked file, and a branch whose upstream is three commits ahead of it.
fn scenario() -> Vec<Row> {
    let worktrees = vec![
        worktree("/code/repo", "aaa", Some("main")),
        worktree("/code/repo.feat", "bbb", Some("feat")),
    ];
    let branches = vec![BranchRef { name: "topic".to_string(), head: "ccc".to_string() }];
    let items = build_items(&worktrees, &branches).unwrap();
    let mut consumer = Consumer::new(items, RenderMode::Buffered, Repaint::Row);
    let commit = |item_idx: usize, age: i64, message: &str| CellUpdate::CommitDetails {
        item_idx,
        commit: CommitDetails { timestamp: NOW - age, commit_message: message.to_string() },
    };
    let mut updates = vec![
        commit(0, 3 * 86400, "Initial import of the project"),
        commit(1, 3600, "Add the responsive layout engine for narrow terminals\n\nLong body"),
        commit(2, 86400, "Sketch an idea"),
        CellUpdate::AheadBehind { item_idx: 1, counts: AheadBehind { ahead: 2, behind: 1 } },
        CellUpdate::WorkingTreeDiff {
            item_idx: 1,
            working_tree_diff: LineDiff { added: 0, deleted: 0 },
            working_tree_diff_with_main: None,
            working_tree_symbols: "?".to_string(),
            is_dirty: true,
        },
        CellUpdate::BranchDiff {
            item_idx: 1,
            branch_diff: BranchDiffTotals { diff: LineDiff { added: 120, deleted: 7 } },
        },
        CellUpdate::Upstream {
            item_idx: 2,
            upstream: UpstreamStatus { remote: Some("origin".to_string()), ahead: 0, behind: 3 },
        },
        CellUpdate::CiStatus { item_idx: 1, pr_status: Some(PrStatus::Passed) },
    ];
    for (idx, kinds) in [
        (0usize, vec![
            CellKind::AheadBehind,
            CellKind::BranchDiff,
            CellKind::WorkingTreeDiff,
            CellKind::Conflicts,
            CellKind::WorktreeState,
            CellKind::UserStatus,
            CellKind::Upstream,
            CellKind::CiStatus,
        ]),
        (1, vec![CellKind::Conflicts, CellKind::WorktreeState, CellKind::UserStatus, CellKind::Upstream]),
        (2, vec![CellKind::AheadBehind, CellKind::BranchDiff, CellKind::Conflicts, CellKind::CiStatus]),
    ] {
        for kind in kinds {
            updates.push(CellUpdate::default_for(kind, idx));
        }
    }
    for u in updates {
        consumer.step(Event::Update(u));
    }
    assert!(consumer.is_finished());
    consumer.rows
}

#[test]
fn wide_terminal_shows_every_column_at_natural_width() {
    let cols = arrange(&widths(), 200);
    assert_eq!(
        cols,
        vec![
            Column { kind: ColumnKind::Branch, width: 10 },
            Column { kind: ColumnKind::Status, width: 6 },
            Column { kind: ColumnKind::WorkingDiff, width: 7 },
            Column { kind: ColumnKind::AheadBehind, width: 8 },
            Column { kind: ColumnKind::BranchDiff, width: 7 },
            Column { kind: ColumnKind::CiStatus, width: 2 },
            Column { kind: ColumnKind::Message, width: 40 },
            Column { kind: ColumnKind::Time, width: 12 },
            Column { kind: ColumnKind::Path, width: 14 },
        ]
    );
    // 106 columns of content and eight separators: the exact fit.
    assert_eq!(total(&cols), 122);
    assert_eq!(arrange(&widths(), 122), cols);
}

#[test]
fn message_is_shortened_before_any_column_is_hidden() {
    let cols = arrange(&widths(), 121);
    assert_eq!(cols.len(), 9);
    assert_eq!(cols[6], Column { kind: ColumnKind::Message, width: 39 });
    assert_eq!(total(&cols), 121);
    let cols = arrange(&widths(), 87);
    assert_eq!(cols.len(), 9);
    assert_eq!(cols[6], Column { kind: ColumnKind::Message, width: 5 });
    assert_eq!(total(&cols), 87);
}

#[test]
fn optional_columns_are_hidden_first_then_the_least_important() {
    let hidden_at = |terminal: usize| {
        let shown = kinds(&arrange(&widths(), terminal));
        let all = [
            ColumnKind::Branch,
            ColumnKind::Status,
            ColumnKind::WorkingDiff,
            ColumnKind::AheadBehind,
            ColumnKind::BranchDiff,
            ColumnKind::CiStatus,
            ColumnKind::Message,
            ColumnKind::Time,
            ColumnKind::Path,
        ];
        all.into_iter().filter(|k| !shown.contains(k)).collect::<Vec<_>>()
    };
    assert_eq!(hidden_at(87), Vec::new());
    assert_eq!(hidden_at(86), vec![ColumnKind::CiStatus]);
    assert_eq!(hidden_at(82), vec![ColumnKind::BranchDiff, ColumnKind::CiStatus]);
    assert_eq!(hidden_at(73), vec![ColumnKind::BranchDiff, ColumnKind::CiStatus, ColumnKind::Path]);
    assert_eq!(hidden_at(58), vec![ColumnKind::BranchDiff, ColumnKind::CiStatus, ColumnKind::Path]);
    assert_eq!(
        hidden_at(57),
        vec![ColumnKind::BranchDiff, ColumnKind::CiStatus, ColumnKind::Time, ColumnKind::Path]
    );
    assert_eq!(
        hidden_at(44),
        vec![ColumnKind::BranchDiff, ColumnKind::CiStatus, ColumnKind::Time, ColumnKind::Path]
    );
    assert_eq!(
        hidden_at(43),
        vec![
            ColumnKind::BranchDiff,
            ColumnKind::CiStatus,
            ColumnKind::Message,
            ColumnKind::Time,
            ColumnKind::Path
        ]
    );
    assert_eq!(kinds(&arrange(&widths(), 36)), vec![ColumnKind::Branch, ColumnKind::Status, ColumnKind::WorkingDiff]);
    assert_eq!(kinds(&arrange(&widths(), 18)), vec![ColumnKind::Branch, ColumnKind::Status]);
    assert_eq!(kinds(&arrange(&widths(), 17)), vec![ColumnKind::Branch]);
}

#[test]
fn freed_room_goes_back_to_the_message() {
    // With the two optional columns hidden the message grows again.
    let cols = arrange(&widths(), 82);
    assert_eq!(cols[4], Column { kind: ColumnKind::Message, width: 13 });
    assert_eq!(total(&cols), 82);
}

#[test]
fn line_never_exceeds_the_terminal_and_branch_always_stays() {
    for natural in [
        widths(),
        NaturalWidths { branch: 6, message: 7, time: 3, path: 4 },
        NaturalWidths { branch: 30, message: 50, time: 13, path: 60 },
        NaturalWidths { branch: 6, message: 3, time: 3, path: 4 },
    ] {
        for terminal in 0..260usize {
            let cols = arrange(&natural, terminal);
            assert_eq!(cols[0], Column { kind: ColumnKind::Branch, width: natural.branch });
            if terminal >= natural.branch {
                assert!(total(&cols) <= terminal, "{natural:?} at {terminal}");
            } else {
                assert_eq!(cols.len(), 1);
            }
        }
    }
}

#[test]
fn huge_widths_do_not_overflow() {
    let natural = NaturalWidths { branch: usize::MAX, message: 50, time: usize::MAX, path: usize::MAX };
    let cols = arrange(&natural, usize::MAX);
    assert_eq!(cols, vec![Column { kind: ColumnKind::Branch, width: usize::MAX }]);
}

#[test]
fn narrow_terminal_hides_optional_columns_and_truncates_the_message() {
    let rows = scenario();
    let layout = calculate_responsive_layout(&rows, 40, NOW);
    assert_eq!(layout.common_prefix, "/code");
    assert_eq!(
        layout.columns,
        vec![
            Column { kind: ColumnKind::Branch, width: 6 },
            Column { kind: ColumnKind::Status, width: 6 },
            Column { kind: ColumnKind::WorkingDiff, width: 7 },
            Column { kind: ColumnKind::AheadBehind, width: 8 },
            Column { kind: ColumnKind::Message, width: 5 },
        ]
    );
    let lines = render_table(&rows, &layout);
    assert_eq!(
        lines,
        vec![
            "Branch  Status  HEAD±    main↕     Me...".to_string(),
            "feat    ?                2↑1↓      Ad...".to_string(),
            "topic                    3↓        Sk...".to_string(),
            "main                               In...".to_string(),
        ]
    );
    for line in &lines {
        assert_eq!(display_width(line), 40);
    }
}

#[test]
fn medium_terminal_truncates_the_message_at_a_word_boundary() {
    let rows = scenario();
    let layout = calculate_responsive_layout(&rows, 64, NOW);
    assert_eq!(
        kinds(&layout.columns),
        vec![
            ColumnKind::Branch,
            ColumnKind::Status,
            ColumnKind::WorkingDiff,
            ColumnKind::AheadBehind,
            ColumnKind::Message,
            ColumnKind::Time,
        ]
    );
    assert_eq!(layout.columns[4].width, 17);
    let lines = render_table(&rows, &layout);
    let line = |branch: &str, status: &str, counts: &str, message: &str, age: &str| {
        format!("{:<6}  {:<6}  {:<7}  {:<8}  {:<17}  {:<10}", branch, status, "", counts, message, age)
    };
    assert_eq!(lines[1], line("feat", "?", "2↑1↓", "Add the...", "1 hour ago"));
    assert_eq!(lines[2], line("topic", "", "3↓", "Sketch an idea", "1 day ago"));
    assert_eq!(lines[3], line("main", "", "", "Initial...", "3 days ago"));
    for line in &lines {
        assert_eq!(display_width(line), 64);
    }
}

#[test]
fn wide_terminal_shows_the_whole_scenario() {
    let rows = scenario();
    let out = render_listing(&rows, 160, NOW, false);
    assert_eq!(
        out,
        vec![
            "Branch  Status  HEAD±    main↕     main…±   CI  Message                                             Age         Path       ".to_string(),
            "feat    ?                2↑1↓      +120 -7  ●   Add the responsive layout engine for narrow...      1 hour ago  ./repo.feat".to_string(),
            "topic                    3↓                     Sketch an idea                                      1 day ago              ".to_string(),
            "main                                            Initial import of the project                       3 days ago  ./repo     ".to_string(),
            String::new(),
            "3 worktrees, 1 with changes, 1 ahead, 2 behind".to_string(),
        ]
    );
}

#[test]
fn rows_are_shown_most_recent_first_and_ties_keep_their_order() {
    assert_eq!(display_order(&vec![10, 30, 20]), vec![1, 2, 0]);
    assert_eq!(display_order(&vec![5, 5, 9, 5, 9]), vec![2, 4, 0, 1, 3]);
    assert_eq!(display_order(&Vec::new()), Vec::<usize>::new());
    assert_eq!(display_order(&vec![i64::MIN, i64::MAX, 0]), vec![1, 2, 0]);
}

#[test]
fn summary_line_forms() {
    let m = SummaryMetrics { worktrees: 2, branches: 1, dirty_worktrees: 1, ahead_items: 1, behind_items: 2 };
    assert_eq!(display_summary(&m, false), "3 worktrees, 1 with changes, 1 ahead, 2 behind");
    assert_eq!(display_summary(&m, true), "2 worktrees, 1 branches, 1 with changes, 1 ahead, 2 behind");
    let one = SummaryMetrics { worktrees: 1, branches: 0, dirty_worktrees: 0, ahead_items: 0, behind_items: 0 };
    assert_eq!(display_summary(&one, false), "1 worktree");
    assert_eq!(display_summary(&one, true), "1 worktrees");
    let none = SummaryMetrics::new();
    assert_eq!(display_summary(&none, false), "0 worktrees");
    let many = SummaryMetrics {
        worktrees: usize::MAX,
        branches: usize::MAX,
        dirty_worktrees: 0,
        ahead_items: 0,
        behind_items: 12,
    };
    assert_eq!(display_summary(&many, false), format!("{} worktrees, 12 behind", 2 * (usize::MAX as u128)));
}

#[test]
fn summary_counts_of_the_scenario() {
    let rows = scenario();
    assert_eq!(
        SummaryMetrics::of(&rows),
        SummaryMetrics { worktrees: 2, branches: 1, dirty_worktrees: 1, ahead_items: 1, behind_items: 2 }
    );
    let mut m = SummaryMetrics::new();
    m.update(&rows[1].item);
    assert_eq!(
        m,
        SummaryMetrics { worktrees: 1, branches: 0, dirty_worktrees: 1, ahead_items: 1, behind_items: 1 }
    );
}

#[test]
fn cells_that_have_not_arrived_show_a_placeholder() {
    let items = build_items(&vec![worktree("/r", "a", Some("main"))], &Vec::new()).unwrap();
    let mut consumer = Consumer::new(items, RenderMode::Progressive, Repaint::Row);
    let cols = vec![
        Column { kind: ColumnKind::Branch, width: 6 },
        Column { kind: ColumnKind::AheadBehind, width: 5 },
        Column { kind: ColumnKind::Message, width: 7 },
    ];
    assert_eq!(format_list_item_line(&consumer.rows[0], &cols, "/", NOW), "main    ·      ·      ");
    consumer.step(Event::Update(CellUpdate::default_for(CellKind::AheadBehind, 0)));
    assert_eq!(format_list_item_line(&consumer.rows[0], &cols, "/", NOW), "main           ·      ");
    consumer.step(Event::Update(CellUpdate::default_for(CellKind::CommitDetails, 0)));
    assert_eq!(format_list_item_line(&consumer.rows[0], &cols, "/", NOW), "main                  ");
    assert_eq!(format_header_line(&cols), "Branch  main↕  Message");
}

#[test]
fn cell_texts() {
    let rows = scenario();
    let text = |row: usize, kind: ColumnKind| cell_text_of(&rows[row].item, &rows[row].received, kind, "/code", NOW);
    assert_eq!(text(1, ColumnKind::Branch), "feat");
    assert_eq!(text(1, ColumnKind::Status), "?");
    assert_eq!(text(1, ColumnKind::WorkingDiff), "");
    assert_eq!(text(1, ColumnKind::AheadBehind), "2↑1↓");
    assert_eq!(text(2, ColumnKind::AheadBehind), "3↓");
    assert_eq!(text(0, ColumnKind::AheadBehind), "");
    assert_eq!(text(1, ColumnKind::BranchDiff), "+120 -7");
    assert_eq!(text(1, ColumnKind::CiStatus), "●");
    assert_eq!(text(2, ColumnKind::CiStatus), "");
    assert_eq!(text(1, ColumnKind::Message), "Add the responsive layout engine for narrow terminals");
    assert_eq!(text(1, ColumnKind::Time), "1 hour ago");
    assert_eq!(text(1, ColumnKind::Path), "./repo.feat");
    assert_eq!(text(2, ColumnKind::Path), "");
    assert_eq!(text(2, ColumnKind::Status), "");
}

#[test]
fn both_counts_share_the_ahead_behind_cell() {
    let mut rows = scenario();
    if let ListItem::Worktree(wt) = &mut rows[1].item {
        wt.upstream = UpstreamStatus { remote: None, ahead: 4, behind: 0 };
        wt.has_conflicts = true;
        wt.working_tree_diff = LineDiff { added: 3, deleted: 0 };
    }
    let text = |kind: ColumnKind| cell_text_of(&rows[1].item, &rows[1].received, kind, "/code", NOW);
    assert_eq!(text(ColumnKind::AheadBehind), "2↑1↓ 4↑");
    assert_eq!(text(ColumnKind::Status), "✖?");
    assert_eq!(text(ColumnKind::WorkingDiff), "+3 -0");
}

#[test]
fn fit_pads_and_cuts_to_the_exact_width() {
    let s = |v: Vec<char>| v.into_iter().collect::<String>();
    assert_eq!(s(fit("abc", 5)), "abc  ");
    assert_eq!(s(fit("abc", 3)), "abc");
    assert_eq!(s(fit("abcdef", 5)), "ab...");
    assert_eq!(s(fit("abcdef", 2)), "ab");
    assert_eq!(s(fit("abcdef", 0)), "");
    assert_eq!(s(fit("日本語", 5)), "日...");
    assert_eq!(s(fit("日本語", 4)), "... ");
    assert_eq!(s(fit("日本語", 1)), " ");
    assert_eq!(s(fit("", 2)), "  ");
    for width in 0..12 {
        assert_eq!(display_width(&s(fit("日本語 and more", width))), width);
    }
}
