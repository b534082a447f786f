use worktrunk::commands::select::{
    detect_pager, diff_arguments, run_diff_with_pager, Rendering, has_changes_to_show, render_branch_diff_preview, render_history_preview,
    render_working_tree_preview, select_mode_binding, select_row_text, PreviewMode,
};

#[test]
fn test_preview_mode_from_u8() {
    assert_eq!(PreviewMode::from_u8(1), PreviewMode::WorkingTree);
    assert_eq!(PreviewMode::from_u8(2), PreviewMode::History);
    assert_eq!(PreviewMode::from_u8(3), PreviewMode::BranchDiff);
    // Invalid values default to WorkingTree
    assert_eq!(PreviewMode::from_u8(0), PreviewMode::WorkingTree);
    assert_eq!(PreviewMode::from_u8(99), PreviewMode::WorkingTree);
}

#[test]
fn test_preview_mode_state_file_read_default() {
    // When the state cannot be read or is invalid, default to WorkingTree
    assert_eq!(PreviewMode::read_from_state(None), PreviewMode::WorkingTree);
    assert_eq!(PreviewMode::read_from_state(Some("")), PreviewMode::WorkingTree);
    assert_eq!(PreviewMode::read_from_state(Some("two")), PreviewMode::WorkingTree);
    assert_eq!(PreviewMode::read_from_state(Some("256")), PreviewMode::WorkingTree);
    assert_eq!(PreviewMode::read_from_state(Some("-2")), PreviewMode::WorkingTree);
}

#[test]
fn test_preview_mode_state_file_roundtrip() {
    assert_eq!(PreviewMode::read_from_state(Some("1")), PreviewMode::WorkingTree);
    assert_eq!(PreviewMode::read_from_state(Some("2")), PreviewMode::History);
    assert_eq!(PreviewMode::read_from_state(Some("3")), PreviewMode::BranchDiff);
    assert_eq!(PreviewMode::read_from_state(Some("2\n")), PreviewMode::History);
    assert_eq!(PreviewMode::read_from_state(Some(" 3 ")), PreviewMode::BranchDiff);
    for mode in [PreviewMode::WorkingTree, PreviewMode::History, PreviewMode::BranchDiff] {
        let written = format!("{}\n", mode.number());
        assert_eq!(PreviewMode::read_from_state(Some(&written)), mode);
    }
}

#[test]
fn preview_mode_state_path_names_the_process() {
    assert_eq!(PreviewMode::state_path(4711), "wt-select-mode-4711");
    assert_eq!(PreviewMode::state_path(0), "wt-select-mode-0");
    assert_eq!(PreviewMode::state_path(u32::MAX), "wt-select-mode-4294967295");
}

#[test]
fn pager_priority() {
    assert_eq!(
        detect_pager(Some("delta"), Some("bat"), Some("less"), Some("more")),
        Some("delta".to_string())
    );
    assert_eq!(
        detect_pager(Some("cat"), Some(" bat -p \n"), Some("less"), Some("more")),
        Some("bat -p".to_string())
    );
    assert_eq!(detect_pager(None, Some(""), Some("less -R"), None), Some("less -R".to_string()));
    assert_eq!(detect_pager(Some("  "), None, Some("cat"), Some("more")), Some("more".to_string()));
    assert_eq!(detect_pager(None, None, None, Some(" cat ")), None);
    assert_eq!(detect_pager(None, None, None, None), None);
    assert_eq!(detect_pager(Some("cat -v"), None, None, None), Some("cat -v".to_string()));
}

#[test]
fn working_tree_preview_texts() {
    assert_eq!(render_working_tree_preview(false, Some("x"), Some("y")), "No worktree (branch only)\n");
    assert_eq!(render_working_tree_preview(true, None, Some("y")), "No uncommitted changes\n");
    assert_eq!(render_working_tree_preview(true, Some(" \n"), Some("y")), "No uncommitted changes\n");
    assert_eq!(
        render_working_tree_preview(true, Some(" a | 1 +\n"), Some("diff --git")),
        " a | 1 +\n\n\ndiff --git"
    );
    assert_eq!(render_working_tree_preview(true, Some("stat"), None), "stat\n\n");
    assert!(has_changes_to_show(Some("x")));
    assert!(!has_changes_to_show(Some("\t")));
    assert!(!has_changes_to_show(None));
}

#[test]
fn branch_diff_preview_texts() {
    assert_eq!(render_branch_diff_preview(0, Some("x"), Some("y")), "No commits ahead of main\n");
    assert_eq!(render_branch_diff_preview(2, None, None), "No changes vs main\n");
    assert_eq!(render_branch_diff_preview(2, Some("s"), Some("d")), "s\n\nd");
}

#[test]
fn history_preview_texts() {
    assert_eq!(render_history_preview(None, "topic", Some("a"), Some("b")), "No commits\n");
    assert_eq!(render_history_preview(Some("abc"), "main", Some("a"), Some("b")), "a");
    assert_eq!(render_history_preview(Some("abc"), "master", None, Some("b")), "");
    assert_eq!(render_history_preview(Some("abc"), "topic", Some("a\n"), Some("b\n")), "a\nb\n");
    assert_eq!(render_history_preview(Some("abc"), "topic", None, Some("b")), "b");
    assert_eq!(render_history_preview(Some("abc"), "mainline", Some("a"), None), "a");
}

#[test]
fn selector_row_text_alignment() {
    assert_eq!(
        select_row_text("main", Some("?!"), "Fix bug\n\nDetails", 8),
        "main       ?!     Fix bug"
    );
    assert_eq!(select_row_text("feature", None, "", 4), "feature          ");
    assert_eq!(select_row_text("a", Some("?!+"), "m", 1), "a  ?!+     m");
    assert_eq!(select_row_text("a", Some("123456789"), "m", 3), "a  123456789  m");
}

#[test]
fn selector_mode_bindings() {
    assert_eq!(
        select_mode_binding(PreviewMode::WorkingTree, "/tmp/wt-select-mode-7"),
        "1:execute-silent(echo 1 > /tmp/wt-select-mode-7)+refresh-preview"
    );
    assert_eq!(
        select_mode_binding(PreviewMode::BranchDiff, "s"),
        "3:execute-silent(echo 3 > s)+refresh-preview"
    );
}

#[test]
fn renderer_output_is_used_only_when_it_ended_well() {
    let plain = || "plain diff".to_string();
    assert_eq!(
        run_diff_with_pager(plain(), Rendering::Finished(Some("pretty diff".to_string()))),
        "pretty diff"
    );
    assert_eq!(run_diff_with_pager(plain(), Rendering::Finished(Some(String::new()))), "");
    assert_eq!(run_diff_with_pager(plain(), Rendering::Finished(None)), "plain diff");
    assert_eq!(run_diff_with_pager(plain(), Rendering::NotConfigured), "plain diff");
    assert_eq!(run_diff_with_pager(plain(), Rendering::SpawnFailed), "plain diff");
    assert_eq!(run_diff_with_pager(plain(), Rendering::WaitFailed), "plain diff");
    assert_eq!(run_diff_with_pager(plain(), Rendering::Unsuccessful), "plain diff");
}

#[test]
fn rendered_diffs_are_asked_for_in_colour() {
    assert_eq!(
        diff_arguments(vec!["diff".to_string(), "HEAD".to_string()]),
        vec!["diff".to_string(), "HEAD".to_string(), "--color=always".to_string()]
    );
    assert_eq!(diff_arguments(Vec::new()), vec!["--color=always".to_string()]);
}
