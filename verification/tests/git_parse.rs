use worktrunk::git::parse::{
    parse_ahead_behind, parse_local_default_branch, parse_numstat, parse_remote_default_branch,
    parse_timestamp, parse_worktree_list,
};
use worktrunk::git::{GitError, Worktree};

fn plain(path: &str, head: &str, branch: Option<&str>) -> Worktree {
    Worktree {
        path: path.to_string(),
        head: head.to_string(),
        branch: branch.map(|b| b.to_string()),
        bare: false,
        detached: false,
        locked: None,
        prunable: None,
    }
}

#[test]
fn worktree_list_with_two_blocks() {
    let output = "worktree /repo\nHEAD abc123\nbranch refs/heads/main\n\nworktree /repo.feature\nHEAD def456\nbranch refs/heads/feature/x\n\n";
    let list = parse_worktree_list(output).unwrap();
    assert_eq!(
        list,
        vec![
            plain("/repo", "abc123", Some("main")),
            plain("/repo.feature", "def456", Some("feature/x")),
        ]
    );
}

#[test]
fn worktree_list_last_block_without_blank_line() {
    let list = parse_worktree_list("worktree /repo\nHEAD abc\ndetached").unwrap();
    let mut expected = plain("/repo", "abc", None);
    expected.detached = true;
    assert_eq!(list, vec![expected]);
}

#[test]
fn worktree_list_flags_and_reasons() {
    let output = "worktree /bare\nbare\n\nworktree /w\nHEAD 1\nbranch topic\nlocked\nprunable gone away\nfuture-key value\n";
    let list = parse_worktree_list(output).unwrap();
    let mut bare = plain("/bare", "", None);
    bare.bare = true;
    let mut w = plain("/w", "1", Some("topic"));
    w.locked = Some(String::new());
    w.prunable = Some("gone away".to_string());
    assert_eq!(list, vec![bare, w]);
}

#[test]
fn worktree_list_locked_with_reason_and_path_with_spaces() {
    let list = parse_worktree_list("worktree /my repo/w t\nlocked on purpose\n").unwrap();
    let mut w = plain("/my repo/w t", "", None);
    w.locked = Some("on purpose".to_string());
    assert_eq!(list, vec![w]);
}

#[test]
fn worktree_list_empty_output() {
    assert_eq!(parse_worktree_list("").unwrap(), Vec::new());
    assert_eq!(parse_worktree_list("\n\n").unwrap(), Vec::new());
}

#[test]
fn worktree_list_lines_outside_a_block_are_ignored() {
    // No block is open, so even a line that lacks its value is passed over.
    assert_eq!(parse_worktree_list("HEAD\nbranch\nbare\n").unwrap(), Vec::new());
}

#[test]
fn worktree_list_second_opening_drops_the_open_block() {
    let list = parse_worktree_list("worktree /a\nworktree /b\nHEAD 2\n").unwrap();
    assert_eq!(list, vec![plain("/b", "2", None)]);
}

#[test]
fn worktree_list_carriage_returns() {
    let list = parse_worktree_list("worktree /a\r\nHEAD 1\r\n\r\n").unwrap();
    assert_eq!(list, vec![plain("/a", "1", None)]);
}

#[test]
fn worktree_list_missing_values_are_errors() {
    assert_eq!(
        parse_worktree_list("worktree"),
        Err(GitError::ParseError("worktree line missing path".to_string()))
    );
    assert_eq!(
        parse_worktree_list("worktree /a\nHEAD"),
        Err(GitError::ParseError("HEAD line missing SHA".to_string()))
    );
    assert_eq!(
        parse_worktree_list("worktree /a\nHEAD 1\nbranch\n"),
        Err(GitError::ParseError("branch line missing ref".to_string()))
    );
}

#[test]
fn worktree_list_error_message_is_readable() {
    let err = parse_worktree_list("worktree").unwrap_err();
    assert_eq!(err.message(), "worktree line missing path");
}

#[test]
fn local_default_branch_strips_remote() {
    assert_eq!(parse_local_default_branch("origin/main\n", "origin").unwrap(), "main");
    assert_eq!(parse_local_default_branch("  upstream/dev  ", "upstream").unwrap(), "dev");
    assert_eq!(parse_local_default_branch("main", "origin").unwrap(), "main");
    assert_eq!(parse_local_default_branch("origin/feature/x", "origin").unwrap(), "feature/x");
    assert_eq!(parse_local_default_branch("originmain", "origin").unwrap(), "originmain");
}

#[test]
fn local_default_branch_empty_is_error() {
    assert_eq!(
        parse_local_default_branch("  \n", "origin"),
        Err(GitError::ParseError("Empty branch name from origin/HEAD".to_string()))
    );
    assert_eq!(
        parse_local_default_branch("origin/", "origin"),
        Err(GitError::ParseError("Empty branch name from origin/HEAD".to_string()))
    );
}

#[test]
fn remote_default_branch_from_symref() {
    let output = "ref: refs/heads/main\tHEAD\n85a1ce7c7182540f9c02453441cb3e8bf0ced214\tHEAD\n";
    assert_eq!(parse_remote_default_branch(output).unwrap(), "main");
    let later = "deadbeef\tHEAD\nref: refs/tags/v1\tHEAD\nref: refs/heads/trunk\tHEAD\nref: refs/heads/other\tHEAD\n";
    assert_eq!(parse_remote_default_branch(later).unwrap(), "trunk");
}

#[test]
fn remote_default_branch_missing_is_error() {
    let expected = Err(GitError::ParseError(
        "Could not find symbolic ref in ls-remote output".to_string(),
    ));
    assert_eq!(parse_remote_default_branch(""), expected);
    assert_eq!(parse_remote_default_branch("ref: refs/heads/main HEAD\n"), expected);
    assert_eq!(parse_remote_default_branch("abc\tHEAD\n"), expected);
}

#[test]
fn numstat_adds_up_lines() {
    let output = "3\t1\tsrc/main.rs\n10\t0\tREADME.md\n-\t-\timage.png\n\n0\t7\told.txt\n";
    assert_eq!(parse_numstat(output), Ok((13, 8)));
}

#[test]
fn numstat_skips_malformed_lines() {
    assert_eq!(parse_numstat(""), Ok((0, 0)));
    assert_eq!(parse_numstat("no tabs here\n5\n x\t2\tf\n2\tx\tf\n4\t5\n"), Ok((4, 5)));
    assert_eq!(parse_numstat("-1\t2\tf\n+1\t2\tf\n"), Ok((1, 2)));
}

#[test]
fn numstat_totals_out_of_range() {
    let big = format!("{}\t0\ta\n1\t0\tb\n", usize::MAX);
    assert_eq!(
        parse_numstat(&big),
        Err(GitError::ParseError("Line counts out of range".to_string()))
    );
    let fits = format!("{}\t0\ta\n0\t1\tb\n", usize::MAX);
    assert_eq!(parse_numstat(&fits), Ok((usize::MAX, 1)));
}

#[test]
fn ahead_behind_from_a_two_sided_count() {
    // The count names what only the base has first: the commits behind.
    assert_eq!(parse_ahead_behind("1\t2\n"), Ok((2, 1)));
    assert_eq!(parse_ahead_behind("0\t0"), Ok((0, 0)));
    assert_eq!(parse_ahead_behind("  12\t345  \n"), Ok((345, 12)));
    let bad = Err(GitError::ParseError("Unexpected commit count".to_string()));
    assert_eq!(parse_ahead_behind(""), bad);
    assert_eq!(parse_ahead_behind("1 2"), bad);
    assert_eq!(parse_ahead_behind("1\t"), bad);
    assert_eq!(parse_ahead_behind("1\t2\t3"), bad);
    assert_eq!(parse_ahead_behind("a\t2"), bad);
}

#[test]
fn commit_time_in_seconds() {
    assert_eq!(parse_timestamp("1700000000\n"), Ok(1_700_000_000));
    assert_eq!(parse_timestamp("0"), Ok(0));
    assert_eq!(parse_timestamp("-5"), Ok(-5));
    assert_eq!(parse_timestamp("+5"), Ok(5));
    assert_eq!(parse_timestamp("9223372036854775807"), Ok(i64::MAX));
    assert_eq!(parse_timestamp("-9223372036854775808"), Ok(i64::MIN));
    let bad = Err(GitError::ParseError("Unexpected commit time".to_string()));
    assert_eq!(parse_timestamp("9223372036854775808"), bad);
    assert_eq!(parse_timestamp("-9223372036854775809"), bad);
    assert_eq!(parse_timestamp(""), bad);
    assert_eq!(parse_timestamp("-"), bad);
    assert_eq!(parse_timestamp("-+5"), bad);
    assert_eq!(parse_timestamp("12 34"), bad);
}
