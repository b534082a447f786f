use worktrunk::config::expansion::{expand_command_template, expand_template, Variable};

#[test]
fn template_with_plain_values() {
    let result = expand_template("path/{main-worktree}/{branch}", "myrepo", "feature/foo", &Vec::new());
    assert_eq!(result, "path/myrepo/feature-foo");
}

#[test]
fn template_escapes_values_for_the_shell() {
    let result = expand_template("cd {main-worktree} && echo {branch}", "my repo", "it's!", &Vec::new());
    assert_eq!(result, "cd 'my repo' && echo 'it'\\''s'\\!''");
}

#[test]
fn template_escapes_empty_value() {
    assert_eq!(expand_template("x{branch}y", "r", "", &Vec::new()), "x''y");
}

#[test]
fn template_sanitizes_both_separators() {
    assert_eq!(expand_template("{branch}", "r", "a/b\\c", &Vec::new()), "a-b-c");
}

#[test]
fn template_extra_variables_in_order() {
    let extra = vec![
        Variable { name: "one".to_string(), value: "{two}".to_string() },
        Variable { name: "two".to_string(), value: "2".to_string() },
    ];
    // The first value is quoted, and the second variable is then found inside it.
    assert_eq!(expand_template("{one} {two} {three}", "r", "b", &extra), "'2' 2 {three}");
}

#[test]
fn template_replaces_every_occurrence() {
    assert_eq!(expand_template("{branch}{branch}-{branch}", "r", "b", &Vec::new()), "bb-b");
}

#[test]
fn command_template_variables() {
    let cmd = expand_command_template(
        "cp {repo_root}/target {worktree}/target # {main-worktree} {branch} {target}",
        "myrepo",
        "feature/x",
        "/path/to/work tree",
        "/path/to/repo",
        Some("main"),
    );
    assert_eq!(
        cmd,
        "cp /path/to/repo/target '/path/to/work tree'/target # myrepo feature-x main"
    );
}

#[test]
fn command_template_without_target_leaves_the_variable() {
    let cmd = expand_command_template("merge {target}", "r", "b", "/w", "/r", None);
    assert_eq!(cmd, "merge {target}");
}
