use worktrunk::commands::init::{filter_hidden_completions, CompletionShell, Shell};

#[test]
fn shell_names_parse() {
    assert_eq!(Shell::parse("bash"), Ok(Shell::Bash));
    assert_eq!(Shell::parse("fish"), Ok(Shell::Fish));
    assert_eq!(Shell::parse("zsh"), Ok(Shell::Zsh));
    assert_eq!(Shell::parse("oil"), Ok(Shell::Oil));
    assert_eq!(Shell::parse("elvish"), Ok(Shell::Elvish));
    assert_eq!(Shell::parse("nushell"), Ok(Shell::Nushell));
    assert_eq!(Shell::parse("powershell"), Ok(Shell::Powershell));
    assert_eq!(Shell::parse("xonsh"), Ok(Shell::Xonsh));
    for shell in [Shell::Bash, Shell::Fish, Shell::Zsh, Shell::Oil, Shell::Elvish, Shell::Nushell, Shell::Powershell, Shell::Xonsh] {
        assert_eq!(Shell::parse(shell.name()), Ok(shell));
    }
}

#[test]
fn unknown_shell_is_rejected() {
    assert_eq!(Shell::parse("tcsh"), Err("Unsupported shell: tcsh".to_string()));
    assert_eq!(Shell::parse("Bash"), Err("Unsupported shell: Bash".to_string()));
    assert_eq!(Shell::parse(""), Err("Unsupported shell: ".to_string()));
}

#[test]
fn completion_shell_mapping() {
    assert_eq!(Shell::Bash.completion(), Ok(CompletionShell::Bash));
    assert_eq!(Shell::Fish.completion(), Ok(CompletionShell::Fish));
    assert_eq!(Shell::Zsh.completion(), Ok(CompletionShell::Zsh));
    assert_eq!(Shell::Oil.completion(), Ok(CompletionShell::Bash));
    assert_eq!(
        Shell::Nushell.completion(),
        Err("Completion not yet supported for nushell".to_string())
    );
    assert_eq!(
        Shell::Xonsh.completion(),
        Err("Completion not yet supported for xonsh".to_string())
    );
}

#[test]
fn hidden_commands_are_filtered_from_completions() {
    let script = "complete -c wt -n \"__fish_wt_needs_command\" -a \"switch\"\ncomplete -c wt -n \"__fish_wt_needs_command\" -a \"completion\"\ncomplete -c wt -a \"complete\" -d 'x'\n# completion is mentioned without quotes\ncomplete -c wt -a \"completions\"\n";
    let kept = filter_hidden_completions(script);
    assert_eq!(
        kept,
        vec![
            "complete -c wt -n \"__fish_wt_needs_command\" -a \"switch\"".to_string(),
            "# completion is mentioned without quotes".to_string(),
            "complete -c wt -a \"completions\"".to_string(),
        ]
    );
    assert_eq!(filter_hidden_completions(""), Vec::<String>::new());
}
