use worktrunk::md_help::{colorize_status_symbols, render_markdown_in_help};
use worktrunk::styling::constants::{paint, Tone, HINT_EMOJI, WARNING_EMOJI};

#[test]
fn paint_wraps_text_in_escape_sequences() {
    assert_eq!(paint(Tone::Error, "x"), "\x1b[31mx\x1b[0m");
    assert_eq!(paint(Tone::Warning, "x"), "\x1b[33mx\x1b[0m");
    assert_eq!(paint(Tone::Success, "x"), "\x1b[32mx\x1b[0m");
    assert_eq!(paint(Tone::Progress, "x"), "\x1b[34mx\x1b[0m");
    assert_eq!(paint(Tone::Disabled, "x"), "\x1b[90mx\x1b[0m");
    assert_eq!(paint(Tone::WorkingTree, "x"), "\x1b[36mx\x1b[0m");
    assert_eq!(paint(Tone::Hint, "x"), "\x1b[2mx\x1b[0m");
    assert_eq!(paint(Tone::Hint, ""), "\x1b[2m\x1b[0m");
}

#[test]
fn status_symbols_are_coloured() {
    let text = "● passed, ● running, ● failed\n? Untracked files\n⚠ Prunable and ⚠ Would conflict";
    let out = colorize_status_symbols(text);
    assert_eq!(
        out,
        "\x1b[32m●\x1b[0m passed, \x1b[34m●\x1b[0m running, \x1b[31m●\x1b[0m failed\n\x1b[36m?\x1b[0m Untracked files\n\x1b[33m⚠\x1b[0m Prunable and \x1b[33m⚠\x1b[0m Would conflict"
    );
}

#[test]
fn status_symbols_elsewhere_are_left_alone() {
    assert_eq!(colorize_status_symbols("● unknown ?Untracked +Staged"), "● unknown ?Untracked +Staged");
    assert_eq!(colorize_status_symbols(""), "");
}

#[test]
fn status_symbols_hints_are_dimmed() {
    assert_eq!(
        colorize_status_symbols("≡ Working tree matches main; ∅ No commits; · Branch without worktree"),
        "\x1b[2m≡\x1b[0m Working tree matches main; \x1b[2m∅\x1b[0m No commits; \x1b[2m·\x1b[0m Branch without worktree"
    );
}

#[test]
fn help_markdown_is_rendered_and_coloured() {
    let out = render_markdown_in_help("# Status\n\nShows ! Modified files\n", 80);
    assert!(out.contains("Status"));
    assert!(out.contains("\x1b[36m!\x1b[0m Modified"));
}

#[test]
fn message_marks() {
    assert_eq!(HINT_EMOJI, "💡");
    assert_eq!(WARNING_EMOJI, "🟡");
}
