//! The interactive selector, as far as it computes: the preview modes, the
//! choice of a diff renderer, the text of a row and of a preview.

use vstd::prelude::*;
use crate::commands::list::render::{first_line, spaces};
use crate::display::paths::string_views;
use crate::text::number::{decimal, parse_unsigned, parse_usize, push_decimal};
use crate::text::split::{lines, lines_of, views};
use crate::text::{append_chars, append_str, chars_of, is_text, string_of, trim, trim_chars};

verus! {

// ---------------------------------------------------------------------------
// Preview modes
// ---------------------------------------------------------------------------

/// What the preview pane shows of the selected row.
#[derive(Debug, Clone, Copy, PartialEq, Eq, Structural)]
pub enum PreviewMode {
    /// Uncommitted changes.
    WorkingTree,
    /// The commits since the branch left the main branch.
    History,
    /// The lines that the branch changes against the main branch.
    BranchDiff,
}

/// The mode with the number `n`: 2 is the history, 3 the branch diff, and
/// every other number the working tree.
pub open spec fn mode_of(n: int) -> PreviewMode {
    if n == 2 {
        PreviewMode::History
    } else if n == 3 {
        PreviewMode::BranchDiff
    } else {
        PreviewMode::WorkingTree
    }
}

/// The mode that the state file's content names: the number in it, where it
/// holds a number up to 255 and nothing else but surrounding whitespace; the
/// working tree where it holds anything else or could not be read.
pub open spec fn mode_from_state(content: Option<Seq<char>>) -> PreviewMode {
    match content {
        Some(text) => match parse_unsigned(trim(text), 255) {
            Some(n) => mode_of(n as int),
            None => PreviewMode::WorkingTree,
        },
        None => PreviewMode::WorkingTree,
    }
}

/// The name of the state file of the process `process_id`.
pub open spec fn state_file(process_id: u32) -> Seq<char> {
    "wt-select-mode-"@ + decimal(process_id as nat)
}

impl PreviewMode {
    /// The mode with the number `n`.
    pub fn from_u8(n: u8) -> (mode: PreviewMode)
        ensures
            mode == mode_of(n as int),
    {
        if n == 2 {
            PreviewMode::History
        } else if n == 3 {
            PreviewMode::BranchDiff
        } else {
            PreviewMode::WorkingTree
        }
    }

    /// The number of the mode: 1, 2 or 3.
    pub fn number(self) -> (n: u8)
        ensures
            1 <= n <= 3,
            mode_of(n as int) == self,
    {
        match self {
            PreviewMode::WorkingTree => 1,
            PreviewMode::History => 2,
            PreviewMode::BranchDiff => 3,
        }
    }

    /// The mode that the state file names. `content` is what the file holds,
    /// or `None` if it could not be read.
    pub fn read_from_state(content: Option<&str>) -> (mode: PreviewMode)
        ensures
            mode == mode_from_state(
                match content {
                    Some(c) => Some(c@),
                    None => None,
                },
            ),
    {
        match content {
            Some(text) => {
                let trimmed = trim_chars(&chars_of(text));
                match parse_usize(&trimmed) {
                    Some(n) => if n <= 255 {
                        PreviewMode::from_u8(n as u8)
                    } else {
                        PreviewMode::WorkingTree
                    },
                    None => PreviewMode::WorkingTree,
                }
            },
            None => PreviewMode::WorkingTree,
        }
    }

    /// The name of the file in which the process `process_id` keeps the mode,
    /// to be placed in the directory for temporary files. Each process has a
    /// file of its own.
    pub fn state_path(process_id: u32) -> (name: String)
        ensures
            name@ == state_file(process_id),
    {
        let mut out = chars_of("wt-select-mode-");
        push_decimal(&mut out, process_id as u128);
        string_of(&out)
    }
}

// ---------------------------------------------------------------------------
// The diff renderer
// ---------------------------------------------------------------------------

/// The renderer that a setting names: its trimmed value, unless that is empty
/// or `cat`, which stands for no renderer.
pub open spec fn usable_pager(setting: Option<Seq<char>>) -> Option<Seq<char>> {
    match setting {
        Some(value) => if trim(value).len() == 0 || trim(value) == "cat"@ {
            None
        } else {
            Some(trim(value))
        },
        None => None,
    }
}

/// The renderer for diffs: the first usable one of the engine's own pager
/// variable, its setting for diffs, its general pager setting and the
/// system's pager variable.
pub open spec fn pager_choice(
    git_pager: Option<Seq<char>>,
    pager_diff: Option<Seq<char>>,
    core_pager: Option<Seq<char>>,
    pager: Option<Seq<char>>,
) -> Option<Seq<char>> {
    if usable_pager(git_pager) is Some {
        usable_pager(git_pager)
    } else if usable_pager(pager_diff) is Some {
        usable_pager(pager_diff)
    } else if usable_pager(core_pager) is Some {
        usable_pager(core_pager)
    } else {
        usable_pager(pager)
    }
}

/// The view of an optional string slice.
pub open spec fn str_view(s: Option<&str>) -> Option<Seq<char>> {
    match s {
        Some(t) => Some(t@),
        None => None,
    }
}

/// The view of an optional string.
pub open spec fn string_view(s: Option<String>) -> Option<Seq<char>> {
    match s {
        Some(t) => Some(t@),
        None => None,
    }
}

fn usable(setting: Option<&str>) -> (r: Option<String>)
    ensures
        string_view(r) == usable_pager(str_view(setting)),
{
    match setting {
        Some(value) => {
            let trimmed = trim_chars(&chars_of(value));
            if trimmed.len() == 0 || is_text(&trimmed, "cat") {
                None
            } else {
                Some(string_of(&trimmed))
            }
        },
        None => None,
    }
}

/// Chooses the renderer for diffs in the preview. `git_pager` and `pager` are
/// the values of the two environment variables, `pager_diff` and `core_pager`
/// those of the engine's two settings; each is `None` where it is not set.
pub fn detect_pager(
    git_pager: Option<&str>,
    pager_diff: Option<&str>,
    core_pager: Option<&str>,
    pager: Option<&str>,
) -> (r: Option<String>)
    ensures
        string_view(r) == pager_choice(
            str_view(git_pager),
            str_view(pager_diff),
            str_view(core_pager),
            str_view(pager),
        ),
{
    if let Some(p) = usable(git_pager) {
        return Some(p);
    }
    if let Some(p) = usable(pager_diff) {
        return Some(p);
    }
    if let Some(p) = usable(core_pager) {
        return Some(p);
    }
    usable(pager)
}

/// How the run of the diff renderer ended.
#[derive(Debug, Clone, PartialEq, Eq)]
pub enum Rendering {
    /// No renderer is configured.
    NotConfigured,
    /// The renderer could not be started.
    SpawnFailed,
    /// The renderer was started but could not be waited for.
    WaitFailed,
    /// The renderer ended with a failure.
    Unsuccessful,
    /// The renderer ended well; its output, if that is proper text.
    Finished(Option<String>),
}

/// Mathematical model of a [`Rendering`].
pub enum RenderingView {
    NotConfigured,
    SpawnFailed,
    WaitFailed,
    Unsuccessful,
    Finished(Option<Seq<char>>),
}

impl View for Rendering {
    type V = RenderingView;

    open spec fn view(&self) -> RenderingView {
        match self {
            Rendering::NotConfigured => RenderingView::NotConfigured,
            Rendering::SpawnFailed => RenderingView::SpawnFailed,
            Rendering::WaitFailed => RenderingView::WaitFailed,
            Rendering::Unsuccessful => RenderingView::Unsuccessful,
            Rendering::Finished(out) => RenderingView::Finished(string_view(*out)),
        }
    }
}

/// The diff that is shown: the renderer's output where it ended well with
/// proper text, else the plain coloured diff.
pub open spec fn shown_diff(plain: Seq<char>, rendering: RenderingView) -> Seq<char> {
    match rendering {
        RenderingView::Finished(Some(out)) => out,
        _ => plain,
    }
}

/// The arguments for a diff that is to be rendered: those given, and the one
/// that asks for colour always.
pub open spec fn coloured_arguments(args: Seq<Seq<char>>) -> Seq<Seq<char>> {
    args.push("--color=always"@)
}

/// Settles which diff is shown: the renderer's output, or the plain coloured
/// diff where the renderer is missing or failed in any way.
pub fn run_diff_with_pager(plain: String, rendering: Rendering) -> (r: String)
    ensures
        r@ == shown_diff(plain@, rendering@),
{
    match rendering {
        Rendering::Finished(Some(out)) => out,
        _ => plain,
    }
}

/// Adds the argument that asks for colour always to the arguments of a diff.
pub fn diff_arguments(args: Vec<String>) -> (r: Vec<String>)
    ensures
        string_views(r@) == coloured_arguments(
            string_views(args@),
        ),
{
    let ghost given = string_views(args@);
    let mut r = args;
    let flag = string_of(&chars_of("--color=always"));
    r.push(flag);
    assert(string_views(r@) =~= given.push(flag@));
    r
}

/// Switches off paging in the renderer: the general pager variable.
pub const PAGER_VARIABLE: &'static str = "PAGER";

/// Switches off paging in `delta`, which looks at its own variable first.
pub const DELTA_PAGER_VARIABLE: &'static str = "DELTA_PAGER";

/// Switches off paging in `bat`, where an empty value does it.
pub const BAT_PAGER_VARIABLE: &'static str = "BAT_PAGER";

/// The pager that only copies its input.
pub const NO_PAGER: &'static str = "cat";

// ---------------------------------------------------------------------------
// Previews
// ---------------------------------------------------------------------------

/// Whether a summary of changes shows any change.
pub open spec fn shows_changes(stat: Option<Seq<char>>) -> bool {
    stat matches Some(s) && trim(s).len() > 0
}

/// A summary of changes, an empty line and the changes in full.
pub open spec fn stat_and_diff(stat: Seq<char>, diff: Option<Seq<char>>) -> Seq<char> {
    stat + "\n\n"@ + match diff {
        Some(d) => d,
        None => seq![],
    }
}

/// The preview of uncommitted changes. A row without a working copy has none;
/// a summary that could not be had or is blank means no changes.
pub open spec fn working_tree_preview(
    has_worktree: bool,
    stat: Option<Seq<char>>,
    diff: Option<Seq<char>>,
) -> Seq<char> {
    if !has_worktree {
        "No worktree (branch only)\n"@
    } else if shows_changes(stat) {
        stat_and_diff(stat->0, diff)
    } else {
        "No uncommitted changes\n"@
    }
}

/// The preview of what a branch changes against the main branch.
pub open spec fn branch_diff_preview(
    ahead: usize,
    stat: Option<Seq<char>>,
    diff: Option<Seq<char>>,
) -> Seq<char> {
    if ahead == 0 {
        "No commits ahead of main\n"@
    } else if shows_changes(stat) {
        stat_and_diff(stat->0, diff)
    } else {
        "No changes vs main\n"@
    }
}

/// Whether a summary of changes shows any change, so that the changes are
/// worth asking for in full.
pub fn has_changes_to_show(stat: Option<&str>) -> (r: bool)
    ensures
        r == shows_changes(str_view(stat)),
{
    match stat {
        Some(s) => trim_chars(&chars_of(s)).len() > 0,
        None => false,
    }
}

fn join_stat_and_diff(stat: &str, diff: Option<&str>) -> (r: String)
    ensures
        r@ == stat_and_diff(stat@, str_view(diff)),
{
    let mut out = chars_of(stat);
    append_str(&mut out, "\n\n");
    if let Some(d) = diff {
        append_str(&mut out, d);
    } else {
        assert(out@ =~= stat_and_diff(stat@, str_view(diff)));
    }
    string_of(&out)
}

/// Composes the preview of uncommitted changes from the summary of the
/// changes and the changes in full, each `None` where it could not be had.
pub fn render_working_tree_preview(has_worktree: bool, stat: Option<&str>, diff: Option<&str>) -> (r:
    String)
    ensures
        r@ == working_tree_preview(has_worktree, str_view(stat), str_view(diff)),
{
    if !has_worktree {
        return string_of(&chars_of("No worktree (branch only)\n"));
    }
    if has_changes_to_show(stat) {
        match stat {
            Some(s) => join_stat_and_diff(s, diff),
            None => String::new(),
        }
    } else {
        string_of(&chars_of("No uncommitted changes\n"))
    }
}

/// Composes the preview of what a branch changes against the main branch. A
/// branch that is not ahead changes nothing.
pub fn render_branch_diff_preview(ahead: usize, stat: Option<&str>, diff: Option<&str>) -> (r: String)
    ensures
        r@ == branch_diff_preview(ahead, str_view(stat), str_view(diff)),
{
    if ahead == 0 {
        return string_of(&chars_of("No commits ahead of main\n"));
    }
    if has_changes_to_show(stat) {
        match stat {
            Some(s) => join_stat_and_diff(s, diff),
            None => String::new(),
        }
    } else {
        string_of(&chars_of("No changes vs main\n"))
    }
}

/// Whether `branch` is the main line itself.
pub open spec fn is_main_branch(branch: Seq<char>) -> bool {
    branch == "main"@ || branch == "master"@
}

/// A log, or nothing where it could not be had.
pub open spec fn log_or_nothing(log: Option<Seq<char>>) -> Seq<char> {
    match log {
        Some(l) => l,
        None => seq![],
    }
}

/// The preview of a branch's history. Without a common ancestor with the main
/// branch there are no commits to show. The main line shows its own log.
/// Another branch shows its own commits and, after them, the main line's.
pub open spec fn history_preview(
    merge_base: Option<Seq<char>>,
    branch: Seq<char>,
    own_log: Option<Seq<char>>,
    main_log: Option<Seq<char>>,
) -> Seq<char> {
    if merge_base is None {
        "No commits\n"@
    } else if is_main_branch(branch) {
        log_or_nothing(own_log)
    } else {
        log_or_nothing(own_log) + log_or_nothing(main_log)
    }
}

/// Composes the preview of a branch's history. `merge_base` is the common
/// ancestor with the main branch, `own_log` the log of the branch (for the
/// main line, of the line itself) and `main_log` the log of the main line
/// before the ancestor; each is `None` where it could not be had.
pub fn render_history_preview(
    merge_base: Option<&str>,
    branch: &str,
    own_log: Option<&str>,
    main_log: Option<&str>,
) -> (r: String)
    ensures
        r@ == history_preview(str_view(merge_base), branch@, str_view(own_log), str_view(main_log)),
{
    if merge_base.is_none() {
        return string_of(&chars_of("No commits\n"));
    }
    let name = chars_of(branch);
    let mut out: Vec<char> = Vec::new();
    if let Some(l) = own_log {
        append_str(&mut out, l);
    }
    assert(out@ =~= log_or_nothing(str_view(own_log)));
    if !(is_text(&name, "main") || is_text(&name, "master")) {
        if let Some(l) = main_log {
            append_str(&mut out, l);
        } else {
            assert(out@ =~= log_or_nothing(str_view(own_log)) + log_or_nothing(str_view(main_log)));
        }
    }
    string_of(&out)
}

// ---------------------------------------------------------------------------
// Rows of the selector
// ---------------------------------------------------------------------------

/// `text` filled up with spaces on the right to `width` characters.
pub open spec fn padded(text: Seq<char>, width: int) -> Seq<char> {
    text + spaces(width - text.len())
}

/// `text` in the middle of `width` characters; an odd space goes to the right.
pub open spec fn centered(text: Seq<char>, width: int) -> Seq<char> {
    let room = width - text.len();
    spaces(room / 2) + text + spaces(room - room / 2)
}

/// The text of a row of the selector: the branch in a column of `width`
/// characters, the status symbols in the middle of eight (eight blanks for a
/// row without a working copy), two blanks and the first line of the commit
/// message.
pub open spec fn row_text(
    branch: Seq<char>,
    status: Option<Seq<char>>,
    message: Seq<char>,
    width: int,
) -> Seq<char> {
    padded(branch, width) + match status {
        Some(symbols) => centered(symbols, 8),
        None => spaces(8),
    } + "  "@ + first_line(message)
}

fn push_blanks(out: &mut Vec<char>, n: usize)
    ensures
        final(out)@ == old(out)@ + spaces(n as int),
{
    crate::commands::list::render::push_spaces(out, n);
}

/// Formats the text of a row of the selector.
pub fn select_row_text(branch: &str, status: Option<&str>, message: &str, width: usize) -> (r: String)
    ensures
        r@ == row_text(branch@, str_view(status), message@, width as int),
{
    let mut out = chars_of(branch);
    let used = out.len();
    if used < width {
        push_blanks(&mut out, width - used);
    } else {
        assert(out@ =~= padded(branch@, width as int));
    }
    let ghost first = out@;
    match status {
        Some(symbols) => {
            let s = chars_of(symbols);
            if s.len() < 8 {
                let room = 8 - s.len();
                push_blanks(&mut out, room / 2);
                append_chars(&mut out, &s);
                push_blanks(&mut out, room - room / 2);
                assert(out@ =~= first + centered(symbols@, 8));
            } else {
                append_chars(&mut out, &s);
                assert(out@ =~= first + centered(symbols@, 8));
            }
        },
        None => {
            push_blanks(&mut out, 8);
        },
    }
    append_str(&mut out, "  ");
    let ls = lines_of(&chars_of(message));
    if ls.len() > 0 {
        assert(views(ls@)[0] == ls@[0]@);
        append_chars(&mut out, &ls[0]);
    } else {
        assert(out@ =~= row_text(branch@, str_view(status), message@, width as int));
    }
    string_of(&out)
}

/// The key binding that switches the preview to the mode `mode`: the key is
/// the mode's number, which is written to the state file before the preview is
/// drawn again.
pub open spec fn mode_binding(mode: PreviewMode, state_path: Seq<char>) -> Seq<char> {
    let n = match mode {
        PreviewMode::WorkingTree => 1nat,
        PreviewMode::History => 2nat,
        PreviewMode::BranchDiff => 3nat,
    };
    decimal(n) + ":execute-silent(echo "@ + decimal(n) + " > "@ + state_path + ")+refresh-preview"@
}

/// Formats the key binding that switches the preview to the mode `mode`.
pub fn select_mode_binding(mode: PreviewMode, state_path: &str) -> (r: String)
    ensures
        r@ == mode_binding(mode, state_path@),
{
    let n = mode.number() as u128;
    let mut out: Vec<char> = Vec::new();
    push_decimal(&mut out, n);
    append_str(&mut out, ":execute-silent(echo ");
    push_decimal(&mut out, n);
    append_str(&mut out, " > ");
    append_str(&mut out, state_path);
    append_str(&mut out, ")+refresh-preview");
    string_of(&out)
}

} // verus!
