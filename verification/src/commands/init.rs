//! Shell integration, as far as it computes: which shells there are, which of
//! them get completions, and which lines of a completion script are kept.

use vstd::prelude::*;
use crate::text::replace::{contains_chars, contains_text};
use crate::text::split::{lines, lines_of, views};
use crate::text::{append_str, chars_of, is_text, string_of};

verus! {

/// The shells that the tool integrates with.
#[derive(Debug, Clone, Copy, PartialEq, Eq, Structural)]
pub enum Shell {
    Bash,
    Fish,
    Zsh,
    Oil,
    Elvish,
    Nushell,
    Powershell,
    Xonsh,
}

/// The shells for which completion scripts are generated.
#[derive(Debug, Clone, Copy, PartialEq, Eq, Structural)]
pub enum CompletionShell {
    Bash,
    Fish,
    Zsh,
}

/// The shell with the name `name`, if there is one. Names are in lower case.
pub open spec fn shell_named(name: Seq<char>) -> Option<Shell> {
    if name == "bash"@ {
        Some(Shell::Bash)
    } else if name == "fish"@ {
        Some(Shell::Fish)
    } else if name == "zsh"@ {
        Some(Shell::Zsh)
    } else if name == "oil"@ {
        Some(Shell::Oil)
    } else if name == "elvish"@ {
        Some(Shell::Elvish)
    } else if name == "nushell"@ {
        Some(Shell::Nushell)
    } else if name == "powershell"@ {
        Some(Shell::Powershell)
    } else if name == "xonsh"@ {
        Some(Shell::Xonsh)
    } else {
        None
    }
}

/// The name of a shell.
pub open spec fn shell_name(shell: Shell) -> Seq<char> {
    match shell {
        Shell::Bash => "bash"@,
        Shell::Fish => "fish"@,
        Shell::Zsh => "zsh"@,
        Shell::Oil => "oil"@,
        Shell::Elvish => "elvish"@,
        Shell::Nushell => "nushell"@,
        Shell::Powershell => "powershell"@,
        Shell::Xonsh => "xonsh"@,
    }
}

/// The completion script that serves a shell. Oil is compatible with Bash and
/// takes its completions; the last four shells have none yet.
pub open spec fn completion_for(shell: Shell) -> Option<CompletionShell> {
    match shell {
        Shell::Bash => Some(CompletionShell::Bash),
        Shell::Fish => Some(CompletionShell::Fish),
        Shell::Zsh => Some(CompletionShell::Zsh),
        Shell::Oil => Some(CompletionShell::Bash),
        _ => None,
    }
}

impl Shell {
    /// The shell with the name `name`. An unknown name is an error that names
    /// it.
    pub fn parse(name: &str) -> (r: Result<Shell, String>)
        ensures
            match r {
                Ok(shell) => shell_named(name@) == Some(shell),
                Err(message) => shell_named(name@) is None && message@ == "Unsupported shell: "@
                    + name@,
            },
    {
        let n = chars_of(name);
        if is_text(&n, "bash") {
            Ok(Shell::Bash)
        } else if is_text(&n, "fish") {
            Ok(Shell::Fish)
        } else if is_text(&n, "zsh") {
            Ok(Shell::Zsh)
        } else if is_text(&n, "oil") {
            Ok(Shell::Oil)
        } else if is_text(&n, "elvish") {
            Ok(Shell::Elvish)
        } else if is_text(&n, "nushell") {
            Ok(Shell::Nushell)
        } else if is_text(&n, "powershell") {
            Ok(Shell::Powershell)
        } else if is_text(&n, "xonsh") {
            Ok(Shell::Xonsh)
        } else {
            let mut message = chars_of("Unsupported shell: ");
            append_str(&mut message, name);
            Err(string_of(&message))
        }
    }

    /// The name of the shell.
    pub fn name(self) -> (r: &'static str)
        ensures
            r@ == shell_name(self),
    {
        match self {
            Shell::Bash => "bash",
            Shell::Fish => "fish",
            Shell::Zsh => "zsh",
            Shell::Oil => "oil",
            Shell::Elvish => "elvish",
            Shell::Nushell => "nushell",
            Shell::Powershell => "powershell",
            Shell::Xonsh => "xonsh",
        }
    }

    /// The completion script that serves the shell, or the message that says
    /// that it has none yet.
    pub fn completion(self) -> (r: Result<CompletionShell, String>)
        ensures
            match r {
                Ok(c) => completion_for(self) == Some(c),
                Err(message) => completion_for(self) is None && message@
                    == "Completion not yet supported for "@ + shell_name(self),
            },
    {
        match self {
            Shell::Bash => Ok(CompletionShell::Bash),
            Shell::Fish => Ok(CompletionShell::Fish),
            Shell::Zsh => Ok(CompletionShell::Zsh),
            Shell::Oil => Ok(CompletionShell::Bash),
            _ => {
                let mut message = chars_of("Completion not yet supported for ");
                append_str(&mut message, self.name());
                Err(string_of(&message))
            },
        }
    }
}

/// Whether a line of a completion script completes one of the hidden
/// commands: it holds `"completion"` or `"complete"`, quotes included.
pub open spec fn names_hidden_command(line: Seq<char>) -> bool {
    contains_text(line, "\"completion\""@) || contains_text(line, "\"complete\""@)
}

/// The lines of `ls` that complete no hidden command, in order.
pub open spec fn visible_lines(ls: Seq<Seq<char>>) -> Seq<Seq<char>>
    decreases ls.len(),
{
    if ls.len() == 0 {
        seq![]
    } else if names_hidden_command(ls.last()) {
        visible_lines(ls.drop_last())
    } else {
        visible_lines(ls.drop_last()).push(ls.last())
    }
}

/// The views of the strings in `texts`.
pub open spec fn line_views(texts: Seq<String>) -> Seq<Seq<char>> {
    Seq::new(texts.len(), |i: int| texts[i]@)
}

/// Takes the lines for the hidden commands out of a generated completion
/// script and returns the lines that are left.
pub fn filter_hidden_completions(script: &str) -> (kept: Vec<String>)
    ensures
        line_views(kept@) == visible_lines(lines(script@)),
{
    let ls = lines_of(&chars_of(script));
    let ghost all = lines(script@);
    let completion = chars_of("\"completion\"");
    let complete = chars_of("\"complete\"");
    let mut kept: Vec<String> = Vec::new();
    let mut k: usize = 0;
    assert(all.take(0) =~= Seq::<Seq<char>>::empty());
    assert(line_views(kept@) =~= visible_lines(all.take(0)));
    while k < ls.len()
        invariant
            k <= ls.len(),
            views(ls@) == all,
            completion@ == "\"completion\""@,
            complete@ == "\"complete\""@,
            line_views(kept@) == visible_lines(all.take(k as int)),
        decreases ls.len() - k,
    {
        let line = &ls[k];
        assert(all[k as int] == line@);
        assert(all.take(k + 1).drop_last() =~= all.take(k as int));
        assert(all.take(k + 1).last() == line@);
        if !(contains_chars(line, &completion) || contains_chars(line, &complete)) {
            let ghost before = line_views(kept@);
            let text = string_of(line);
            kept.push(text);
            assert(line_views(kept@) =~= before.push(line@));
        }
        k += 1;
    }
    assert(all.take(ls.len() as int) =~= all);
    kept
}

} // verus!
