//! Expansion of template variables in paths and commands.
//!
//! A variable is written `{name}`. Every value is escaped for the shell before
//! it is put in, so that spaces and special characters in a branch or a path
//! cannot change the meaning of a command.

use vstd::prelude::*;
use crate::text::replace::{replace_all, replace_chars};
use crate::text::{append_str, chars_of, string_of};

verus! {

// ---------------------------------------------------------------------------
// Shell escaping
// ---------------------------------------------------------------------------

/// Whether a character may stand in a shell word without quotes.
pub open spec fn is_shell_safe(c: char) -> bool {
    ||| ('a' <= c && c <= 'z')
    ||| ('A' <= c && c <= 'Z')
    ||| ('0' <= c && c <= '9')
    ||| c == '-'
    ||| c == '_'
    ||| c == '='
    ||| c == '/'
    ||| c == ','
    ||| c == '.'
    ||| c == '+'
}

/// Whether a text has to be quoted: it is empty or holds a character that is
/// not safe.
pub open spec fn needs_quoting(s: Seq<char>) -> bool {
    s.len() == 0 || exists|i: int| 0 <= i < s.len() && !is_shell_safe(#[trigger] s[i])
}

/// A character inside single quotes. A single quote and an exclamation mark
/// leave the quotes, stand escaped by a backslash and enter the quotes again.
pub open spec fn quoted_char(c: char) -> Seq<char> {
    if c == '\'' || c == '!' {
        seq!['\'', '\\', c, '\'']
    } else {
        seq![c]
    }
}

/// The characters of `s` as they stand inside single quotes.
pub open spec fn quoted_body(s: Seq<char>) -> Seq<char>
    decreases s.len(),
{
    if s.len() == 0 {
        seq![]
    } else {
        quoted_body(s.drop_last()) + quoted_char(s.last())
    }
}

/// `s` as one word of a Unix shell: unchanged if it is not empty and every
/// character is safe, else in single quotes.
pub open spec fn shell_escaped(s: Seq<char>) -> Seq<char> {
    if needs_quoting(s) {
        seq!['\''] + quoted_body(s) + seq!['\'']
    } else {
        s
    }
}

/// Calls `shell_escape::unix::escape` of the crate `shell-escape`. It returns
/// its argument unchanged where the argument is not empty and holds only
/// letters, digits and `-_=/,.+`; else it returns the argument in single
/// quotes, with each `'` and `!` written as `'\''` and `'\!'`.
#[verifier::external_body]
fn escape(s: &str) -> (r: String)
    ensures
        r@ == shell_escaped(s@),
{
    shell_escape::unix::escape(std::borrow::Cow::Borrowed(s)).into_owned()
}

// ---------------------------------------------------------------------------
// Templates
// ---------------------------------------------------------------------------

/// A further variable of a template.
#[derive(Debug, Clone, PartialEq, Eq)]
pub struct Variable {
    pub name: String,
    pub value: String,
}

/// The names and values of `extra`.
pub open spec fn variable_views(extra: Seq<Variable>) -> Seq<(Seq<char>, Seq<char>)> {
    Seq::new(extra.len(), |i: int| (extra[i].name@, extra[i].value@))
}

/// A branch name that can be part of a file name: each `/` and `\` becomes `-`.
pub open spec fn sanitized(branch: Seq<char>) -> Seq<char> {
    Seq::new(
        branch.len(),
        |i: int|
            if branch[i] == '/' || branch[i] == '\\' {
                '-'
            } else {
                branch[i]
            },
    )
}

/// `{name}`.
pub open spec fn placeholder(name: Seq<char>) -> Seq<char> {
    seq!['{'] + name + seq!['}']
}

/// `text` with the variable `name` replaced by `value`, escaped.
pub open spec fn with_variable(text: Seq<char>, name: Seq<char>, value: Seq<char>) -> Seq<char> {
    replace_all(text, placeholder(name), shell_escaped(value))
}

/// `text` with the variables `extra` replaced, one after the other.
pub open spec fn with_variables(text: Seq<char>, extra: Seq<(Seq<char>, Seq<char>)>) -> Seq<char>
    decreases extra.len(),
{
    if extra.len() == 0 {
        text
    } else {
        with_variables(with_variable(text, extra[0].0, extra[0].1), extra.drop_first())
    }
}

/// The template with `{main-worktree}` replaced by the main working copy's
/// name, then `{branch}` by the sanitized branch name, then the variables
/// `extra` in their order.
pub open spec fn expanded(
    template: Seq<char>,
    main_worktree: Seq<char>,
    branch: Seq<char>,
    extra: Seq<(Seq<char>, Seq<char>)>,
) -> Seq<char> {
    with_variables(
        with_variable(
            with_variable(template, "main-worktree"@, main_worktree),
            "branch"@,
            sanitized(branch),
        ),
        extra,
    )
}

fn sanitize(branch: &str) -> (r: String)
    ensures
        r@ == sanitized(branch@),
{
    let chars = chars_of(branch);
    let mut out: Vec<char> = Vec::new();
    let mut i: usize = 0;
    while i < chars.len()
        invariant
            i <= chars.len(),
            out.len() == i,
            forall|k: int| 0 <= k < i ==> out[k] == sanitized(chars@)[k],
        decreases chars.len() - i,
    {
        let c = chars[i];
        if c == '/' || c == '\\' {
            out.push('-');
        } else {
            out.push(c);
        }
        i += 1;
    }
    assert(out@ =~= sanitized(chars@));
    string_of(&out)
}

fn substitute(text: &Vec<char>, name: &str, value: &str) -> (r: Vec<char>)
    ensures
        r@ == with_variable(text@, name@, value@),
{
    let mut pattern: Vec<char> = Vec::new();
    pattern.push('{');
    append_str(&mut pattern, name);
    pattern.push('}');
    assert(pattern@ =~= placeholder(name@));
    let escaped = escape(value);
    replace_chars(text, &pattern, &chars_of(escaped.as_str()))
}

/// Expands the variables of `template`: `{main-worktree}`, `{branch}` (with
/// every `/` and `\` turned into `-`) and those of `extra`, in this order. Each
/// value is escaped for the shell.
pub fn expand_template(template: &str, main_worktree: &str, branch: &str, extra: &Vec<Variable>) -> (r:
    String)
    ensures
        r@ == expanded(template@, main_worktree@, branch@, variable_views(extra@)),
{
    let safe_branch = sanitize(branch);
    let text = chars_of(template);
    let text = substitute(&text, "main-worktree", main_worktree);
    let mut text = substitute(&text, "branch", safe_branch.as_str());
    let ghost all = variable_views(extra@);
    let ghost start = text@;
    let mut k: usize = 0;
    assert(all.skip(0) =~= all);
    while k < extra.len()
        invariant
            k <= extra.len(),
            all == variable_views(extra@),
            with_variables(start, all) == with_variables(text@, all.skip(k as int)),
        decreases extra.len() - k,
    {
        let v = &extra[k];
        assert(all.skip(k as int)[0] == (v.name@, v.value@));
        assert(all.skip(k as int).drop_first() =~= all.skip(k + 1));
        text = substitute(&text, v.name.as_str(), v.value.as_str());
        k += 1;
    }
    assert(all.skip(extra.len() as int) =~= Seq::<(Seq<char>, Seq<char>)>::empty());
    string_of(&text)
}

/// The variables of a command template beside the two that every template
/// has: `{worktree}`, `{repo_root}` and, where a target branch is given,
/// `{target}`.
pub open spec fn command_variables(
    worktree_path: Seq<char>,
    repo_root: Seq<char>,
    target_branch: Option<Seq<char>>,
) -> Seq<(Seq<char>, Seq<char>)> {
    let base = seq![("worktree"@, worktree_path), ("repo_root"@, repo_root)];
    match target_branch {
        Some(target) => base.push(("target"@, target)),
        None => base,
    }
}

/// Expands a command template: `{main-worktree}` becomes the repository's
/// name, `{branch}` the sanitized branch, `{worktree}` the path of the working
/// copy, `{repo_root}` the path of the main repository and `{target}` the
/// target branch, where one is given.
pub fn expand_command_template(
    command: &str,
    repo_name: &str,
    branch: &str,
    worktree_path: &str,
    repo_root: &str,
    target_branch: Option<&str>,
) -> (r: String)
    ensures
        r@ == expanded(
            command@,
            repo_name@,
            branch@,
            command_variables(
                worktree_path@,
                repo_root@,
                match target_branch {
                    Some(t) => Some(t@),
                    None => None,
                },
            ),
        ),
{
    let mut extra: Vec<Variable> = Vec::new();
    extra.push(
        Variable { name: string_of(&chars_of("worktree")), value: string_of(&chars_of(worktree_path)) },
    );
    extra.push(
        Variable { name: string_of(&chars_of("repo_root")), value: string_of(&chars_of(repo_root)) },
    );
    if let Some(target) = target_branch {
        extra.push(
            Variable { name: string_of(&chars_of("target")), value: string_of(&chars_of(target)) },
        );
    }
    assert(variable_views(extra@) =~= command_variables(
        worktree_path@,
        repo_root@,
        match target_branch {
            Some(t) => Some(t@),
            None => None,
        },
    ));
    expand_template(command, repo_name, branch, &extra)
}

} // verus!
