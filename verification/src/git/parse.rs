//! Parsers for the engine's listings.

use vstd::prelude::*;
use crate::git::{GitError, GitErrorView, Worktree, WorktreeView};
use crate::text::number::{parse_i64, parse_signed, parse_unsigned, parse_usize};
use crate::text::split::{
    lines, lines_of, split, split_chars, split_once, split_once_chars, strip_prefix,
    strip_prefix_chars, views,
};
use crate::text::{append_str, chars_of, is_text, string_of, trim, trim_chars};

verus! {

// ---------------------------------------------------------------------------
// The list of working copies
// ---------------------------------------------------------------------------
//
// The listing holds one block of lines for each working copy, the blocks
// parted by empty lines. A line is a key, or a key, a space and a value. The
// line `worktree <path>` opens a block; the others describe the working copy
// of the block they stand in.

/// Where the parser stands between two lines: the working copies of the blocks
/// that are closed, and the one of the open block, if a block is open.
pub struct ListState {
    pub done: Seq<WorktreeView>,
    pub current: Option<WorktreeView>,
}

/// The state before the first line.
pub open spec fn list_start() -> ListState {
    ListState { done: seq![], current: None }
}

/// The key of a line: what stands before its first space.
pub open spec fn line_key(line: Seq<char>) -> Seq<char> {
    match split_once(line, ' ') {
        Some((key, _)) => key,
        None => line,
    }
}

/// The value of a line: what stands after its first space, if it has one.
pub open spec fn line_value(line: Seq<char>) -> Option<Seq<char>> {
    match split_once(line, ' ') {
        Some((_, value)) => Some(value),
        None => None,
    }
}

/// The working copy that a block opens with: only its path is known.
pub open spec fn opened(path: Seq<char>) -> WorktreeView {
    WorktreeView {
        path,
        head: seq![],
        branch: None,
        bare: false,
        detached: false,
        locked: None,
        prunable: None,
    }
}

/// A branch's name as listed: the reference without `refs/heads/` in front.
pub open spec fn short_branch(reference: Seq<char>) -> Seq<char> {
    match strip_prefix(reference, "refs/heads/"@) {
        Some(name) => name,
        None => reference,
    }
}

/// The value of a line, or the empty text.
pub open spec fn value_or_empty(line: Seq<char>) -> Seq<char> {
    match line_value(line) {
        Some(v) => v,
        None => seq![],
    }
}

/// The open working copy after a line that describes it, or the message of
/// the error that the line is.
pub open spec fn described(wt: WorktreeView, line: Seq<char>) -> Result<WorktreeView, Seq<char>> {
    let key = line_key(line);
    if key == "HEAD"@ {
        match line_value(line) {
            Some(v) => Ok(WorktreeView { head: v, ..wt }),
            None => Err("HEAD line missing SHA"@),
        }
    } else if key == "branch"@ {
        match line_value(line) {
            Some(v) => Ok(WorktreeView { branch: Some(short_branch(v)), ..wt }),
            None => Err("branch line missing ref"@),
        }
    } else if key == "bare"@ {
        Ok(WorktreeView { bare: true, ..wt })
    } else if key == "detached"@ {
        Ok(WorktreeView { detached: true, ..wt })
    } else if key == "locked"@ {
        Ok(WorktreeView { locked: Some(value_or_empty(line)), ..wt })
    } else if key == "prunable"@ {
        Ok(WorktreeView { prunable: Some(value_or_empty(line)), ..wt })
    } else {
        Ok(wt)
    }
}

/// The state after one line, or the message of the error that the line is.
/// An empty line closes the open block. A `worktree` line opens a block and
/// drops a block that was still open. Outside a block every other line is
/// ignored; so is a line with an unknown key.
pub open spec fn list_step(state: ListState, line: Seq<char>) -> Result<ListState, Seq<char>> {
    if line.len() == 0 {
        match state.current {
            Some(wt) => Ok(ListState { done: state.done.push(wt), current: None }),
            None => Ok(state),
        }
    } else if line_key(line) == "worktree"@ {
        match line_value(line) {
            Some(path) => Ok(ListState { done: state.done, current: Some(opened(path)) }),
            None => Err("worktree line missing path"@),
        }
    } else {
        match state.current {
            Some(wt) => match described(wt, line) {
                Ok(next) => Ok(ListState { done: state.done, current: Some(next) }),
                Err(message) => Err(message),
            },
            None => Ok(state),
        }
    }
}

/// The state after the lines `rest`, or the first error among them.
pub open spec fn list_fold(state: ListState, rest: Seq<Seq<char>>) -> Result<ListState, Seq<char>>
    decreases rest.len(),
{
    if rest.len() == 0 {
        Ok(state)
    } else {
        match list_step(state, rest[0]) {
            Ok(next) => list_fold(next, rest.drop_first()),
            Err(message) => Err(message),
        }
    }
}

/// The working copies that a listing describes, in its order; a block that the
/// end of the listing leaves open counts. A line that lacks a value it needs
/// makes the whole listing an error.
pub open spec fn worktree_list(output: Seq<char>) -> Result<Seq<WorktreeView>, GitErrorView> {
    match list_fold(list_start(), lines(output)) {
        Ok(state) => Ok(
            match state.current {
                Some(wt) => state.done.push(wt),
                None => state.done,
            },
        ),
        Err(message) => Err(GitErrorView::ParseError(message)),
    }
}

/// The views of the working copies `list`.
pub open spec fn worktrees_view(list: Seq<Worktree>) -> Seq<WorktreeView> {
    Seq::new(list.len(), |i: int| list[i]@)
}

fn parse_error(message: &str) -> (e: GitError)
    ensures
        e@ == GitErrorView::ParseError(message@),
{
    GitError::ParseError(string_of(&chars_of(message)))
}

fn key_and_value(line: &Vec<char>) -> (r: (Vec<char>, Option<Vec<char>>))
    ensures
        r.0@ == line_key(line@),
        match r.1 {
            Some(v) => line_value(line@) == Some(v@),
            None => line_value(line@) is None,
        },
{
    match split_once_chars(line, ' ') {
        Some((k, v)) => (k, Some(v)),
        None => {
            let k = crate::text::slice_of(line, 0, line.len());
            assert(k@ =~= line@);
            (k, None)
        },
    }
}

fn describe(wt: &mut Worktree, key: &Vec<char>, value: Option<Vec<char>>, Ghost(line): Ghost<
    Seq<char>,
>) -> (r: Result<(), GitError>)
    requires
        key@ == line_key(line),
        match value {
            Some(v) => line_value(line) == Some(v@),
            None => line_value(line) is None,
        },
    ensures
        match r {
            Ok(_) => described(old(wt)@, line) == Ok::<WorktreeView, Seq<char>>(final(wt)@),
            Err(e) => described(old(wt)@, line) matches Err(m) && e@ == GitErrorView::ParseError(m),
        },
{
    if is_text(key, "HEAD") {
        match value {
            Some(v) => {
                wt.head = string_of(&v);
            },
            None => {
                return Err(parse_error("HEAD line missing SHA"));
            },
        }
    } else if is_text(key, "branch") {
        match value {
            Some(v) => {
                let name = match strip_prefix_chars(&v, &chars_of("refs/heads/")) {
                    Some(n) => n,
                    None => v,
                };
                wt.branch = Some(string_of(&name));
            },
            None => {
                return Err(parse_error("branch line missing ref"));
            },
        }
    } else if is_text(key, "bare") {
        wt.bare = true;
    } else if is_text(key, "detached") {
        wt.detached = true;
    } else if is_text(key, "locked") {
        let text = match value {
            Some(v) => string_of(&v),
            None => String::new(),
        };
        wt.locked = Some(text);
    } else if is_text(key, "prunable") {
        let text = match value {
            Some(v) => string_of(&v),
            None => String::new(),
        };
        wt.prunable = Some(text);
    }
    Ok(())
}

/// Reads the listing of working copies that the engine prints in its
/// line-by-line form.
pub fn parse_worktree_list(output: &str) -> (r: Result<Vec<Worktree>, GitError>)
    ensures
        match r {
            Ok(list) => worktree_list(output@) == Ok::<Seq<WorktreeView>, GitErrorView>(
                worktrees_view(list@),
            ),
            Err(e) => worktree_list(output@) == Err::<Seq<WorktreeView>, GitErrorView>(e@),
        },
{
    let text = chars_of(output);
    let ls = lines_of(&text);
    let ghost all = lines(output@);
    let mut worktrees: Vec<Worktree> = Vec::new();
    let mut current: Option<Worktree> = None;
    let mut k: usize = 0;
    assert(all.skip(0) =~= all);
    assert(worktrees_view(worktrees@) =~= Seq::<WorktreeView>::empty());
    while k < ls.len()
        invariant
            k <= ls.len(),
            views(ls@) == all,
            all == lines(output@),
            list_fold(list_start(), all) == list_fold(
                ListState {
                    done: worktrees_view(worktrees@),
                    current: match current {
                        Some(wt) => Some(wt@),
                        None => None,
                    },
                },
                all.skip(k as int),
            ),
        decreases ls.len() - k,
    {
        let line = &ls[k];
        let ghost rest = all.skip(k as int);
        assert(rest[0] == line@);
        assert(rest.drop_first() =~= all.skip(k + 1));
        let ghost done = worktrees_view(worktrees@);
        if line.len() == 0 {
            match current {
                Some(wt) => {
                    worktrees.push(wt);
                    assert(worktrees_view(worktrees@) =~= done.push(wt@));
                    current = None;
                },
                None => {},
            }
        } else {
            let (key, value) = key_and_value(line);
            if is_text(&key, "worktree") {
                match value {
                    Some(path) => {
                        current = Some(
                            Worktree {
                                path: string_of(&path),
                                head: String::new(),
                                branch: None,
                                bare: false,
                                detached: false,
                                locked: None,
                                prunable: None,
                            },
                        );
                    },
                    None => {
                        return Err(parse_error("worktree line missing path"));
                    },
                }
            } else {
                match current {
                    Some(mut wt) => {
                        match describe(&mut wt, &key, value, Ghost(line@)) {
                            Ok(_) => {},
                            Err(e) => {
                                return Err(e);
                            },
                        }
                        current = Some(wt);
                    },
                    None => {},
                }
            }
        }
        k += 1;
    }
    assert(all.skip(ls.len() as int) =~= Seq::<Seq<char>>::empty());
    let ghost done = worktrees_view(worktrees@);
    if let Some(wt) = current {
        worktrees.push(wt);
        assert(worktrees_view(worktrees@) =~= done.push(wt@));
    }
    Ok(worktrees)
}

// ---------------------------------------------------------------------------
// The default branch
// ---------------------------------------------------------------------------

/// The branch that a remote's `HEAD` names locally: the trimmed output without
/// the remote's name and a `/` in front.
pub open spec fn local_default_branch(output: Seq<char>, remote: Seq<char>) -> Seq<char> {
    let trimmed = trim(output);
    match strip_prefix(trimmed, remote + "/"@) {
        Some(branch) => branch,
        None => trimmed,
    }
}

/// The message for a remote whose `HEAD` names no branch.
pub open spec fn empty_branch_message(remote: Seq<char>) -> Seq<char> {
    "Empty branch name from "@ + remote + "/HEAD"@
}

/// Reads the branch that the remote `remote` has as its default, from the
/// name that its `HEAD` resolves to locally, such as `origin/main`. An empty
/// name is an error.
pub fn parse_local_default_branch(output: &str, remote: &str) -> (r: Result<String, GitError>)
    ensures
        match r {
            Ok(branch) => branch@ == local_default_branch(output@, remote@) && branch@.len() > 0,
            Err(e) => local_default_branch(output@, remote@).len() == 0 && e@
                == GitErrorView::ParseError(empty_branch_message(remote@)),
        },
{
    let trimmed = trim_chars(&chars_of(output));
    let mut prefix = chars_of(remote);
    append_str(&mut prefix, "/");
    let branch = match strip_prefix_chars(&trimmed, &prefix) {
        Some(b) => b,
        None => trimmed,
    };
    if branch.len() == 0 {
        let mut message: Vec<char> = Vec::new();
        append_str(&mut message, "Empty branch name from ");
        append_str(&mut message, remote);
        append_str(&mut message, "/HEAD");
        return Err(GitError::ParseError(string_of(&message)));
    }
    Ok(string_of(&branch))
}

/// The branch that a line of a remote's reference listing names as the
/// remote's default: the line reads `ref: refs/heads/<branch>`, a tab and
/// more.
pub open spec fn symref_branch(line: Seq<char>) -> Option<Seq<char>> {
    match strip_prefix(line, "ref: "@) {
        None => None,
        Some(symref) => match split_once(symref, '\t') {
            None => None,
            Some((ref_path, _)) => strip_prefix(ref_path, "refs/heads/"@),
        },
    }
}

/// The branch named by the first of `ls` that names one.
pub open spec fn first_symref(ls: Seq<Seq<char>>) -> Option<Seq<char>>
    decreases ls.len(),
{
    if ls.len() == 0 {
        None
    } else {
        match symref_branch(ls[0]) {
            Some(branch) => Some(branch),
            None => first_symref(ls.drop_first()),
        }
    }
}

/// Reads the default branch of a remote from its reference listing: the first
/// line that names a symbolic reference to a branch decides. A listing without
/// such a line is an error.
pub fn parse_remote_default_branch(output: &str) -> (r: Result<String, GitError>)
    ensures
        match r {
            Ok(branch) => first_symref(lines(output@)) == Some(branch@),
            Err(e) => first_symref(lines(output@)) is None && e@ == GitErrorView::ParseError(
                "Could not find symbolic ref in ls-remote output"@,
            ),
        },
{
    let ls = lines_of(&chars_of(output));
    let ghost all = lines(output@);
    let mut k: usize = 0;
    assert(all.skip(0) =~= all);
    while k < ls.len()
        invariant
            k <= ls.len(),
            views(ls@) == all,
            all == lines(output@),
            first_symref(all) == first_symref(all.skip(k as int)),
        decreases ls.len() - k,
    {
        let line = &ls[k];
        assert(all.skip(k as int)[0] == line@);
        assert(all.skip(k as int).drop_first() =~= all.skip(k + 1));
        if let Some(symref) = strip_prefix_chars(line, &chars_of("ref: ")) {
            if let Some((ref_path, _)) = split_once_chars(&symref, '\t') {
                if let Some(branch) = strip_prefix_chars(&ref_path, &chars_of("refs/heads/")) {
                    return Ok(string_of(&branch));
                }
            }
        }
        k += 1;
    }
    assert(all.skip(ls.len() as int) =~= Seq::<Seq<char>>::empty());
    Err(parse_error("Could not find symbolic ref in ls-remote output"))
}

// ---------------------------------------------------------------------------
// Line counts
// ---------------------------------------------------------------------------

/// The lines added and deleted that one line of a per-file count names: two
/// numbers, the first two of the line's tab-separated fields. A blank line, a
/// line with one field, a line for a binary file (`-` for a count) and a line
/// whose counts are no numbers name nothing.
pub open spec fn line_counts(line: Seq<char>) -> Option<(nat, nat)> {
    let parts = split(line, '\t');
    if trim(line).len() == 0 || parts.len() < 2 {
        None
    } else {
        match (
            parse_unsigned(parts[0], usize::MAX as nat),
            parse_unsigned(parts[1], usize::MAX as nat),
        ) {
            (Some(added), Some(deleted)) => Some((added, deleted)),
            _ => None,
        }
    }
}

/// The lines added, over all of `ls`.
pub open spec fn total_added(ls: Seq<Seq<char>>) -> int
    decreases ls.len(),
{
    if ls.len() == 0 {
        0
    } else {
        total_added(ls.drop_last()) + match line_counts(ls.last()) {
            Some((added, _)) => added as int,
            None => 0,
        }
    }
}

/// The lines deleted, over all of `ls`.
pub open spec fn total_deleted(ls: Seq<Seq<char>>) -> int
    decreases ls.len(),
{
    if ls.len() == 0 {
        0
    } else {
        total_deleted(ls.drop_last()) + match line_counts(ls.last()) {
            Some((_, deleted)) => deleted as int,
            None => 0,
        }
    }
}

proof fn lemma_totals_grow(ls: Seq<Seq<char>>, k: int)
    requires
        0 <= k <= ls.len(),
    ensures
        0 <= total_added(ls.take(k)) <= total_added(ls),
        0 <= total_deleted(ls.take(k)) <= total_deleted(ls),
    decreases ls.len() - k,
{
    if k < ls.len() {
        lemma_totals_grow(ls, k + 1);
        assert(ls.take(k + 1).drop_last() =~= ls.take(k));
        lemma_totals_nonneg(ls.take(k));
    } else {
        assert(ls.take(k) =~= ls);
        lemma_totals_nonneg(ls);
    }
}

proof fn lemma_totals_nonneg(ls: Seq<Seq<char>>)
    ensures
        0 <= total_added(ls),
        0 <= total_deleted(ls),
    decreases ls.len(),
{
    if ls.len() > 0 {
        lemma_totals_nonneg(ls.drop_last());
    }
}

/// Adds up the lines added and deleted in a per-file count listing. Lines that
/// name no counts are passed over. Totals too large for the machine's word are
/// an error.
pub fn parse_numstat(output: &str) -> (r: Result<(usize, usize), GitError>)
    ensures
        match r {
            Ok((added, deleted)) => added == total_added(lines(output@)) && deleted
                == total_deleted(lines(output@)),
            Err(e) => (total_added(lines(output@)) > usize::MAX || total_deleted(lines(output@))
                > usize::MAX) && e@ == GitErrorView::ParseError("Line counts out of range"@),
        },
{
    let ls = lines_of(&chars_of(output));
    let ghost all = lines(output@);
    let mut total_add: usize = 0;
    let mut total_del: usize = 0;
    let mut k: usize = 0;
    assert(all.take(0) =~= Seq::<Seq<char>>::empty());
    while k < ls.len()
        invariant
            k <= ls.len(),
            views(ls@) == all,
            all == lines(output@),
            total_add == total_added(all.take(k as int)),
            total_del == total_deleted(all.take(k as int)),
        decreases ls.len() - k,
    {
        let line = &ls[k];
        assert(all[k as int] == line@);
        assert(all.take(k + 1).drop_last() =~= all.take(k as int));
        assert(all.take(k + 1).last() == line@);
        let mut counts: Option<(usize, usize)> = None;
        if trim_chars(line).len() > 0 {
            let parts = split_chars(line, '\t');
            if parts.len() >= 2 {
                assert(views(parts@)[0] == parts@[0]@ && views(parts@)[1] == parts@[1]@);
                if let Some(added) = parse_usize(&parts[0]) {
                    if let Some(deleted) = parse_usize(&parts[1]) {
                        counts = Some((added, deleted));
                    }
                }
            }
        }
        assert(match counts {
            Some((a, d)) => line_counts(line@) == Some((a as nat, d as nat)),
            None => line_counts(line@) is None,
        });
        if let Some((added, deleted)) = counts {
            if added > usize::MAX - total_add || deleted > usize::MAX - total_del {
                proof {
                    lemma_totals_grow(all, k + 1);
                }
                return Err(parse_error("Line counts out of range"));
            }
            total_add = total_add + added;
            total_del = total_del + deleted;
        }
        k += 1;
    }
    assert(all.take(ls.len() as int) =~= all);
    Ok((total_add, total_del))
}

// ---------------------------------------------------------------------------
// Single values
// ---------------------------------------------------------------------------

/// The commits ahead and behind that a two-sided count names: the trimmed
/// output holds the count of the commits that only the base has, a tab and the
/// count of those that only the head has.
pub open spec fn ahead_behind(output: Seq<char>) -> Option<(nat, nat)> {
    match split_once(trim(output), '\t') {
        None => None,
        Some((left, right)) => match (
            parse_unsigned(left, usize::MAX as nat),
            parse_unsigned(right, usize::MAX as nat),
        ) {
            (Some(behind), Some(ahead)) => Some((ahead, behind)),
            _ => None,
        },
    }
}

/// Reads how many commits a head is ahead of and behind a base from the
/// two-sided count of the commits between them. Returns the count ahead, then
/// the count behind.
pub fn parse_ahead_behind(output: &str) -> (r: Result<(usize, usize), GitError>)
    ensures
        match r {
            Ok((ahead, behind)) => ahead_behind(output@) == Some((ahead as nat, behind as nat)),
            Err(e) => ahead_behind(output@) is None && e@ == GitErrorView::ParseError(
                "Unexpected commit count"@,
            ),
        },
{
    let trimmed = trim_chars(&chars_of(output));
    if let Some((left, right)) = split_once_chars(&trimmed, '\t') {
        if let Some(behind) = parse_usize(&left) {
            if let Some(ahead) = parse_usize(&right) {
                return Ok((ahead, behind));
            }
        }
    }
    Err(parse_error("Unexpected commit count"))
}

/// Reads the time of a commit, in seconds since the Unix epoch, from the
/// trimmed output.
pub fn parse_timestamp(output: &str) -> (r: Result<i64, GitError>)
    ensures
        match r {
            Ok(t) => parse_signed(trim(output@), i64::MAX as nat) == Some(t as int),
            Err(e) => parse_signed(trim(output@), i64::MAX as nat) is None && e@
                == GitErrorView::ParseError("Unexpected commit time"@),
        },
{
    let trimmed = trim_chars(&chars_of(output));
    match parse_i64(&trimmed) {
        Some(t) => Ok(t),
        None => Err(parse_error("Unexpected commit time")),
    }
}

} // verus!
