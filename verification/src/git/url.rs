//! Remote URLs.
//!
//! A remote URL names a host, an owner and a repository. The accepted forms are
//! `https://<host>/<owner>/<repo>`, `http://<host>/<owner>/<repo>`,
//! `ssh://[<user>@]<host>/<owner>/<repo>` and `git@<host>:<owner>/<repo>`, each
//! with an optional `.git` after the repository's name.

use vstd::prelude::*;
use crate::text::{append_str, chars_of, string_of, trim, trim_chars};
use crate::text::split::{
    has_char, split, split_chars, split_once, split_once_chars, strip_prefix, strip_prefix_chars,
    strip_suffix, strip_suffix_chars, views,
};

verus! {

/// The three parts of a remote URL.
pub struct RemoteParts {
    pub host: Seq<char>,
    pub owner: Seq<char>,
    pub repo: Seq<char>,
}

/// The first three pieces of `rest` cut at `/`: host, owner and repository.
/// Further pieces are ignored.
pub open spec fn slash_triple(rest: Seq<char>) -> Option<RemoteParts> {
    let parts = split(rest, '/');
    if parts.len() < 3 {
        None
    } else {
        Some(RemoteParts { host: parts[0], owner: parts[1], repo: parts[2] })
    }
}

/// Host, owner and repository of an `ssh://` URL, given what follows the
/// scheme. A user name is dropped; a host with a port is not accepted.
pub open spec fn ssh_triple(rest: Seq<char>) -> Option<RemoteParts> {
    let without_user = split(rest, '@').last();
    if split(without_user, '/')[0].contains(':') {
        None
    } else {
        slash_triple(without_user)
    }
}

/// Host, owner and repository of a `git@` URL, given what follows `git@`.
pub open spec fn scp_triple(rest: Seq<char>) -> Option<RemoteParts> {
    match split_once(rest, ':') {
        None => None,
        Some((host, path)) => {
            let parts = split(path, '/');
            if parts.len() < 2 {
                None
            } else {
                Some(RemoteParts { host, owner: parts[0], repo: parts[1] })
            }
        },
    }
}

/// The parts of a trimmed URL before the repository's suffix is looked at.
pub open spec fn raw_triple(u: Seq<char>) -> Option<RemoteParts> {
    if let Some(rest) = strip_prefix(u, "https://"@) {
        slash_triple(rest)
    } else if let Some(rest) = strip_prefix(u, "http://"@) {
        slash_triple(rest)
    } else if let Some(rest) = strip_prefix(u, "ssh://"@) {
        ssh_triple(rest)
    } else if let Some(rest) = strip_prefix(u, "git@"@) {
        scp_triple(rest)
    } else {
        None
    }
}

/// What a remote URL parses to: surrounding whitespace is ignored, one `.git`
/// at the end of the repository's name is dropped, and none of the three parts
/// may be empty.
pub open spec fn parse_remote(url: Seq<char>) -> Option<RemoteParts> {
    match raw_triple(trim(url)) {
        None => None,
        Some(t) => {
            let repo = match strip_suffix(t.repo, ".git"@) {
                Some(r) => r,
                None => t.repo,
            };
            if t.host.len() == 0 || t.owner.len() == 0 || repo.len() == 0 {
                None
            } else {
                Some(RemoteParts { host: t.host, owner: t.owner, repo })
            }
        },
    }
}

/// A parsed remote URL.
#[derive(Debug, Clone, PartialEq, Eq)]
pub struct GitRemoteUrl {
    host: String,
    owner: String,
    repo: String,
}

impl View for GitRemoteUrl {
    type V = RemoteParts;

    closed spec fn view(&self) -> RemoteParts {
        RemoteParts { host: self.host@, owner: self.owner@, repo: self.repo@ }
    }
}

fn slash_parts(rest: &Vec<char>) -> (r: Option<(Vec<char>, Vec<char>, Vec<char>)>)
    ensures
        match r {
            Some((h, o, p)) => slash_triple(rest@) == Some(
                RemoteParts { host: h@, owner: o@, repo: p@ },
            ),
            None => slash_triple(rest@) is None,
        },
{
    let mut parts = split_chars(rest, '/');
    if parts.len() < 3 {
        return None;
    }
    let ghost all = views(parts@);
    assert(all[0] == parts@[0]@ && all[1] == parts@[1]@ && all[2] == parts@[2]@);
    let p = parts.swap_remove(2);
    let o = parts.swap_remove(1);
    let h = parts.swap_remove(0);
    Some((h, o, p))
}

fn ssh_parts(rest: &Vec<char>) -> (r: Option<(Vec<char>, Vec<char>, Vec<char>)>)
    ensures
        match r {
            Some((h, o, p)) => ssh_triple(rest@) == Some(
                RemoteParts { host: h@, owner: o@, repo: p@ },
            ),
            None => ssh_triple(rest@) is None,
        },
{
    let by_at = split_chars(rest, '@');
    let without_user = &by_at[by_at.len() - 1];
    assert(views(by_at@).last() == without_user@);
    let by_slash = split_chars(without_user, '/');
    assert(views(by_slash@)[0] == by_slash@[0]@);
    if has_char(&by_slash[0], ':') {
        return None;
    }
    slash_parts(without_user)
}

fn scp_parts(rest: &Vec<char>) -> (r: Option<(Vec<char>, Vec<char>, Vec<char>)>)
    ensures
        match r {
            Some((h, o, p)) => scp_triple(rest@) == Some(
                RemoteParts { host: h@, owner: o@, repo: p@ },
            ),
            None => scp_triple(rest@) is None,
        },
{
    match split_once_chars(rest, ':') {
        None => None,
        Some((host, path)) => {
            let mut parts = split_chars(&path, '/');
            if parts.len() < 2 {
                return None;
            }
            let ghost all = views(parts@);
            assert(all[0] == parts@[0]@ && all[1] == parts@[1]@);
            let p = parts.swap_remove(1);
            let o = parts.swap_remove(0);
            Some((host, o, p))
        },
    }
}

fn raw_parts(u: &Vec<char>) -> (r: Option<(Vec<char>, Vec<char>, Vec<char>)>)
    ensures
        match r {
            Some((h, o, p)) => raw_triple(u@) == Some(
                RemoteParts { host: h@, owner: o@, repo: p@ },
            ),
            None => raw_triple(u@) is None,
        },
{
    if let Some(rest) = strip_prefix_chars(u, &chars_of("https://")) {
        slash_parts(&rest)
    } else if let Some(rest) = strip_prefix_chars(u, &chars_of("http://")) {
        slash_parts(&rest)
    } else if let Some(rest) = strip_prefix_chars(u, &chars_of("ssh://")) {
        ssh_parts(&rest)
    } else if let Some(rest) = strip_prefix_chars(u, &chars_of("git@")) {
        scp_parts(&rest)
    } else {
        None
    }
}

impl GitRemoteUrl {
    /// Parses a remote URL. Returns `None` for a malformed URL or a form that
    /// is not supported.
    pub fn parse(url: &str) -> (r: Option<GitRemoteUrl>)
        ensures
            match r {
                Some(u) => parse_remote(url@) == Some(u@),
                None => parse_remote(url@) is None,
            },
    {
        let raw = chars_of(url);
        let u = trim_chars(&raw);
        match raw_parts(&u) {
            None => None,
            Some((host, owner, repo_with_suffix)) => {
                let repo = match strip_suffix_chars(&repo_with_suffix, &chars_of(".git")) {
                    Some(r) => r,
                    None => repo_with_suffix,
                };
                if host.len() == 0 || owner.len() == 0 || repo.len() == 0 {
                    None
                } else {
                    Some(
                        GitRemoteUrl {
                            host: string_of(&host),
                            owner: string_of(&owner),
                            repo: string_of(&repo),
                        },
                    )
                }
            },
        }
    }

    /// The host name, such as `github.com`.
    pub fn host(&self) -> (r: &str)
        ensures
            r@ == self@.host,
    {
        self.host.as_str()
    }

    /// The owner or organisation of the repository.
    pub fn owner(&self) -> (r: &str)
        ensures
            r@ == self@.owner,
    {
        self.owner.as_str()
    }

    /// The repository's name, without `.git`.
    pub fn repo(&self) -> (r: &str)
        ensures
            r@ == self@.repo,
    {
        self.repo.as_str()
    }

    /// Host, owner and repository joined by `/`.
    pub fn project_identifier(&self) -> (r: String)
        ensures
            r@ == self@.host + seq!['/'] + self@.owner + seq!['/'] + self@.repo,
    {
        let mut out: Vec<char> = Vec::new();
        append_str(&mut out, self.host.as_str());
        out.push('/');
        append_str(&mut out, self.owner.as_str());
        out.push('/');
        append_str(&mut out, self.repo.as_str());
        assert(out@ =~= self@.host + seq!['/'] + self@.owner + seq!['/'] + self@.repo);
        string_of(&out)
    }
}

} // verus!
