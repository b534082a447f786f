//! Paths as text.
//!
//! A path is text whose components are separated by `/`. Repeated separators
//! and `.` between separators do not count; a leading `/` is the root and a
//! leading `.` the current directory, each a component of its own.

use vstd::prelude::*;
use crate::text::split::{split, split_chars, views};
use crate::text::{append_chars, chars_of, same_chars, slice_of};

verus! {

/// Whether a piece between two separators names something.
pub open spec fn is_name(piece: Seq<char>) -> bool {
    piece.len() > 0 && piece != seq!['.']
}

/// The pieces that name something, in order.
pub open spec fn names(pieces: Seq<Seq<char>>) -> Seq<Seq<char>>
    decreases pieces.len(),
{
    if pieces.len() == 0 {
        seq![]
    } else if is_name(pieces.last()) {
        names(pieces.drop_last()).push(pieces.last())
    } else {
        names(pieces.drop_last())
    }
}

/// The components of a path.
pub open spec fn components(path: Seq<char>) -> Seq<Seq<char>> {
    let pieces = split(path, '/');
    if path.len() > 0 && path[0] == '/' {
        seq![seq!['/']] + names(pieces)
    } else if pieces[0] == seq!['.'] {
        seq![seq!['.']] + names(pieces)
    } else {
        names(pieces)
    }
}

/// The path made of the components `comps`.
pub open spec fn joined(comps: Seq<Seq<char>>) -> Seq<char>
    decreases comps.len(),
{
    if comps.len() == 0 {
        seq![]
    } else if comps.len() == 1 {
        comps[0]
    } else {
        let front = joined(comps.drop_last());
        if front == seq!['/'] {
            front + comps.last()
        } else {
            front + seq!['/'] + comps.last()
        }
    }
}

/// Whether the path with components `whole` lies at or below the one with
/// components `prefix`.
pub open spec fn is_component_prefix(prefix: Seq<Seq<char>>, whole: Seq<Seq<char>>) -> bool {
    prefix.len() <= whole.len() && whole.take(prefix.len() as int) == prefix
}

/// Whether every one of `paths` lies at or below `prefix`.
pub open spec fn all_start_with(paths: Seq<Seq<char>>, prefix: Seq<Seq<char>>) -> bool {
    forall|i: int| 0 <= i < paths.len() ==> is_component_prefix(prefix, components(#[trigger] paths[i]))
}

/// How many leading components of `comps` all of `paths` share, counting on
/// from `k` shared ones.
pub open spec fn shared_count(paths: Seq<Seq<char>>, comps: Seq<Seq<char>>, k: int) -> int
    decreases comps.len() - k,
{
    if 0 <= k < comps.len() && all_start_with(paths, comps.take(k + 1)) {
        shared_count(paths, comps, k + 1)
    } else {
        k
    }
}

/// The deepest directory that all of `paths` lie at or below; empty where
/// there is no path or nothing shared.
pub open spec fn common_prefix(paths: Seq<Seq<char>>) -> Seq<char> {
    if paths.len() == 0 {
        seq![]
    } else {
        let comps = components(paths[0]);
        joined(comps.take(shared_count(paths, comps, 0)))
    }
}

/// `path` as seen from `prefix`: `.` for the prefix itself, `./` and the rest
/// for a path below it, and the path unchanged where it is not below it.
pub open spec fn shortened(path: Seq<char>, prefix: Seq<char>) -> Seq<char> {
    let p = components(path);
    let q = components(prefix);
    if is_component_prefix(q, p) {
        if p.len() == q.len() {
            "."@
        } else {
            "./"@ + joined(p.skip(q.len() as int))
        }
    } else {
        path
    }
}

/// The views of the strings in `texts`.
pub open spec fn string_views(texts: Seq<String>) -> Seq<Seq<char>> {
    Seq::new(texts.len(), |i: int| texts[i]@)
}

/// The components of `path`.
pub fn path_components(path: &str) -> (comps: Vec<Vec<char>>)
    ensures
        views(comps@) == components(path@),
{
    let text = chars_of(path);
    let mut pieces = split_chars(&text, '/');
    let ghost all = views(pieces@);
    let mut comps: Vec<Vec<char>> = Vec::new();
    if text.len() > 0 && text[0] == '/' {
        let mut root: Vec<char> = Vec::new();
        root.push('/');
        assert(root@ =~= seq!['/']);
        comps.push(root);
    } else if is_dot(&pieces[0]) {
        let mut dot: Vec<char> = Vec::new();
        dot.push('.');
        assert(dot@ =~= seq!['.']);
        comps.push(dot);
    }
    let ghost lead = views(comps@);
    assert(all[0] == pieces@[0]@);
    assert(components(path@) =~= lead + names(all));
    let mut k: usize = 0;
    assert(all.take(0) =~= Seq::<Seq<char>>::empty());
    assert(lead + names(all.take(0)) =~= views(comps@));
    while k < pieces.len()
        invariant
            k <= pieces.len(),
            all == views(pieces@),
            views(comps@) == lead + names(all.take(k as int)),
        decreases pieces.len() - k,
    {
        let piece = &pieces[k];
        assert(all[k as int] == piece@);
        assert(all.take(k + 1).drop_last() =~= all.take(k as int));
        assert(all.take(k + 1).last() == piece@);
        if piece.len() > 0 && !is_dot(piece) {
            let ghost before = views(comps@);
            let copy = slice_of(piece, 0, piece.len());
            assert(copy@ =~= piece@);
            comps.push(copy);
            assert(views(comps@) =~= before.push(piece@));
            assert(views(comps@) =~= lead + names(all.take(k + 1)));
        }
        k += 1;
    }
    assert(all.take(pieces.len() as int) =~= all);
    comps
}

fn is_dot(piece: &Vec<char>) -> (r: bool)
    ensures
        r == (piece@ == seq!['.']),
{
    if piece.len() == 1 && piece[0] == '.' {
        assert(piece@ =~= seq!['.']);
        true
    } else {
        assert(seq!['.'].len() == 1 && seq!['.'][0] == '.');
        false
    }
}

/// The path made of `comps[from..to]`.
pub fn join_components(comps: &Vec<Vec<char>>, from: usize, to: usize) -> (path: Vec<char>)
    requires
        from <= to <= comps.len(),
    ensures
        path@ == joined(views(comps@).subrange(from as int, to as int)),
{
    let ghost all = views(comps@);
    let mut path: Vec<char> = Vec::new();
    let mut k: usize = from;
    assert(all.subrange(from as int, from as int) =~= Seq::<Seq<char>>::empty());
    while k < to
        invariant
            from <= k <= to <= comps.len(),
            all == views(comps@),
            path@ == joined(all.subrange(from as int, k as int)),
        decreases to - k,
    {
        let ghost done = all.subrange(from as int, k as int);
        let ghost next = all.subrange(from as int, k + 1);
        assert(next.drop_last() =~= done);
        assert(next.last() == comps@[k as int]@);
        if k == from {
            assert(next.len() == 1);
            assert(path@ =~= Seq::<char>::empty());
        } else {
            let lone_root = path.len() == 1 && path[0] == '/';
            assert(lone_root == (path@ == seq!['/'])) by {
                if lone_root {
                    assert(path@ =~= seq!['/']);
                } else {
                    assert(seq!['/'].len() == 1 && seq!['/'][0] == '/');
                }
            }
            if !lone_root {
                path.push('/');
            }
        }
        append_chars(&mut path, &comps[k]);
        assert(path@ =~= joined(next));
        k += 1;
    }
    path
}

/// Whether the first `count` components of `whole` are those of `prefix`.
pub fn components_start_with(whole: &Vec<Vec<char>>, prefix: &Vec<Vec<char>>, count: usize) -> (r: bool)
    requires
        count <= prefix.len(),
    ensures
        r == is_component_prefix(views(prefix@).take(count as int), views(whole@)),
{
    if whole.len() < count {
        return false;
    }
    let ghost w = views(whole@);
    let ghost p = views(prefix@).take(count as int);
    let mut k: usize = 0;
    while k < count
        invariant
            k <= count <= prefix.len(),
            count <= whole.len(),
            w == views(whole@),
            p == views(prefix@).take(count as int),
            forall|j: int| 0 <= j < k ==> w[j] == p[j],
        decreases count - k,
    {
        assert(w[k as int] == whole@[k as int]@);
        assert(p[k as int] == prefix@[k as int]@);
        if !same_chars(&whole[k], &prefix[k]) {
            assert(w.take(count as int)[k as int] != p[k as int]);
            return false;
        }
        k += 1;
    }
    assert(w.take(count as int) =~= p);
    true
}

proof fn lemma_shared_count(paths: Seq<Seq<char>>, comps: Seq<Seq<char>>, k: int)
    requires
        0 <= k <= comps.len(),
        all_start_with(paths, comps.take(k)),
    ensures
        k <= shared_count(paths, comps, k) <= comps.len(),
        all_start_with(paths, comps.take(shared_count(paths, comps, k))),
        shared_count(paths, comps, k) < comps.len() ==> !all_start_with(
            paths,
            comps.take(shared_count(paths, comps, k) + 1),
        ),
    decreases comps.len() - k,
{
    if k < comps.len() && all_start_with(paths, comps.take(k + 1)) {
        lemma_shared_count(paths, comps, k + 1);
    }
}

/// The common prefix of some paths is made of leading components of the
/// first path that all the paths share, and of as many as they share: one
/// component more, if the first path has one, is not shared by all.
pub proof fn lemma_common_prefix(paths: Seq<Seq<char>>)
    requires
        paths.len() > 0,
    ensures
        ({
            let comps = components(paths[0]);
            let k = shared_count(paths, comps, 0);
            &&& 0 <= k <= comps.len()
            &&& common_prefix(paths) == joined(comps.take(k))
            &&& all_start_with(paths, comps.take(k))
            &&& k < comps.len() ==> !all_start_with(paths, comps.take(k + 1))
        }),
{
    let comps = components(paths[0]);
    assert forall|i: int| 0 <= i < paths.len() implies is_component_prefix(
        comps.take(0),
        components(#[trigger] paths[i]),
    ) by {
        assert(components(paths[i]).take(0) =~= comps.take(0));
    }
    lemma_shared_count(paths, comps, 0);
}

} // verus!
