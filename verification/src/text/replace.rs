//! Substring search and replacement.

use vstd::prelude::*;
use crate::text::append_chars;
use crate::text::split::{matches_at, starts_with};

verus! {

/// Whether `pat` occurs somewhere in `s`.
pub open spec fn contains_text(s: Seq<char>, pat: Seq<char>) -> bool {
    exists|i: int| 0 <= i <= s.len() && starts_with(#[trigger] s.skip(i), pat)
}

/// Whether `pat` occurs somewhere in `v`.
pub fn contains_chars(v: &Vec<char>, pat: &Vec<char>) -> (r: bool)
    ensures
        r == contains_text(v@, pat@),
{
    let mut i: usize = 0;
    while i <= v.len()
        invariant
            i <= v.len() + 1,
            forall|j: int| 0 <= j < i ==> !starts_with(#[trigger] v@.skip(j), pat@),
        decreases v.len() + 1 - i,
    {
        if matches_at(v, i, pat) {
            return true;
        }
        if i == v.len() {
            return false;
        }
        i += 1;
    }
    false
}

/// `s` with every occurrence of `pat` replaced by `to`. Occurrences are found
/// from left to right and do not overlap. An empty `pat` occurs before every
/// character and at the end.
pub open spec fn replace_all(s: Seq<char>, pat: Seq<char>, to: Seq<char>) -> Seq<char>
    decreases s.len(),
{
    if s.len() == 0 {
        if pat.len() == 0 {
            to
        } else {
            s
        }
    } else if pat.len() == 0 {
        to + seq![s[0]] + replace_all(s.drop_first(), pat, to)
    } else if starts_with(s, pat) {
        to + replace_all(s.skip(pat.len() as int), pat, to)
    } else {
        seq![s[0]] + replace_all(s.drop_first(), pat, to)
    }
}

/// Replaces every occurrence of `pat` in `v` by `to`.
pub fn replace_chars(v: &Vec<char>, pat: &Vec<char>, to: &Vec<char>) -> (out: Vec<char>)
    ensures
        out@ == replace_all(v@, pat@, to@),
{
    let mut out: Vec<char> = Vec::new();
    let mut i: usize = 0;
    assert(v@.skip(0) =~= v@);
    assert(out@ + replace_all(v@, pat@, to@) =~= replace_all(v@, pat@, to@));
    while i < v.len()
        invariant
            i <= v.len(),
            replace_all(v@, pat@, to@) == out@ + replace_all(v@.skip(i as int), pat@, to@),
        decreases v.len() - i,
    {
        let ghost rest = v@.skip(i as int);
        let ghost before = out@;
        if pat.len() == 0 {
            append_chars(&mut out, to);
            out.push(v[i]);
            assert(rest.drop_first() =~= v@.skip(i + 1));
            assert(out@ + replace_all(v@.skip(i + 1), pat@, to@) =~= before + replace_all(
                rest,
                pat@,
                to@,
            ));
            i += 1;
        } else if matches_at(v, i, pat) {
            append_chars(&mut out, to);
            assert(rest.skip(pat.len() as int) =~= v@.skip(i + pat.len()));
            assert(out@ + replace_all(v@.skip(i + pat.len()), pat@, to@) =~= before + replace_all(
                rest,
                pat@,
                to@,
            ));
            i += pat.len();
        } else {
            out.push(v[i]);
            assert(rest.drop_first() =~= v@.skip(i + 1));
            assert(out@ + replace_all(v@.skip(i + 1), pat@, to@) =~= before + replace_all(
                rest,
                pat@,
                to@,
            ));
            i += 1;
        }
    }
    assert(v@.skip(i as int) =~= Seq::<char>::empty());
    if pat.len() == 0 {
        append_chars(&mut out, to);
    } else {
        assert(out@ + Seq::<char>::empty() =~= out@);
    }
    out
}

} // verus!
