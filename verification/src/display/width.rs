//! The width of text in terminal columns.
//!
//! How wide a character is comes from the Unicode width tables. Everything
//! after that works on glyphs: characters paired with their widths.

use vstd::prelude::*;
use unicode_width::{UnicodeWidthChar, UnicodeWidthStr};
use crate::text::{chars_of, is_whitespace, string_of, trim, trim_end, trim_start};

verus! {

/// What `UnicodeWidthChar::width` of the crate `unicode-width` returns for `c`:
/// the number of terminal columns that `c` takes by the Unicode width tables,
/// or `None` for a control character.
pub uninterp spec fn char_display_width(c: char) -> Option<usize>;

/// Whether `c` is a printable ASCII character, from the space to the tilde.
pub open spec fn is_printable_ascii(c: char) -> bool {
    ' ' <= c && c <= '~'
}

/// The columns that `c` takes in a line: one for printable ASCII, none for a
/// control character, else what the width tables say.
pub open spec fn char_cols(c: char) -> int {
    if is_printable_ascii(c) {
        1
    } else {
        match char_display_width(c) {
            Some(w) => w as int,
            None => 0,
        }
    }
}

/// A character and the number of columns it takes.
#[derive(Debug, Clone, Copy, PartialEq, Eq, Structural)]
pub struct Glyph {
    pub ch: char,
    pub cols: usize,
}

/// The glyph of a character.
pub open spec fn glyph_of(c: char) -> Glyph {
    Glyph { ch: c, cols: char_cols(c) as usize }
}

/// The glyphs of a text.
pub open spec fn measured(s: Seq<char>) -> Seq<Glyph> {
    Seq::new(s.len(), |i: int| glyph_of(s[i]))
}

/// The characters of a run of glyphs.
pub open spec fn glyph_chars(g: Seq<Glyph>) -> Seq<char> {
    Seq::new(g.len(), |i: int| g[i].ch)
}

/// The columns that a run of glyphs takes: the sum over its glyphs.
pub open spec fn glyphs_width(g: Seq<Glyph>) -> int
    decreases g.len(),
{
    if g.len() == 0 {
        0
    } else {
        glyphs_width(g.drop_last()) + g.last().cols
    }
}

/// The columns that `s` takes: the sum over its characters.
pub open spec fn text_width(s: Seq<char>) -> int {
    glyphs_width(measured(s))
}

/// Calls `UnicodeWidthChar::width` of the crate `unicode-width`. The result is
/// the named width of `c`; it is `Some(1)` for printable ASCII and never more
/// than two columns.
#[verifier::external_body]
fn char_width(c: char) -> (w: Option<usize>)
    ensures
        w == char_display_width(c),
        is_printable_ascii(c) ==> w == Some(1usize),
        w matches Some(n) ==> n <= 2,
{
    UnicodeWidthChar::width(c)
}

/// Calls `UnicodeWidthStr::width` of the crate `unicode-width`, which adds up
/// the widths of the characters of `s`, a control character counting as zero.
#[verifier::external_body]
fn str_width(s: &str) -> (w: usize)
    ensures
        w == text_width(s@),
{
    UnicodeWidthStr::width(s)
}

/// The columns that `c` takes in a line.
pub fn cols_of(c: char) -> (w: usize)
    ensures
        w == char_cols(c),
        w <= 2,
{
    match char_width(c) {
        Some(w) => w,
        None => 0,
    }
}

/// The columns that `text` takes on a terminal.
pub fn display_width(text: &str) -> (w: usize)
    ensures
        w == text_width(text@),
{
    str_width(text)
}

/// Pairs `c` with its width.
pub fn glyph(c: char) -> (g: Glyph)
    ensures
        g == glyph_of(c),
{
    Glyph { ch: c, cols: cols_of(c) }
}

/// Pairs each character of `text` with its width.
pub fn measure(text: &str) -> (g: Vec<Glyph>)
    ensures
        g@ == measured(text@),
{
    let chars = chars_of(text);
    let mut out: Vec<Glyph> = Vec::new();
    let mut i: usize = 0;
    while i < chars.len()
        invariant
            i <= chars.len(),
            out.len() == i,
            forall|k: int| 0 <= k < i ==> out[k] == glyph_of(chars[k]),
        decreases chars.len() - i,
    {
        out.push(glyph(chars[i]));
        i += 1;
    }
    assert(out@ =~= measured(chars@));
    out
}

/// The text of a run of glyphs.
pub fn text_of(g: &Vec<Glyph>) -> (s: String)
    ensures
        s@ == glyph_chars(g@),
{
    let mut chars: Vec<char> = Vec::new();
    let mut i: usize = 0;
    while i < g.len()
        invariant
            i <= g.len(),
            chars.len() == i,
            forall|k: int| 0 <= k < i ==> chars[k] == g[k].ch,
        decreases g.len() - i,
    {
        chars.push(g[i].ch);
        i += 1;
    }
    assert(chars@ =~= glyph_chars(g@));
    string_of(&chars)
}

/// The width of a run of glyphs is the sum of the widths of its parts, and
/// never negative.
pub proof fn lemma_glyphs_width_adds(a: Seq<Glyph>, b: Seq<Glyph>)
    ensures
        glyphs_width(a + b) == glyphs_width(a) + glyphs_width(b),
        glyphs_width(a) >= 0,
        glyphs_width(b) >= 0,
    decreases b.len(),
{
    lemma_glyphs_width_nonneg(a);
    lemma_glyphs_width_nonneg(b);
    if b.len() == 0 {
        assert(a + b =~= a);
    } else {
        assert((a + b).drop_last() =~= a + b.drop_last());
        assert((a + b).last() == b.last());
        lemma_glyphs_width_adds(a, b.drop_last());
    }
}

/// No run of glyphs has a negative width.
pub proof fn lemma_glyphs_width_nonneg(g: Seq<Glyph>)
    ensures
        glyphs_width(g) >= 0,
    decreases g.len(),
{
    if g.len() > 0 {
        lemma_glyphs_width_nonneg(g.drop_last());
    }
}

/// A single glyph is as wide as its columns.
pub proof fn lemma_glyphs_width_of_one(x: Glyph)
    ensures
        glyphs_width(seq![x]) == x.cols,
{
    let one = seq![x];
    assert(one.drop_last() =~= Seq::<Glyph>::empty());
    assert(glyphs_width(one.drop_last()) == 0);
    assert(one.last() == x);
}

/// A part of a run of glyphs is no wider than the run.
pub proof fn lemma_glyphs_width_of_part(g: Seq<Glyph>, from: int, to: int)
    requires
        0 <= from <= to <= g.len(),
    ensures
        0 <= glyphs_width(g.subrange(from, to)) <= glyphs_width(g),
{
    let a = g.subrange(0, from);
    let m = g.subrange(from, to);
    let b = g.subrange(to, g.len() as int);
    assert(g =~= (a + m) + b);
    lemma_glyphs_width_adds(a + m, b);
    lemma_glyphs_width_adds(a, m);
}

/// Measuring a text and reading the glyphs back gives the text; measuring
/// goes part by part.
pub proof fn lemma_measured(a: Seq<char>, b: Seq<char>)
    ensures
        glyph_chars(measured(a)) == a,
        measured(a + b) == measured(a) + measured(b),
        measured(a).len() == a.len(),
{
    assert(glyph_chars(measured(a)) =~= a);
    assert(measured(a + b) =~= measured(a) + measured(b));
}

/// A part of a measured text is the measured part.
pub proof fn lemma_measured_part(s: Seq<char>, from: int, to: int)
    requires
        0 <= from <= to <= s.len(),
    ensures
        measured(s).subrange(from, to) == measured(s.subrange(from, to)),
{
    assert(measured(s).subrange(from, to) =~= measured(s.subrange(from, to)));
}

/// The width of a text is the sum of the widths of its parts, and never
/// negative.
pub proof fn lemma_width_adds(a: Seq<char>, b: Seq<char>)
    ensures
        text_width(a + b) == text_width(a) + text_width(b),
        text_width(a) >= 0,
        text_width(b) >= 0,
{
    lemma_measured(a, b);
    lemma_glyphs_width_adds(measured(a), measured(b));
}

/// Where the whitespace in front of `s` ends.
pub open spec fn trim_from(s: Seq<char>) -> int {
    s.len() - trim_start(s).len()
}

/// Where the whitespace at the end of `s` begins.
pub open spec fn trim_to(s: Seq<char>) -> int {
    trim_from(s) + trim(s).len()
}

/// Trimming cuts a text down to the part between its two runs of whitespace.
pub proof fn lemma_trim_bounds(s: Seq<char>)
    ensures
        0 <= trim_from(s) <= trim_to(s) <= s.len(),
        trim_start(s) == s.subrange(trim_from(s), s.len() as int),
        trim(s) == s.subrange(trim_from(s), trim_to(s)),
{
    lemma_trim_start_part(s);
    let t = trim_start(s);
    lemma_trim_end_part(t);
    let k = choose|k: int| 0 <= k <= s.len() && t == s.subrange(k, s.len() as int);
    let m = choose|m: int| 0 <= m <= t.len() && trim_end(t) == t.subrange(0, m);
    assert(t.subrange(0, m) =~= s.subrange(k, k + m));
}

proof fn lemma_trim_start_part(s: Seq<char>)
    ensures
        exists|k: int| 0 <= k <= s.len() && trim_start(s) == s.subrange(k, s.len() as int),
    decreases s.len(),
{
    if s.len() > 0 && is_whitespace(s.first()) {
        let t = s.drop_first();
        lemma_trim_start_part(t);
        let k = choose|k: int| 0 <= k <= t.len() && trim_start(t) == t.subrange(k, t.len() as int);
        assert(t.subrange(k, t.len() as int) =~= s.subrange(k + 1, s.len() as int));
    } else {
        assert(s =~= s.subrange(0, s.len() as int));
    }
}

proof fn lemma_trim_end_part(s: Seq<char>)
    ensures
        exists|m: int| 0 <= m <= s.len() && trim_end(s) == s.subrange(0, m),
    decreases s.len(),
{
    if s.len() > 0 && is_whitespace(s.last()) {
        let t = s.drop_last();
        lemma_trim_end_part(t);
        let m = choose|m: int| 0 <= m <= t.len() && trim_end(t) == t.subrange(0, m);
        assert(t.subrange(0, m) =~= s.subrange(0, m));
    } else {
        assert(s =~= s.subrange(0, s.len() as int));
    }
}

} // verus!
