//! Cutting text to a width.
//!
//! The cutting itself works on glyphs and knows nothing of where their widths
//! come from.

use vstd::prelude::*;
use crate::display::width::{
    glyph_chars, glyphs_width, lemma_glyphs_width_adds, lemma_glyphs_width_nonneg,
    lemma_glyphs_width_of_one, lemma_glyphs_width_of_part, lemma_measured, lemma_measured_part,
    lemma_trim_bounds, measured, text_width, trim_from, trim_to, Glyph,
};
use crate::text::split::ends_with;
use crate::text::{char_is_whitespace, is_whitespace, trim, trim_end, trim_start};

verus! {

// ---------------------------------------------------------------------------
// What truncation gives
// ---------------------------------------------------------------------------

/// How many leading glyphs of `g` fit into `budget` columns.
pub open spec fn glyphs_fitting(g: Seq<Glyph>, budget: int) -> int
    decreases g.len(),
{
    if g.len() == 0 || g.first().cols > budget {
        0
    } else {
        1 + glyphs_fitting(g.drop_first(), budget - g.first().cols)
    }
}

/// How many leading characters of `s` fit into `budget` columns.
pub open spec fn fit_len(s: Seq<char>, budget: int) -> int {
    glyphs_fitting(measured(s), budget)
}

/// Position of the last whitespace character of `s`, if it has one.
pub open spec fn last_whitespace(s: Seq<char>) -> Option<int>
    decreases s.len(),
{
    if s.len() == 0 {
        None
    } else if is_whitespace(s.last()) {
        Some(s.len() - 1)
    } else {
        last_whitespace(s.drop_last())
    }
}

/// The columns left for text once the ellipsis has its three.
pub open spec fn ellipsis_budget(max_width: int) -> int {
    if max_width >= 3 {
        max_width - 3
    } else {
        0
    }
}

/// The leading characters of `text` that are kept before trimming: as many as
/// `fitting`, cut back to before the last whitespace among them if there is
/// any.
pub open spec fn cut_point(text: Seq<char>, fitting: int) -> int {
    match last_whitespace(text.take(fitting)) {
        Some(i) => i,
        None => fitting,
    }
}

/// `text` cut to `max_width` columns. A text that fits is left as it is. A
/// longer one keeps as many leading characters as fit beside an ellipsis of
/// three dots, is cut back to before the last whitespace among them if there
/// is any, loses surrounding whitespace and gets the ellipsis.
pub open spec fn truncated(text: Seq<char>, max_width: int) -> Seq<char> {
    if text_width(text) <= max_width {
        text
    } else {
        trim(text.take(cut_point(text, fit_len(text, ellipsis_budget(max_width))))) + "..."@
    }
}

/// A dot of the ellipsis: one column wide.
pub open spec fn dot() -> Glyph {
    Glyph { ch: '.', cols: 1 }
}

/// The ellipsis.
pub open spec fn ellipsis() -> Seq<Glyph> {
    seq![dot(), dot(), dot()]
}

/// The glyphs `g` cut to `max_width` columns, as [`truncated`] cuts a text.
pub open spec fn truncated_glyphs(g: Seq<Glyph>, max_width: int) -> Seq<Glyph> {
    if glyphs_width(g) <= max_width {
        g
    } else {
        let text = glyph_chars(g);
        let kept = text.take(cut_point(text, glyphs_fitting(g, ellipsis_budget(max_width))));
        g.subrange(trim_from(kept), trim_to(kept)) + ellipsis()
    }
}

// ---------------------------------------------------------------------------
// Laws
// ---------------------------------------------------------------------------

/// The glyphs that fit are a prefix within the budget.
pub proof fn lemma_glyphs_fitting(g: Seq<Glyph>, budget: int)
    requires
        budget >= 0,
    ensures
        0 <= glyphs_fitting(g, budget) <= g.len(),
        glyphs_width(g.take(glyphs_fitting(g, budget))) <= budget,
    decreases g.len(),
{
    if g.len() == 0 || g.first().cols > budget {
        assert(g.take(0) =~= Seq::<Glyph>::empty());
    } else {
        let rest = g.drop_first();
        let b = budget - g.first().cols;
        lemma_glyphs_fitting(rest, b);
        let n = glyphs_fitting(rest, b);
        assert(g.take(n + 1) =~= seq![g.first()] + rest.take(n));
        lemma_glyphs_width_adds(seq![g.first()], rest.take(n));
        lemma_glyphs_width_of_one(g.first());
    }
}

pub proof fn lemma_last_whitespace(s: Seq<char>)
    ensures
        match last_whitespace(s) {
            Some(i) => 0 <= i < s.len(),
            None => true,
        },
    decreases s.len(),
{
    if s.len() > 0 && !is_whitespace(s.last()) {
        lemma_last_whitespace(s.drop_last());
    }
}

/// The ellipsis is three dots, three columns wide.
pub proof fn lemma_ellipsis()
    ensures
        glyphs_width(ellipsis()) == 3,
        glyph_chars(ellipsis()) == "..."@,
        ellipsis() == measured("..."@),
        text_width("..."@) == 3,
{
    reveal_strlit("...");
    let e = ellipsis();
    assert(e =~= seq![dot()] + seq![dot()] + seq![dot()]);
    lemma_glyphs_width_of_one(dot());
    lemma_glyphs_width_adds(seq![dot()], seq![dot()]);
    lemma_glyphs_width_adds(seq![dot()] + seq![dot()], seq![dot()]);
    assert(glyph_chars(e) =~= "..."@);
    assert(e =~= measured("..."@));
}

/// Glyphs that fit are returned unchanged. Glyphs that do not fit come back
/// with the ellipsis at their end and, where the limit leaves room for the
/// ellipsis at all, within the limit.
pub proof fn lemma_truncated_glyphs(g: Seq<Glyph>, max_width: int)
    ensures
        glyphs_width(g) <= max_width ==> truncated_glyphs(g, max_width) == g,
        glyphs_width(g) > max_width ==> {
            let t = truncated_glyphs(g, max_width);
            &&& t.len() >= 3
            &&& t.subrange(t.len() - 3, t.len() as int) == ellipsis()
            &&& glyphs_width(t) <= ellipsis_budget(max_width) + 3
        },
        glyphs_width(truncated_glyphs(g, max_width)) >= 0,
{
    lemma_glyphs_width_nonneg(truncated_glyphs(g, max_width));
    if glyphs_width(g) > max_width {
        let budget = ellipsis_budget(max_width);
        let text = glyph_chars(g);
        lemma_glyphs_fitting(g, budget);
        let fitting = glyphs_fitting(g, budget);
        lemma_last_whitespace(text.take(fitting));
        let cut = cut_point(text, fitting);
        let kept = text.take(cut);
        lemma_trim_bounds(kept);
        let part = g.subrange(trim_from(kept), trim_to(kept));
        assert(part =~= g.take(fitting).subrange(trim_from(kept), trim_to(kept)));
        lemma_glyphs_width_of_part(g.take(fitting), trim_from(kept), trim_to(kept));
        lemma_ellipsis();
        lemma_glyphs_width_adds(part, ellipsis());
        let t = part + ellipsis();
        assert(t.subrange(t.len() - 3, t.len() as int) =~= ellipsis());
    }
}

/// Cutting the glyphs of a text gives the glyphs of the cut text.
pub proof fn lemma_truncated_measured(text: Seq<char>, max_width: int)
    ensures
        truncated_glyphs(measured(text), max_width) == measured(truncated(text, max_width)),
        glyph_chars(truncated_glyphs(measured(text), max_width)) == truncated(text, max_width),
{
    let g = measured(text);
    lemma_measured(text, text);
    if glyphs_width(g) > max_width {
        let budget = ellipsis_budget(max_width);
        lemma_glyphs_fitting(g, budget);
        let fitting = glyphs_fitting(g, budget);
        lemma_last_whitespace(text.take(fitting));
        let cut = cut_point(text, fitting);
        let kept = text.take(cut);
        lemma_trim_bounds(kept);
        let a = trim_from(kept);
        let b = trim_to(kept);
        assert(kept.subrange(a, b) =~= text.subrange(a, b));
        lemma_measured_part(text, a, b);
        lemma_ellipsis();
        lemma_measured(trim(kept), "..."@);
    }
    lemma_measured(truncated(text, max_width), text);
}

/// A text that fits is returned unchanged. A text that does not fit comes back
/// with an ellipsis at its end and, where the limit leaves room for the
/// ellipsis at all, within the limit.
pub proof fn lemma_truncated(text: Seq<char>, max_width: int)
    ensures
        text_width(text) <= max_width ==> truncated(text, max_width) == text,
        text_width(text) > max_width ==> ends_with(truncated(text, max_width), "..."@),
        text_width(text) > max_width && max_width >= 3 ==> text_width(truncated(text, max_width))
            <= max_width,
        text_width(text) > max_width ==> text_width(truncated(text, max_width)) <= ellipsis_budget(
            max_width,
        ) + 3,
        text_width(truncated(text, max_width)) >= 0,
{
    lemma_truncated_measured(text, max_width);
    lemma_truncated_glyphs(measured(text), max_width);
    if text_width(text) > max_width {
        lemma_ellipsis();
        let r = truncated(text, max_width);
        assert(r.skip(r.len() - 3) =~= "..."@);
    }
}

// ---------------------------------------------------------------------------
// Truncating
// ---------------------------------------------------------------------------

/// Counts the leading glyphs of `g` that fit into `budget` columns.
pub fn fit_count(g: &Vec<Glyph>, budget: usize) -> (n: usize)
    ensures
        n == glyphs_fitting(g@, budget as int),
        n <= g.len(),
        glyphs_width(g@.take(n as int)) <= budget,
{
    proof {
        lemma_glyphs_fitting(g@, budget as int);
    }
    let mut left: usize = budget;
    let mut i: usize = 0;
    assert(g@.skip(0) =~= g@);
    loop
        invariant_except_break
            i <= g.len(),
            left <= budget,
            glyphs_fitting(g@, budget as int) == i + glyphs_fitting(g@.skip(i as int), left as int),
        ensures
            glyphs_fitting(g@, budget as int) == i,
        decreases g.len() - i,
    {
        if i == g.len() {
            break ;
        }
        let w = g[i].cols;
        assert(g@.skip(i as int).first() == g@[i as int]);
        if w > left {
            break ;
        }
        assert(g@.skip(i as int).drop_first() =~= g@.skip(i + 1));
        left = left - w;
        i = i + 1;
    }
    i
}

/// Whether `g` is wider than `max_width` columns.
pub fn is_wider(g: &Vec<Glyph>, max_width: usize) -> (r: bool)
    ensures
        r == (glyphs_width(g@) > max_width),
{
    let mut left: usize = max_width;
    let mut i: usize = 0;
    assert(g@.take(0) =~= Seq::<Glyph>::empty());
    while i < g.len()
        invariant
            i <= g.len(),
            left <= max_width,
            glyphs_width(g@.take(i as int)) + left == max_width,
        decreases g.len() - i,
    {
        let w = g[i].cols;
        assert(g@.take(i + 1).drop_last() =~= g@.take(i as int));
        assert(g@.take(i + 1).last() == g@[i as int]);
        if w > left {
            proof {
                assert(g@.take(i + 1) =~= g@.subrange(0, i + 1));
                lemma_glyphs_width_of_part(g@, 0, i + 1);
            }
            return true;
        }
        left = left - w;
        i += 1;
    }
    assert(g@.take(g.len() as int) =~= g@);
    false
}

/// Finds the last whitespace character among the first `end` glyphs of `g`.
pub fn find_last_whitespace(g: &Vec<Glyph>, end: usize) -> (r: Option<usize>)
    requires
        end <= g.len(),
    ensures
        match r {
            Some(k) => k < end && last_whitespace(glyph_chars(g@).take(end as int)) == Some(
                k as int,
            ),
            None => last_whitespace(glyph_chars(g@).take(end as int)) is None,
        },
{
    let ghost text = glyph_chars(g@);
    let mut j: usize = end;
    while j > 0
        invariant
            j <= end <= g.len(),
            text == glyph_chars(g@),
            last_whitespace(text.take(end as int)) == last_whitespace(text.take(j as int)),
        decreases j,
    {
        assert(text.take(j as int).last() == g@[j - 1].ch);
        assert(text.take(j as int).drop_last() =~= text.take(j - 1));
        if char_is_whitespace(g[j - 1].ch) {
            return Some(j - 1);
        }
        j -= 1;
    }
    None
}

/// Where the whitespace in front of the first `end` glyphs of `g` ends and
/// where the whitespace at their end begins.
fn trim_range(g: &Vec<Glyph>, end: usize) -> (r: (usize, usize))
    requires
        end <= g.len(),
    ensures
        r.0 == trim_from(glyph_chars(g@).take(end as int)),
        r.1 == trim_to(glyph_chars(g@).take(end as int)),
        r.0 <= r.1 <= end,
{
    let ghost kept = glyph_chars(g@).take(end as int);
    let mut from: usize = 0;
    assert(kept.skip(0) =~= kept);
    while from < end && char_is_whitespace(g[from].ch)
        invariant
            from <= end <= g.len(),
            kept == glyph_chars(g@).take(end as int),
            trim_start(kept) == trim_start(kept.skip(from as int)),
        decreases end - from,
    {
        assert(kept.skip(from as int).first() == g@[from as int].ch);
        assert(kept.skip(from as int).drop_first() =~= kept.skip(from + 1));
        from += 1;
    }
    proof {
        if from < end {
            assert(kept.skip(from as int).first() == g@[from as int].ch);
        }
        assert(trim_start(kept) == kept.skip(from as int));
    }
    let ghost rest = kept.skip(from as int);
    let mut to: usize = end;
    assert(rest.take(end - from) =~= rest);
    while to > from && char_is_whitespace(g[to - 1].ch)
        invariant
            from <= to <= end <= g.len(),
            kept == glyph_chars(g@).take(end as int),
            rest == kept.skip(from as int),
            trim_end(rest) == trim_end(rest.take(to - from)),
        decreases to - from,
    {
        assert(rest.take(to - from).last() == g@[to - 1].ch);
        assert(rest.take(to - from).drop_last() =~= rest.take(to - from - 1));
        to -= 1;
    }
    proof {
        if to > from {
            assert(rest.take(to - from).last() == g@[to - 1].ch);
        }
        assert(trim_end(rest) == rest.take(to - from));
    }
    (from, to)
}

/// Truncates `g` to `max_width` columns, at a word boundary where there is
/// one, and marks the cut with an ellipsis.
pub fn truncate_glyphs(g: &Vec<Glyph>, max_width: usize) -> (t: Vec<Glyph>)
    ensures
        t@ == truncated_glyphs(g@, max_width as int),
        glyphs_width(g@) <= max_width ==> t@ == g@,
        glyphs_width(g@) > max_width && max_width >= 3 ==> glyphs_width(t@) <= max_width,
{
    proof {
        lemma_truncated_glyphs(g@, max_width as int);
    }
    let mut out: Vec<Glyph> = Vec::new();
    if !is_wider(g, max_width) {
        let mut i: usize = 0;
        while i < g.len()
            invariant
                i <= g.len(),
                out@ == g@.take(i as int),
            decreases g.len() - i,
        {
            out.push(g[i]);
            i += 1;
            assert(out@ =~= g@.take(i as int));
        }
        assert(g@.take(g.len() as int) =~= g@);
        return out;
    }
    let budget: usize = if max_width >= 3 {
        max_width - 3
    } else {
        0
    };
    let fitting = fit_count(g, budget);
    let cut: usize = match find_last_whitespace(g, fitting) {
        Some(k) => k,
        None => fitting,
    };
    let (from, to) = trim_range(g, cut);
    let mut i: usize = from;
    while i < to
        invariant
            from <= i <= to <= g.len(),
            out@ == g@.subrange(from as int, i as int),
        decreases to - i,
    {
        out.push(g[i]);
        i += 1;
        assert(out@ =~= g@.subrange(from as int, i as int));
    }
    out.push(Glyph { ch: '.', cols: 1 });
    out.push(Glyph { ch: '.', cols: 1 });
    out.push(Glyph { ch: '.', cols: 1 });
    assert(out@ =~= g@.subrange(from as int, to as int) + ellipsis());
    out
}

} // verus!
