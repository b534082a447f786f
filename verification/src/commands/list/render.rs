//! The text of the table: cells, header and rows.

use vstd::prelude::*;
use crate::commands::list::collect::CellKind;
use crate::commands::list::consumer::{
    consumer_after_all, items_of, lemma_mode_leaves_content, row_views, ConsumerView, EventView,
};
use crate::commands::list::row::{expects, item_expects, CellFlags, Row, RowView};
use crate::commands::list::order::{display_order, recency_order};
use crate::commands::list::layout::{
    calculate_responsive_layout, layout_of, total_width, Column, ColumnKind, Layout, LayoutView,
    SEPARATOR_WIDTH,
};
use crate::commands::list::{
    display_summary, summary_metrics, summary_text, ListItem, ListItemView, SummaryMetrics,
};
use crate::display::paths::{shortened, string_views};
use crate::display::truncate::{
    fit_count, fit_len, glyphs_fitting, is_wider, lemma_glyphs_fitting, lemma_truncated_glyphs,
    lemma_truncated_measured, truncate_glyphs, truncated, truncated_glyphs,
};
use crate::display::width::{
    glyph_chars, glyphs_width, lemma_glyphs_width_adds, lemma_glyphs_width_nonneg,
    lemma_glyphs_width_of_part, lemma_measured, lemma_measured_part, lemma_width_adds, measure,
    measured, text_of, text_width, Glyph,
};
use crate::display::{format_relative_time, relative_time, shorten_path};
use crate::git::LineDiff;
use crate::text::number::{decimal, push_decimal};
use crate::text::split::{lines, lines_of, views};
use crate::text::{append_chars, append_str, chars_of, slice_of, string_of};

verus! {

// ---------------------------------------------------------------------------
// Fitting a text into a column
// ---------------------------------------------------------------------------

/// `n` spaces.
pub open spec fn spaces(n: int) -> Seq<char> {
    Seq::new(
        if n >= 0 {
            n as nat
        } else {
            0
        },
        |i: int| ' ',
    )
}

/// `text` cut to at most `width` columns: truncated with an ellipsis where
/// there is room for one, else cut after the characters that fit.
pub open spec fn clipped(text: Seq<char>, width: int) -> Seq<char> {
    if width >= 3 || text_width(text) <= width {
        truncated(text, width)
    } else {
        text.take(fit_len(text, width))
    }
}

/// `text` in exactly `width` columns: cut if it is too wide, then filled up
/// with spaces on the right.
pub open spec fn fitted(text: Seq<char>, width: int) -> Seq<char> {
    clipped(text, width) + spaces(width - text_width(clipped(text, width)))
}

/// A space: one column wide.
pub open spec fn blank() -> Glyph {
    Glyph { ch: ' ', cols: 1 }
}

/// `n` spaces, as glyphs.
pub open spec fn blanks(n: int) -> Seq<Glyph> {
    Seq::new(
        if n >= 0 {
            n as nat
        } else {
            0
        },
        |i: int| blank(),
    )
}

/// The glyphs `g` cut to at most `width` columns, as [`clipped`] cuts a text.
pub open spec fn clipped_glyphs(g: Seq<Glyph>, width: int) -> Seq<Glyph> {
    if width >= 3 || glyphs_width(g) <= width {
        truncated_glyphs(g, width)
    } else {
        g.take(glyphs_fitting(g, width))
    }
}

/// The glyphs `g` in exactly `width` columns, as [`fitted`] fits a text.
pub open spec fn fitted_glyphs(g: Seq<Glyph>, width: int) -> Seq<Glyph> {
    clipped_glyphs(g, width) + blanks(width - glyphs_width(clipped_glyphs(g, width)))
}

/// `n` spaces are `n` columns wide.
pub proof fn lemma_blanks(n: int)
    requires
        n >= 0,
    ensures
        glyphs_width(blanks(n)) == n,
        blanks(n).len() == n,
        blanks(n) == measured(spaces(n)),
        glyph_chars(blanks(n)) == spaces(n),
    decreases n,
{
    if n > 0 {
        lemma_blanks(n - 1);
        assert(blanks(n).drop_last() =~= blanks(n - 1));
        assert(blanks(n).last() == blank());
    }
    assert(blanks(n) =~= measured(spaces(n)));
    assert(glyph_chars(blanks(n)) =~= spaces(n));
}

/// `n` spaces are `n` columns wide.
pub proof fn lemma_spaces_width(n: int)
    requires
        n >= 0,
    ensures
        text_width(spaces(n)) == n,
        spaces(n).len() == n,
{
    lemma_blanks(n);
}

/// Fitted glyphs take exactly the columns that they were fitted into.
pub proof fn lemma_fitted_glyphs(g: Seq<Glyph>, width: int)
    requires
        width >= 0,
    ensures
        0 <= glyphs_width(clipped_glyphs(g, width)) <= width,
        glyphs_width(fitted_glyphs(g, width)) == width,
{
    let c = clipped_glyphs(g, width);
    lemma_glyphs_width_nonneg(c);
    if width >= 3 || glyphs_width(g) <= width {
        lemma_truncated_glyphs(g, width);
    } else {
        lemma_glyphs_fitting(g, width);
    }
    lemma_blanks(width - glyphs_width(c));
    lemma_glyphs_width_adds(c, blanks(width - glyphs_width(c)));
}

/// Fitting the glyphs of a text gives the glyphs of the fitted text, which
/// takes exactly the columns that it was fitted into.
pub proof fn lemma_fitted_width(text: Seq<char>, width: int)
    requires
        width >= 0,
    ensures
        fitted_glyphs(measured(text), width) == measured(fitted(text, width)),
        glyph_chars(fitted_glyphs(measured(text), width)) == fitted(text, width),
        0 <= text_width(clipped(text, width)) <= width,
        text_width(fitted(text, width)) == width,
{
    let g = measured(text);
    lemma_fitted_glyphs(g, width);
    lemma_truncated_measured(text, width);
    lemma_measured(text, text);
    if !(width >= 3 || glyphs_width(g) <= width) {
        let n = glyphs_fitting(g, width);
        lemma_glyphs_fitting(g, width);
        lemma_measured_part(text, 0, n);
        assert(g.take(n) =~= g.subrange(0, n));
        assert(text.take(n) =~= text.subrange(0, n));
    }
    assert(clipped_glyphs(g, width) == measured(clipped(text, width)));
    let k = width - text_width(clipped(text, width));
    lemma_blanks(k);
    lemma_measured(clipped(text, width), spaces(k));
    lemma_measured(fitted(text, width), text);
}

/// Appends `n` spaces to `out`.
pub fn push_spaces(out: &mut Vec<char>, n: usize)
    ensures
        final(out)@ == old(out)@ + spaces(n as int),
{
    let mut k: usize = 0;
    assert(out@ =~= old(out)@ + spaces(0));
    while k < n
        invariant
            k <= n,
            out@ == old(out)@ + spaces(k as int),
        decreases n - k,
    {
        out.push(' ');
        k += 1;
        assert(out@ =~= old(out)@ + spaces(k as int));
    }
}

/// The columns that `g` takes, where they are known to be at most `bound`.
fn total_cols(g: &Vec<Glyph>, bound: usize) -> (w: usize)
    requires
        glyphs_width(g@) <= bound,
    ensures
        w == glyphs_width(g@),
{
    let mut w: usize = 0;
    let mut i: usize = 0;
    assert(g@.take(0) =~= Seq::<Glyph>::empty());
    while i < g.len()
        invariant
            i <= g.len(),
            w == glyphs_width(g@.take(i as int)),
            glyphs_width(g@) <= bound,
        decreases g.len() - i,
    {
        assert(g@.take(i + 1).drop_last() =~= g@.take(i as int));
        assert(g@.take(i + 1).last() == g@[i as int]);
        proof {
            assert(g@.take(i + 1) =~= g@.subrange(0, i + 1));
            lemma_glyphs_width_of_part(g@, 0, i + 1);
        }
        w = w + g[i].cols;
        i += 1;
    }
    assert(g@.take(g.len() as int) =~= g@);
    w
}

/// Fits `g` into exactly `width` columns: cuts it if it is too wide, then
/// fills it up with spaces on the right.
pub fn fit_glyphs(g: &Vec<Glyph>, width: usize) -> (r: Vec<Glyph>)
    ensures
        r@ == fitted_glyphs(g@, width as int),
        glyphs_width(r@) == width,
{
    proof {
        lemma_fitted_glyphs(g@, width as int);
    }
    let mut out: Vec<Glyph> = if width >= 3 || !is_wider(g, width) {
        truncate_glyphs(g, width)
    } else {
        let n = fit_count(g, width);
        let mut kept: Vec<Glyph> = Vec::new();
        let mut i: usize = 0;
        while i < n
            invariant
                i <= n <= g.len(),
                kept@ == g@.take(i as int),
            decreases n - i,
        {
            kept.push(g[i]);
            i += 1;
            assert(kept@ =~= g@.take(i as int));
        }
        kept
    };
    let ghost shown = out@;
    let used = total_cols(&out, width);
    let mut k: usize = 0;
    assert(out@ =~= shown + blanks(0));
    while k < width - used
        invariant
            k <= width - used,
            used <= width,
            out@ == shown + blanks(k as int),
        decreases width - used - k,
    {
        out.push(Glyph { ch: ' ', cols: 1 });
        k += 1;
        assert(out@ =~= shown + blanks(k as int));
    }
    out
}

/// Fits `text` into exactly `width` columns.
pub fn fit(text: &str, width: usize) -> (r: Vec<char>)
    ensures
        r@ == fitted(text@, width as int),
        text_width(r@) == width,
{
    proof {
        lemma_fitted_width(text@, width as int);
    }
    let glyphs = measure(text);
    let fitted = fit_glyphs(&glyphs, width);
    chars_of(text_of(&fitted).as_str())
}

// ---------------------------------------------------------------------------
// Cells
// ---------------------------------------------------------------------------

/// The heading of a column.
pub open spec fn header(kind: ColumnKind) -> Seq<char> {
    match kind {
        ColumnKind::Branch => "Branch"@,
        ColumnKind::Status => "Status"@,
        ColumnKind::WorkingDiff => "HEAD±"@,
        ColumnKind::AheadBehind => "main↕"@,
        ColumnKind::BranchDiff => "main…±"@,
        ColumnKind::CiStatus => "CI"@,
        ColumnKind::Message => "Message"@,
        ColumnKind::Time => "Age"@,
        ColumnKind::Path => "Path"@,
    }
}

/// The heading of a column.
pub fn header_of(kind: ColumnKind) -> (r: &'static str)
    ensures
        r@ == header(kind),
{
    match kind {
        ColumnKind::Branch => "Branch",
        ColumnKind::Status => "Status",
        ColumnKind::WorkingDiff => "HEAD±",
        ColumnKind::AheadBehind => "main↕",
        ColumnKind::BranchDiff => "main…±",
        ColumnKind::CiStatus => "CI",
        ColumnKind::Message => "Message",
        ColumnKind::Time => "Age",
        ColumnKind::Path => "Path",
    }
}

/// What stands in a cell whose value has not arrived yet. It differs from
/// every value, also from the empty one of a cell that arrived with nothing
/// to show.
pub open spec fn placeholder() -> Seq<char> {
    "·"@
}

/// Whether the row still waits for the cell `cell`.
pub open spec fn pending(row: RowView, cell: CellKind) -> bool {
    expects(row.item, cell) && !row.received.has_spec(cell)
}

/// Counts with arrows: so many ahead `↑`, so many behind `↓`; a count of zero
/// is left out.
pub open spec fn arrows(ahead: usize, behind: usize) -> Seq<char> {
    (if ahead > 0 {
        decimal(ahead as nat) + "↑"@
    } else {
        seq![]
    }) + (if behind > 0 {
        decimal(behind as nat) + "↓"@
    } else {
        seq![]
    })
}

/// Lines added and deleted, as `+a -d`; nothing where there are none.
pub open spec fn diff_text(diff: LineDiff) -> Seq<char> {
    if diff.added == 0 && diff.deleted == 0 {
        seq![]
    } else {
        "+"@ + decimal(diff.added as nat) + " -"@ + decimal(diff.deleted as nat)
    }
}

/// The first line of `s`; empty where `s` is.
pub open spec fn first_line(s: Seq<char>) -> Seq<char> {
    if lines(s).len() > 0 {
        lines(s)[0]
    } else {
        seq![]
    }
}

/// Two texts with a space between them, or the one that is not empty.
pub open spec fn spaced(a: Seq<char>, b: Seq<char>) -> Seq<char> {
    if a.len() == 0 {
        b
    } else if b.len() == 0 {
        a
    } else {
        a + " "@ + b
    }
}

/// The status cell: a mark for a merge that would conflict, then the symbols
/// of the working tree.
pub open spec fn status_text(item: ListItemView) -> Seq<char> {
    (if item.has_conflicts() {
        "✖"@
    } else {
        seq![]
    }) + match item {
        ListItemView::Worktree(wt) => wt.working_tree_symbols,
        ListItemView::Branch(_) => seq![],
    }
}

/// The text of the cell of `row` in the column `kind`, before it is fitted
/// into the column. `prefix` is the directory that paths are shown from and
/// `now` the time that ages are counted from.
pub open spec fn cell_text(row: RowView, kind: ColumnKind, prefix: Seq<char>, now: i64) -> Seq<char> {
    let item = row.item;
    match kind {
        ColumnKind::Branch => item.branch_name(),
        ColumnKind::Status => if pending(row, CellKind::WorkingTreeDiff) {
            placeholder()
        } else {
            status_text(item)
        },
        ColumnKind::WorkingDiff => if pending(row, CellKind::WorkingTreeDiff) {
            placeholder()
        } else {
            match item {
                ListItemView::Worktree(wt) => diff_text(wt.working_tree_diff),
                ListItemView::Branch(_) => seq![],
            }
        },
        ColumnKind::AheadBehind => if pending(row, CellKind::AheadBehind) {
            placeholder()
        } else {
            spaced(
                arrows(item.counts().ahead, item.counts().behind),
                arrows(item.upstream().ahead, item.upstream().behind),
            )
        },
        ColumnKind::BranchDiff => if pending(row, CellKind::BranchDiff) {
            placeholder()
        } else {
            diff_text(item.branch_diff().diff)
        },
        ColumnKind::CiStatus => if pending(row, CellKind::CiStatus) {
            placeholder()
        } else if item.pr_status() is Some {
            "●"@
        } else {
            seq![]
        },
        ColumnKind::Message => if pending(row, CellKind::CommitDetails) {
            placeholder()
        } else {
            first_line(item.commit().commit_message)
        },
        ColumnKind::Time => if pending(row, CellKind::CommitDetails) {
            placeholder()
        } else {
            relative_time(item.commit().timestamp as int, now as int)
        },
        ColumnKind::Path => match item {
            ListItemView::Worktree(wt) => shortened(wt.worktree.path, prefix),
            ListItemView::Branch(_) => seq![],
        },
    }
}

fn arrows_of(ahead: usize, behind: usize) -> (r: Vec<char>)
    ensures
        r@ == arrows(ahead, behind),
{
    let mut out: Vec<char> = Vec::new();
    if ahead > 0 {
        push_decimal(&mut out, ahead as u128);
        append_str(&mut out, "↑");
    }
    let ghost first = out@;
    if behind > 0 {
        push_decimal(&mut out, behind as u128);
        append_str(&mut out, "↓");
        assert(out@ =~= first + (decimal(behind as nat) + "↓"@));
    } else {
        assert(out@ =~= first + Seq::<char>::empty());
    }
    assert(first =~= if ahead > 0 {
        decimal(ahead as nat) + "↑"@
    } else {
        seq![]
    });
    out
}

fn diff_of(diff: &LineDiff) -> (r: Vec<char>)
    ensures
        r@ == diff_text(*diff),
{
    let mut out: Vec<char> = Vec::new();
    if !diff.is_empty() {
        append_str(&mut out, "+");
        push_decimal(&mut out, diff.added as u128);
        append_str(&mut out, " -");
        push_decimal(&mut out, diff.deleted as u128);
        assert(out@ =~= diff_text(*diff));
    }
    out
}

fn first_line_of(s: &str) -> (r: Vec<char>)
    ensures
        r@ == first_line(s@),
{
    let text = chars_of(s);
    let ls = lines_of(&text);
    if ls.len() > 0 {
        assert(views(ls@)[0] == ls@[0]@);
        let line = &ls[0];
        slice_of(line, 0, line.len())
    } else {
        Vec::new()
    }
}

fn spaced_of(a: Vec<char>, b: Vec<char>) -> (r: Vec<char>)
    ensures
        r@ == spaced(a@, b@),
{
    if a.len() == 0 {
        b
    } else if b.len() == 0 {
        a
    } else {
        let mut out = a;
        append_str(&mut out, " ");
        append_chars(&mut out, &b);
        out
    }
}

/// The text of the cell of `row` in the column `kind`, before it is fitted
/// into the column.
pub fn cell_text_of(
    item: &ListItem,
    received: &CellFlags,
    kind: ColumnKind,
    prefix: &str,
    now: i64,
) -> (r: String)
    ensures
        r@ == cell_text(RowView { item: item@, received: *received }, kind, prefix@, now),
{
    let waits_for = match kind {
        ColumnKind::Branch => None,
        ColumnKind::Status => Some(CellKind::WorkingTreeDiff),
        ColumnKind::WorkingDiff => Some(CellKind::WorkingTreeDiff),
        ColumnKind::AheadBehind => Some(CellKind::AheadBehind),
        ColumnKind::BranchDiff => Some(CellKind::BranchDiff),
        ColumnKind::CiStatus => Some(CellKind::CiStatus),
        ColumnKind::Message => Some(CellKind::CommitDetails),
        ColumnKind::Time => Some(CellKind::CommitDetails),
        ColumnKind::Path => None,
    };
    if let Some(cell) = waits_for {
        if item_expects(item, cell) && !received.has(cell) {
            return string_of(&chars_of("·"));
        }
    }
    let text: Vec<char> = match kind {
        ColumnKind::Branch => chars_of(item.branch_name()),
        ColumnKind::Status => {
            let mut out: Vec<char> = Vec::new();
            match item {
                ListItem::Worktree(wt) => {
                    if wt.has_conflicts {
                        append_str(&mut out, "✖");
                    }
                    let ghost mark = out@;
                    append_str(&mut out, wt.working_tree_symbols.as_str());
                    assert(out@ =~= status_text(item@));
                },
                ListItem::Branch(br) => {
                    if br.has_conflicts {
                        append_str(&mut out, "✖");
                    }
                    assert(out@ =~= status_text(item@));
                },
            }
            out
        },
        ColumnKind::WorkingDiff => match item {
            ListItem::Worktree(wt) => diff_of(&wt.working_tree_diff),
            ListItem::Branch(_) => Vec::new(),
        },
        ColumnKind::AheadBehind => {
            let counts = item.counts();
            let upstream = item.upstream();
            spaced_of(
                arrows_of(counts.ahead, counts.behind),
                arrows_of(upstream.ahead, upstream.behind),
            )
        },
        ColumnKind::BranchDiff => diff_of(&item.branch_diff().diff),
        ColumnKind::CiStatus => {
            let status = match item {
                ListItem::Worktree(wt) => wt.pr_status,
                ListItem::Branch(br) => br.pr_status,
            };
            match status {
                Some(_) => chars_of("●"),
                None => Vec::new(),
            }
        },
        ColumnKind::Message => first_line_of(item.commit_details().commit_message.as_str()),
        ColumnKind::Time => chars_of(format_relative_time(item.commit_timestamp(), now).as_str()),
        ColumnKind::Path => match item {
            ListItem::Worktree(wt) => chars_of(shorten_path(wt.worktree.path.as_str(), prefix).as_str()),
            ListItem::Branch(_) => Vec::new(),
        },
    };
    string_of(&text)
}

// ---------------------------------------------------------------------------
// Lines
// ---------------------------------------------------------------------------

/// The line that shows `texts` in the columns `cols`: each text fitted into
/// its column, with blank columns between neighbours.
pub open spec fn line_of(texts: Seq<Seq<char>>, cols: Seq<Column>) -> Seq<char>
    decreases cols.len(),
{
    if cols.len() == 0 {
        seq![]
    } else if cols.len() == 1 {
        fitted(texts[0], cols[0].width as int)
    } else {
        line_of(texts.drop_last(), cols.drop_last()) + spaces(SEPARATOR_WIDTH as int) + fitted(
            texts[cols.len() - 1],
            cols.last().width as int,
        )
    }
}

/// The headings of the columns `cols`.
pub open spec fn header_texts(cols: Seq<Column>) -> Seq<Seq<char>> {
    Seq::new(cols.len(), |i: int| header(cols[i].kind))
}

/// The cells of `row` in the columns `cols`.
pub open spec fn row_texts(row: RowView, cols: Seq<Column>, prefix: Seq<char>, now: i64) -> Seq<
    Seq<char>,
> {
    Seq::new(cols.len(), |i: int| cell_text(row, cols[i].kind, prefix, now))
}

/// The header line of the table.
pub open spec fn header_line(cols: Seq<Column>) -> Seq<char> {
    line_of(header_texts(cols), cols)
}

/// The line of the table for `row`.
pub open spec fn row_line(row: RowView, cols: Seq<Column>, prefix: Seq<char>, now: i64) -> Seq<char> {
    line_of(row_texts(row, cols, prefix, now), cols)
}

/// A line is exactly as wide as its layout: the widths of its columns and the
/// separators between them.
pub proof fn lemma_line_width(texts: Seq<Seq<char>>, cols: Seq<Column>)
    requires
        texts.len() == cols.len(),
    ensures
        text_width(line_of(texts, cols)) == total_width(cols),
    decreases cols.len(),
{
    if cols.len() == 1 {
        lemma_fitted_width(texts[0], cols[0].width as int);
        assert(cols.drop_last() =~= Seq::<Column>::empty());
        assert(crate::commands::list::layout::parts_sum(cols.drop_last()) == 0);
    } else if cols.len() > 1 {
        lemma_line_width(texts.drop_last(), cols.drop_last());
        let front = line_of(texts.drop_last(), cols.drop_last());
        let gap = spaces(SEPARATOR_WIDTH as int);
        let cell = fitted(texts[cols.len() - 1], cols.last().width as int);
        lemma_spaces_width(SEPARATOR_WIDTH as int);
        lemma_fitted_width(texts[cols.len() - 1], cols.last().width as int);
        lemma_width_adds(front, gap);
        lemma_width_adds(front + gap, cell);
    }
}

/// Formats the header line for the columns `cols`.
pub fn format_header_line(cols: &Vec<Column>) -> (line: String)
    ensures
        line@ == header_line(cols@),
        text_width(line@) == total_width(cols@),
{
    proof {
        lemma_line_width(header_texts(cols@), cols@);
    }
    let ghost texts = header_texts(cols@);
    let mut out: Vec<char> = Vec::new();
    let mut k: usize = 0;
    assert(cols@.take(0) =~= Seq::<Column>::empty());
    while k < cols.len()
        invariant
            k <= cols.len(),
            texts == header_texts(cols@),
            out@ == line_of(texts.take(k as int), cols@.take(k as int)),
        decreases cols.len() - k,
    {
        let ghost done = cols@.take(k as int);
        let ghost next = cols@.take(k + 1);
        assert(next.drop_last() =~= done);
        assert(texts.take(k + 1).drop_last() =~= texts.take(k as int));
        if k > 0 {
            push_spaces(&mut out, SEPARATOR_WIDTH);
        }
        let cell = fit(header_of(cols[k].kind), cols[k].width);
        append_chars(&mut out, &cell);
        assert(texts.take(k + 1)[k as int] == header(cols@[k as int].kind));
        assert(out@ =~= line_of(texts.take(k + 1), next));
        k += 1;
    }
    assert(cols@.take(cols.len() as int) =~= cols@);
    assert(texts.take(cols.len() as int) =~= texts);
    string_of(&out)
}

/// Formats the line of the table for `row`. `prefix` is the directory that
/// paths are shown from and `now` the time that ages are counted from.
pub fn format_list_item_line(row: &Row, cols: &Vec<Column>, prefix: &str, now: i64) -> (line: String)
    ensures
        line@ == row_line(row@, cols@, prefix@, now),
        text_width(line@) == total_width(cols@),
{
    proof {
        lemma_line_width(row_texts(row@, cols@, prefix@, now), cols@);
    }
    let ghost texts = row_texts(row@, cols@, prefix@, now);
    let mut out: Vec<char> = Vec::new();
    let mut k: usize = 0;
    assert(cols@.take(0) =~= Seq::<Column>::empty());
    while k < cols.len()
        invariant
            k <= cols.len(),
            texts == row_texts(row@, cols@, prefix@, now),
            out@ == line_of(texts.take(k as int), cols@.take(k as int)),
        decreases cols.len() - k,
    {
        let ghost done = cols@.take(k as int);
        let ghost next = cols@.take(k + 1);
        assert(next.drop_last() =~= done);
        assert(texts.take(k + 1).drop_last() =~= texts.take(k as int));
        if k > 0 {
            push_spaces(&mut out, SEPARATOR_WIDTH);
        }
        let text = cell_text_of(&row.item, &row.received, cols[k].kind, prefix, now);
        let cell = fit(text.as_str(), cols[k].width);
        append_chars(&mut out, &cell);
        assert(texts.take(k + 1)[k as int] == cell_text(row@, cols@[k as int].kind, prefix@, now));
        assert(out@ =~= line_of(texts.take(k + 1), next));
        k += 1;
    }
    assert(cols@.take(cols.len() as int) =~= cols@);
    assert(texts.take(cols.len() as int) =~= texts);
    string_of(&out)
}

// ---------------------------------------------------------------------------
// The table
// ---------------------------------------------------------------------------

/// The commit times of `rows`.
pub open spec fn timestamps(rows: Seq<RowView>) -> Seq<i64> {
    Seq::new(rows.len(), |i: int| rows[i].item.commit().timestamp)
}

/// The lines of the table: the header, then the rows, the most recent commit
/// first.
pub open spec fn table_lines(rows: Seq<RowView>, layout: LayoutView) -> Seq<Seq<char>> {
    seq![header_line(layout.columns)] + Seq::new(
        rows.len(),
        |k: int|
            row_line(
                rows[recency_order(timestamps(rows))[k] as int],
                layout.columns,
                layout.common_prefix,
                layout.now,
            ),
    )
}

/// What the listing prints for `rows` on a terminal of `terminal` columns at
/// the time `now`: the table, an empty line and the summary.
pub open spec fn listing(rows: Seq<RowView>, terminal: int, now: i64, show_branches: bool) -> Seq<
    Seq<char>,
> {
    table_lines(rows, layout_of(rows, terminal, now)) + seq![
        Seq::<char>::empty(),
        summary_text(summary_metrics(items_of(rows)), show_branches),
    ]
}

/// Renders the table for `rows` in `layout`. Every line is exactly as wide as
/// the layout.
pub fn render_table(rows: &Vec<Row>, layout: &Layout) -> (out: Vec<String>)
    ensures
        string_views(out@) == table_lines(row_views(rows@), layout@),
        forall|i: int|
            0 <= i < out.len() ==> text_width((#[trigger] out[i])@) == total_width(layout@.columns),
{
    let ghost rv = row_views(rows@);
    let ghost target = table_lines(rv, layout@);
    let mut ts: Vec<i64> = Vec::new();
    let mut i: usize = 0;
    while i < rows.len()
        invariant
            i <= rows.len(),
            rv == row_views(rows@),
            ts.len() == i,
            forall|k: int| 0 <= k < i ==> #[trigger] ts[k] == rv[k].item.commit().timestamp,
        decreases rows.len() - i,
    {
        assert(rv[i as int] == rows@[i as int]@);
        ts.push(rows[i].item.commit_timestamp());
        i += 1;
    }
    assert(ts@ =~= timestamps(rv));
    let order = display_order(&ts);
    let mut out: Vec<String> = Vec::new();
    out.push(format_header_line(&layout.columns));
    let mut k: usize = 0;
    while k < order.len()
        invariant
            k <= order.len(),
            order.len() == rows.len(),
            rv == row_views(rows@),
            order@ == recency_order(timestamps(rv)),
            forall|j: int| 0 <= j < order.len() ==> (#[trigger] order[j]) < rows.len(),
            target == table_lines(rv, layout@),
            out.len() == k + 1,
            forall|j: int| 0 <= j < out.len() ==> (#[trigger] out[j])@ == target[j],
            forall|j: int|
                0 <= j < out.len() ==> text_width((#[trigger] out[j])@) == total_width(
                    layout@.columns,
                ),
        decreases order.len() - k,
    {
        let idx = order[k];
        assert(rv[idx as int] == rows@[idx as int]@);
        let line = format_list_item_line(
            &rows[idx],
            &layout.columns,
            layout.common_prefix.as_str(),
            layout.now,
        );
        out.push(line);
        k += 1;
    }
    assert(string_views(out@) =~= target);
    out
}

/// Renders the whole listing for `rows`: the table laid out for a terminal of
/// `terminal_width` columns, an empty line and the summary. The output is the
/// same whether the rows were filled progressively or all at once: it depends
/// on the rows alone.
pub fn render_listing(rows: &Vec<Row>, terminal_width: usize, now: i64, show_branches: bool) -> (out:
    Vec<String>)
    ensures
        string_views(out@) == listing(row_views(rows@), terminal_width as int, now, show_branches),
{
    let layout = calculate_responsive_layout(rows, terminal_width, now);
    let mut out = render_table(rows, &layout);
    let ghost table = string_views(out@);
    let metrics = SummaryMetrics::of(rows);
    let blank = String::new();
    let summary = display_summary(&metrics, show_branches);
    out.push(blank);
    out.push(summary);
    assert(string_views(out@) =~= table + seq![blank@, summary@]);
    out
}

/// The final listing does not depend on the rendering mode: two consumers that
/// start from the same rows and receive the same events print the same listing
/// at the end, line for line, whether they render progressively or buffered.
pub proof fn lemma_listing_same_in_both_modes(
    a: ConsumerView,
    b: ConsumerView,
    events: Seq<EventView>,
    terminal: int,
    now: i64,
    show_branches: bool,
)
    requires
        a.rows == b.rows,
    ensures
        listing(consumer_after_all(a, events).rows, terminal, now, show_branches) == listing(
            consumer_after_all(b, events).rows,
            terminal,
            now,
            show_branches,
        ),
{
    lemma_mode_leaves_content(a, b, events);
}

} // verus!
