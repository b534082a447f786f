//! The responsive layout: which columns are shown at a given terminal width,
//! and how wide each is.
//!
//! The columns stand in a fixed order, which is also their order of
//! importance: branch, status, working-tree diff, ahead/behind, branch diff,
//! CI, message, age, path. All are shown at their natural width where the
//! terminal is wide enough. Where it is not, the message is shortened first,
//! down to a few columns. Then the two optional columns are hidden, CI before
//! the branch diff, and after them the other columns from the least important
//! up, until the rest fits. The branch column is never hidden.

use vstd::prelude::*;
use crate::commands::list::consumer::{items_of, row_views};
use crate::commands::list::row::{CellFlags, Row, RowView};
use crate::commands::list::render::{cell_text, cell_text_of, header, header_of};
use crate::commands::list::{ListItem, ListItemView};
use crate::display::find_common_prefix;
use crate::display::paths::{common_prefix, string_views};
use crate::display::width::{display_width, text_width};

verus! {

/// The columns of the table, in the order in which they are shown.
#[derive(Debug, Clone, Copy, PartialEq, Eq, Structural)]
pub enum ColumnKind {
    Branch,
    Status,
    WorkingDiff,
    AheadBehind,
    BranchDiff,
    CiStatus,
    Message,
    Time,
    Path,
}

/// A column that is shown, with its width in terminal columns.
#[derive(Debug, Clone, Copy, PartialEq, Eq, Structural)]
pub struct Column {
    pub kind: ColumnKind,
    pub width: usize,
}

/// The widths that the content-driven columns would like to have: each is as
/// wide as its header and its widest cell, the message at most
/// [`MAX_MESSAGE_WIDTH`].
#[derive(Debug, Clone, Copy, PartialEq, Eq, Structural)]
pub struct NaturalWidths {
    pub branch: usize,
    pub message: usize,
    pub time: usize,
    pub path: usize,
}

/// Blank columns between two neighbouring columns.
pub const SEPARATOR_WIDTH: usize = 2;

pub const STATUS_WIDTH: usize = 6;

pub const WORKING_DIFF_WIDTH: usize = 7;

pub const AHEAD_BEHIND_WIDTH: usize = 8;

pub const BRANCH_DIFF_WIDTH: usize = 7;

pub const CI_WIDTH: usize = 2;

/// The message column is not shortened below this width.
pub const MIN_MESSAGE_WIDTH: usize = 5;

/// The message column is never wider than this.
pub const MAX_MESSAGE_WIDTH: usize = 50;

/// The width of a column when nothing is short. Columns of symbols and of
/// numbers have a fixed width.
pub open spec fn natural_width(kind: ColumnKind, w: NaturalWidths) -> int {
    match kind {
        ColumnKind::Branch => w.branch as int,
        ColumnKind::Status => STATUS_WIDTH as int,
        ColumnKind::WorkingDiff => WORKING_DIFF_WIDTH as int,
        ColumnKind::AheadBehind => AHEAD_BEHIND_WIDTH as int,
        ColumnKind::BranchDiff => BRANCH_DIFF_WIDTH as int,
        ColumnKind::CiStatus => CI_WIDTH as int,
        ColumnKind::Message => w.message as int,
        ColumnKind::Time => w.time as int,
        ColumnKind::Path => w.path as int,
    }
}

/// The least width at which a column is still shown. Only the message can be
/// narrower than its natural width.
pub open spec fn least_width(kind: ColumnKind, w: NaturalWidths) -> int {
    if kind == ColumnKind::Message && w.message > MIN_MESSAGE_WIDTH {
        MIN_MESSAGE_WIDTH as int
    } else {
        natural_width(kind, w)
    }
}

/// The place of a column in the order of hiding: CI goes first, then the
/// branch diff, then path, age, message, ahead/behind, working-tree diff and
/// status. The branch column comes last and is never reached.
pub open spec fn drop_rank(kind: ColumnKind) -> int {
    match kind {
        ColumnKind::CiStatus => 0,
        ColumnKind::BranchDiff => 1,
        ColumnKind::Path => 2,
        ColumnKind::Time => 3,
        ColumnKind::Message => 4,
        ColumnKind::AheadBehind => 5,
        ColumnKind::WorkingDiff => 6,
        ColumnKind::Status => 7,
        ColumnKind::Branch => 8,
    }
}

/// Whether a column is shown once `dropped` columns are hidden.
pub open spec fn shown(kind: ColumnKind, dropped: int) -> bool {
    drop_rank(kind) >= dropped
}

/// What a column adds to the width of a line at its least width, the
/// separator before it included; nothing if it is hidden.
pub open spec fn part(kind: ColumnKind, w: NaturalWidths, dropped: int) -> int {
    if shown(kind, dropped) {
        least_width(kind, w) + SEPARATOR_WIDTH
    } else {
        0
    }
}

/// The least width of a line once `dropped` columns are hidden (at most
/// eight): the shown columns at their least widths with a separator between
/// neighbours.
pub open spec fn need(w: NaturalWidths, dropped: int) -> int {
    part(ColumnKind::Branch, w, dropped) + part(ColumnKind::Status, w, dropped) + part(
        ColumnKind::WorkingDiff,
        w,
        dropped,
    ) + part(ColumnKind::AheadBehind, w, dropped) + part(ColumnKind::BranchDiff, w, dropped) + part(
        ColumnKind::CiStatus,
        w,
        dropped,
    ) + part(ColumnKind::Message, w, dropped) + part(ColumnKind::Time, w, dropped) + part(
        ColumnKind::Path,
        w,
        dropped,
    ) - SEPARATOR_WIDTH
}

/// How many columns are hidden at terminal width `terminal`: the fewest, from
/// `from` on, with which the rest fits; all eight that can be hidden if nothing
/// less will do.
pub open spec fn drops(w: NaturalWidths, terminal: int, from: int) -> int
    decreases 8 - from,
{
    if from < 8 && need(w, from) > terminal {
        drops(w, terminal, from + 1)
    } else {
        from
    }
}

/// The width of the message column: its least width and as much of the spare
/// room as it can use.
pub open spec fn message_width(w: NaturalWidths, terminal: int, dropped: int) -> int {
    let least = least_width(ColumnKind::Message, w);
    let spare = terminal - need(w, dropped);
    if spare <= 0 {
        least
    } else if spare >= w.message - least {
        w.message as int
    } else {
        least + spare
    }
}

/// The width at which a shown column is laid out.
pub open spec fn final_width(kind: ColumnKind, w: NaturalWidths, terminal: int, dropped: int) -> int {
    if kind == ColumnKind::Message {
        message_width(w, terminal, dropped)
    } else {
        natural_width(kind, w)
    }
}

/// The column `kind` as laid out, or nothing if it is hidden.
pub open spec fn column_if(
    kind: ColumnKind,
    w: NaturalWidths,
    terminal: int,
    dropped: int,
) -> Seq<Column> {
    if shown(kind, dropped) {
        seq![Column { kind, width: final_width(kind, w, terminal, dropped) as usize }]
    } else {
        seq![]
    }
}

/// The columns shown once `dropped` are hidden, in order.
pub open spec fn columns_after(w: NaturalWidths, terminal: int, dropped: int) -> Seq<Column> {
    column_if(ColumnKind::Branch, w, terminal, dropped) + column_if(
        ColumnKind::Status,
        w,
        terminal,
        dropped,
    ) + column_if(ColumnKind::WorkingDiff, w, terminal, dropped) + column_if(
        ColumnKind::AheadBehind,
        w,
        terminal,
        dropped,
    ) + column_if(ColumnKind::BranchDiff, w, terminal, dropped) + column_if(
        ColumnKind::CiStatus,
        w,
        terminal,
        dropped,
    ) + column_if(ColumnKind::Message, w, terminal, dropped) + column_if(
        ColumnKind::Time,
        w,
        terminal,
        dropped,
    ) + column_if(ColumnKind::Path, w, terminal, dropped)
}

/// The layout for the natural widths `w` on a terminal of `terminal` columns.
pub open spec fn arranged(w: NaturalWidths, terminal: int) -> Seq<Column> {
    columns_after(w, terminal, drops(w, terminal, 0))
}

/// The widths of `cols` added up, a separator counted after each.
pub open spec fn parts_sum(cols: Seq<Column>) -> int
    decreases cols.len(),
{
    if cols.len() == 0 {
        0
    } else {
        parts_sum(cols.drop_last()) + cols.last().width + SEPARATOR_WIDTH
    }
}

/// The width of a line laid out in `cols`: the column widths and a separator
/// between neighbours.
pub open spec fn total_width(cols: Seq<Column>) -> int {
    if cols.len() == 0 {
        0
    } else {
        parts_sum(cols) - SEPARATOR_WIDTH
    }
}

/// Whether the column `kind` is among `cols`.
pub open spec fn has_column(cols: Seq<Column>, kind: ColumnKind) -> bool {
    exists|i: int| 0 <= i < cols.len() && (#[trigger] cols[i]).kind == kind
}

proof fn lemma_parts_sum_adds(a: Seq<Column>, b: Seq<Column>)
    ensures
        parts_sum(a + b) == parts_sum(a) + parts_sum(b),
    decreases b.len(),
{
    if b.len() == 0 {
        assert(a + b =~= a);
    } else {
        assert((a + b).drop_last() =~= a + b.drop_last());
        assert((a + b).last() == b.last());
        lemma_parts_sum_adds(a, b.drop_last());
    }
}

proof fn lemma_column_if(kind: ColumnKind, w: NaturalWidths, terminal: int, dropped: int)
    ensures
        parts_sum(column_if(kind, w, terminal, dropped)) == if shown(kind, dropped) {
            final_width(kind, w, terminal, dropped) + SEPARATOR_WIDTH
        } else {
            0
        },
{
    let c = column_if(kind, w, terminal, dropped);
    if shown(kind, dropped) {
        assert(c.drop_last() =~= Seq::<Column>::empty());
        assert(parts_sum(c.drop_last()) == 0);
    }
}

/// The width of the laid-out line is the least width that the shown columns
/// need and what the message column was given beyond its least width.
proof fn lemma_columns_width(w: NaturalWidths, terminal: int, dropped: int)
    requires
        0 <= dropped <= 8,
    ensures
        columns_after(w, terminal, dropped).len() == 9 - dropped,
        columns_after(w, terminal, dropped)[0].kind == ColumnKind::Branch,
        columns_after(w, terminal, dropped)[0].width == w.branch,
        total_width(columns_after(w, terminal, dropped)) == need(w, dropped) + if shown(
            ColumnKind::Message,
            dropped,
        ) {
            message_width(w, terminal, dropped) - least_width(ColumnKind::Message, w)
        } else {
            0
        },
{
    let c0 = column_if(ColumnKind::Branch, w, terminal, dropped);
    let c1 = column_if(ColumnKind::Status, w, terminal, dropped);
    let c2 = column_if(ColumnKind::WorkingDiff, w, terminal, dropped);
    let c3 = column_if(ColumnKind::AheadBehind, w, terminal, dropped);
    let c4 = column_if(ColumnKind::BranchDiff, w, terminal, dropped);
    let c5 = column_if(ColumnKind::CiStatus, w, terminal, dropped);
    let c6 = column_if(ColumnKind::Message, w, terminal, dropped);
    let c7 = column_if(ColumnKind::Time, w, terminal, dropped);
    let c8 = column_if(ColumnKind::Path, w, terminal, dropped);
    lemma_column_if(ColumnKind::Branch, w, terminal, dropped);
    lemma_column_if(ColumnKind::Status, w, terminal, dropped);
    lemma_column_if(ColumnKind::WorkingDiff, w, terminal, dropped);
    lemma_column_if(ColumnKind::AheadBehind, w, terminal, dropped);
    lemma_column_if(ColumnKind::BranchDiff, w, terminal, dropped);
    lemma_column_if(ColumnKind::CiStatus, w, terminal, dropped);
    lemma_column_if(ColumnKind::Message, w, terminal, dropped);
    lemma_column_if(ColumnKind::Time, w, terminal, dropped);
    lemma_column_if(ColumnKind::Path, w, terminal, dropped);
    lemma_parts_sum_adds(c0, c1);
    lemma_parts_sum_adds(c0 + c1, c2);
    lemma_parts_sum_adds(c0 + c1 + c2, c3);
    lemma_parts_sum_adds(c0 + c1 + c2 + c3, c4);
    lemma_parts_sum_adds(c0 + c1 + c2 + c3 + c4, c5);
    lemma_parts_sum_adds(c0 + c1 + c2 + c3 + c4 + c5, c6);
    lemma_parts_sum_adds(c0 + c1 + c2 + c3 + c4 + c5 + c6, c7);
    lemma_parts_sum_adds(c0 + c1 + c2 + c3 + c4 + c5 + c6 + c7, c8);
}

/// The number of hidden columns that `drops` settles on.
proof fn lemma_drops(w: NaturalWidths, terminal: int, from: int)
    requires
        0 <= from <= 8,
    ensures
        from <= drops(w, terminal, from) <= 8,
        drops(w, terminal, from) < 8 ==> need(w, drops(w, terminal, from)) <= terminal,
    decreases 8 - from,
{
    if from < 8 && need(w, from) > terminal {
        lemma_drops(w, terminal, from + 1);
    }
}

/// On every terminal that is at least as wide as the branch column, the line
/// fits: the widths of the shown columns and the separators between them add
/// up to no more than the terminal's width. The branch column is shown on
/// every terminal, first and at its natural width.
pub proof fn lemma_layout_fits(w: NaturalWidths, terminal: int)
    ensures
        arranged(w, terminal).len() >= 1,
        arranged(w, terminal)[0] == (Column { kind: ColumnKind::Branch, width: w.branch }),
        has_column(arranged(w, terminal), ColumnKind::Branch),
        terminal >= w.branch ==> total_width(arranged(w, terminal)) <= terminal,
{
    lemma_drops(w, terminal, 0);
    let d = drops(w, terminal, 0);
    lemma_columns_width(w, terminal, d);
    assert(arranged(w, terminal)[0].kind == ColumnKind::Branch);
}

fn rank_of(kind: ColumnKind) -> (r: u8)
    ensures
        r == drop_rank(kind),
{
    match kind {
        ColumnKind::CiStatus => 0,
        ColumnKind::BranchDiff => 1,
        ColumnKind::Path => 2,
        ColumnKind::Time => 3,
        ColumnKind::Message => 4,
        ColumnKind::AheadBehind => 5,
        ColumnKind::WorkingDiff => 6,
        ColumnKind::Status => 7,
        ColumnKind::Branch => 8,
    }
}

fn natural_of(kind: ColumnKind, w: &NaturalWidths) -> (r: usize)
    ensures
        r == natural_width(kind, *w),
{
    match kind {
        ColumnKind::Branch => w.branch,
        ColumnKind::Status => STATUS_WIDTH,
        ColumnKind::WorkingDiff => WORKING_DIFF_WIDTH,
        ColumnKind::AheadBehind => AHEAD_BEHIND_WIDTH,
        ColumnKind::BranchDiff => BRANCH_DIFF_WIDTH,
        ColumnKind::CiStatus => CI_WIDTH,
        ColumnKind::Message => w.message,
        ColumnKind::Time => w.time,
        ColumnKind::Path => w.path,
    }
}

fn least_of(kind: ColumnKind, w: &NaturalWidths) -> (r: usize)
    ensures
        r == least_width(kind, *w),
{
    match kind {
        ColumnKind::Message => if w.message > MIN_MESSAGE_WIDTH {
            MIN_MESSAGE_WIDTH
        } else {
            w.message
        },
        _ => natural_of(kind, w),
    }
}

fn part_of(kind: ColumnKind, w: &NaturalWidths, dropped: u8) -> (r: u128)
    ensures
        r == part(kind, *w, dropped as int),
        r <= usize::MAX + 2,
{
    if rank_of(kind) >= dropped {
        least_of(kind, w) as u128 + SEPARATOR_WIDTH as u128
    } else {
        0
    }
}

fn need_of(w: &NaturalWidths, dropped: u8) -> (r: u128)
    requires
        dropped <= 8,
    ensures
        r == need(*w, dropped as int),
{
    let sum: u128 = part_of(ColumnKind::Branch, w, dropped) + part_of(
        ColumnKind::Status,
        w,
        dropped,
    ) + part_of(ColumnKind::WorkingDiff, w, dropped) + part_of(ColumnKind::AheadBehind, w, dropped)
        + part_of(ColumnKind::BranchDiff, w, dropped) + part_of(ColumnKind::CiStatus, w, dropped)
        + part_of(ColumnKind::Message, w, dropped) + part_of(ColumnKind::Time, w, dropped) + part_of(
        ColumnKind::Path,
        w,
        dropped,
    );
    sum - SEPARATOR_WIDTH as u128
}

fn push_if(
    cols: &mut Vec<Column>,
    kind: ColumnKind,
    w: &NaturalWidths,
    message: usize,
    dropped: u8,
    Ghost(terminal): Ghost<int>,
)
    requires
        message == message_width(*w, terminal, dropped as int),
    ensures
        final(cols)@ == old(cols)@ + column_if(kind, *w, terminal, dropped as int),
{
    if rank_of(kind) >= dropped {
        let width = match kind {
            ColumnKind::Message => message,
            _ => natural_of(kind, w),
        };
        cols.push(Column { kind, width });
        assert(cols@ =~= old(cols)@ + column_if(kind, *w, terminal, dropped as int));
    } else {
        assert(cols@ =~= old(cols)@ + column_if(kind, *w, terminal, dropped as int));
    }
}

/// Lays the columns out for a terminal of `terminal_width` columns. The line
/// fits the terminal whenever the terminal is at least as wide as the branch
/// column, which is always shown.
pub fn arrange(w: &NaturalWidths, terminal_width: usize) -> (cols: Vec<Column>)
    ensures
        cols@ == arranged(*w, terminal_width as int),
        cols.len() >= 1,
        cols[0] == (Column { kind: ColumnKind::Branch, width: w.branch }),
        terminal_width >= w.branch ==> total_width(cols@) <= terminal_width,
{
    proof {
        lemma_layout_fits(*w, terminal_width as int);
    }
    let ghost terminal = terminal_width as int;
    let mut dropped: u8 = 0;
    while dropped < 8 && need_of(w, dropped) > terminal_width as u128
        invariant
            dropped <= 8,
            drops(*w, terminal_width as int, 0) == drops(*w, terminal_width as int, dropped as int),
        decreases 8 - dropped,
    {
        dropped += 1;
    }
    let needed = need_of(w, dropped);
    let least = least_of(ColumnKind::Message, w);
    let message: usize = if needed >= terminal_width as u128 {
        least
    } else {
        let spare: u128 = terminal_width as u128 - needed;
        if spare >= (w.message - least) as u128 {
            w.message
        } else {
            least + spare as usize
        }
    };
    let mut cols: Vec<Column> = Vec::new();
    push_if(&mut cols, ColumnKind::Branch, w, message, dropped, Ghost(terminal));
    push_if(&mut cols, ColumnKind::Status, w, message, dropped, Ghost(terminal));
    push_if(&mut cols, ColumnKind::WorkingDiff, w, message, dropped, Ghost(terminal));
    push_if(&mut cols, ColumnKind::AheadBehind, w, message, dropped, Ghost(terminal));
    push_if(&mut cols, ColumnKind::BranchDiff, w, message, dropped, Ghost(terminal));
    push_if(&mut cols, ColumnKind::CiStatus, w, message, dropped, Ghost(terminal));
    push_if(&mut cols, ColumnKind::Message, w, message, dropped, Ghost(terminal));
    push_if(&mut cols, ColumnKind::Time, w, message, dropped, Ghost(terminal));
    push_if(&mut cols, ColumnKind::Path, w, message, dropped, Ghost(terminal));
    assert(cols@ =~= arranged(*w, terminal));
    cols
}

// ---------------------------------------------------------------------------
// From the items to the layout
// ---------------------------------------------------------------------------

/// The layout of a table: the columns that are shown, the directory that paths
/// are shown from and the time that ages are counted from.
#[derive(Debug, Clone, PartialEq, Eq)]
pub struct Layout {
    pub columns: Vec<Column>,
    pub common_prefix: String,
    pub now: i64,
}

/// Mathematical model of a [`Layout`].
pub struct LayoutView {
    pub columns: Seq<Column>,
    pub common_prefix: Seq<char>,
    pub now: i64,
}

impl View for Layout {
    type V = LayoutView;

    open spec fn view(&self) -> LayoutView {
        LayoutView { columns: self.columns@, common_prefix: self.common_prefix@, now: self.now }
    }
}

/// The paths of the working copies among `items`, in order.
pub open spec fn worktree_paths(items: Seq<ListItemView>) -> Seq<Seq<char>>
    decreases items.len(),
{
    if items.len() == 0 {
        seq![]
    } else {
        match items.last() {
            ListItemView::Worktree(wt) => worktree_paths(items.drop_last()).push(wt.worktree.path),
            ListItemView::Branch(_) => worktree_paths(items.drop_last()),
        }
    }
}

/// The row of `item` once all its cells have arrived.
pub open spec fn settled(item: ListItemView) -> RowView {
    RowView { item, received: CellFlags::all_spec() }
}

/// The width of the widest text in the column `kind`: its heading or the cell
/// of one of `items`.
pub open spec fn widest(items: Seq<ListItemView>, kind: ColumnKind, prefix: Seq<char>, now: i64) -> int
    decreases items.len(),
{
    if items.len() == 0 {
        text_width(header(kind))
    } else {
        let before = widest(items.drop_last(), kind, prefix, now);
        let cell = text_width(cell_text(settled(items.last()), kind, prefix, now));
        if cell > before {
            cell
        } else {
            before
        }
    }
}

/// The natural widths of the content-driven columns for `items`: each as wide
/// as its widest text, the message at most [`MAX_MESSAGE_WIDTH`].
pub open spec fn natural_widths(items: Seq<ListItemView>, prefix: Seq<char>, now: i64) -> NaturalWidths {
    NaturalWidths {
        branch: widest(items, ColumnKind::Branch, prefix, now) as usize,
        message: if widest(items, ColumnKind::Message, prefix, now) > MAX_MESSAGE_WIDTH {
            MAX_MESSAGE_WIDTH
        } else {
            widest(items, ColumnKind::Message, prefix, now) as usize
        },
        time: widest(items, ColumnKind::Time, prefix, now) as usize,
        path: widest(items, ColumnKind::Path, prefix, now) as usize,
    }
}

/// The least terminal width at which the table is sure to fit: the width of
/// the branch column.
pub open spec fn min_terminal_width(items: Seq<ListItemView>, prefix: Seq<char>, now: i64) -> int {
    widest(items, ColumnKind::Branch, prefix, now)
}

fn widest_of(rows: &Vec<Row>, kind: ColumnKind, prefix: &str, now: i64) -> (w: usize)
    ensures
        w == widest(items_of(row_views(rows@)), kind, prefix@, now),
{
    let ghost all = items_of(row_views(rows@));
    let mut w = display_width(header_of(kind));
    let flags = CellFlags::all();
    let mut k: usize = 0;
    assert(all.take(0) =~= Seq::<ListItemView>::empty());
    while k < rows.len()
        invariant
            k <= rows.len(),
            all == items_of(row_views(rows@)),
            flags == CellFlags::all_spec(),
            w == widest(all.take(k as int), kind, prefix@, now),
        decreases rows.len() - k,
    {
        assert(all.take(k + 1).drop_last() =~= all.take(k as int));
        assert(all.take(k + 1).last() == rows@[k as int]@.item);
        let text = cell_text_of(&rows[k].item, &flags, kind, prefix, now);
        let cell = display_width(text.as_str());
        if cell > w {
            w = cell;
        }
        k += 1;
    }
    assert(all.take(rows.len() as int) =~= all);
    w
}

fn paths_of(rows: &Vec<Row>) -> (paths: Vec<String>)
    ensures
        string_views(paths@) == worktree_paths(items_of(row_views(rows@))),
{
    let ghost all = items_of(row_views(rows@));
    let mut paths: Vec<String> = Vec::new();
    let mut k: usize = 0;
    assert(all.take(0) =~= Seq::<ListItemView>::empty());
    assert(string_views(paths@) =~= worktree_paths(all.take(0)));
    while k < rows.len()
        invariant
            k <= rows.len(),
            all == items_of(row_views(rows@)),
            string_views(paths@) == worktree_paths(all.take(k as int)),
        decreases rows.len() - k,
    {
        assert(all.take(k + 1).drop_last() =~= all.take(k as int));
        assert(all.take(k + 1).last() == rows@[k as int]@.item);
        match &rows[k].item {
            ListItem::Worktree(wt) => {
                let ghost before = string_views(paths@);
                let path = wt.worktree.path.clone();
                paths.push(path);
                assert(string_views(paths@) =~= before.push(path@));
            },
            ListItem::Branch(_) => {},
        }
        k += 1;
    }
    assert(all.take(rows.len() as int) =~= all);
    paths
}

/// The layout for `rows` on a terminal of `terminal` columns at the time
/// `now`: the columns, the directory that all working copies share and the
/// time. The widths are those that the rows call for once all their cells have
/// arrived.
pub open spec fn layout_of(rows: Seq<RowView>, terminal: int, now: i64) -> LayoutView {
    let prefix = common_prefix(worktree_paths(items_of(rows)));
    LayoutView {
        columns: arranged(natural_widths(items_of(rows), prefix, now), terminal),
        common_prefix: prefix,
        now,
    }
}

/// Computes the layout of the table for `rows` on a terminal of
/// `terminal_width` columns, at the time `now` (seconds since the Unix epoch).
///
/// The content-driven columns are as wide as their heading and their widest
/// cell. The line fits the terminal whenever the terminal is at least as wide
/// as the branch column; the branch column is always shown.
pub fn calculate_responsive_layout(rows: &Vec<Row>, terminal_width: usize, now: i64) -> (layout:
    Layout)
    ensures
        layout@ == layout_of(row_views(rows@), terminal_width as int, now),
        layout@.columns.len() >= 1,
        layout@.columns[0].kind == ColumnKind::Branch,
        terminal_width >= min_terminal_width(
            items_of(row_views(rows@)),
            layout@.common_prefix,
            now,
        ) ==> total_width(layout@.columns) <= terminal_width,
{
    let paths = paths_of(rows);
    let common = find_common_prefix(&paths);
    let prefix = common.as_str();
    let message = widest_of(rows, ColumnKind::Message, prefix, now);
    let w = NaturalWidths {
        branch: widest_of(rows, ColumnKind::Branch, prefix, now),
        message: if message > MAX_MESSAGE_WIDTH {
            MAX_MESSAGE_WIDTH
        } else {
            message
        },
        time: widest_of(rows, ColumnKind::Time, prefix, now),
        path: widest_of(rows, ColumnKind::Path, prefix, now),
    };
    assert(w == natural_widths(items_of(row_views(rows@)), common@, now));
    let columns = arrange(&w, terminal_width);
    Layout { columns, common_prefix: common, now }
}

} // verus!
