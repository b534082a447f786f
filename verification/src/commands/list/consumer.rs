//! The consumer of update messages: it owns the rows, writes each arriving
//! cell into its row and says what is to be redrawn.

use vstd::prelude::*;
use crate::commands::list::collect::{CellKind, CellUpdate, CellUpdateView};
use crate::commands::list::progressive::RenderMode;
use crate::commands::list::row::{
    expected_count, expects, lemma_flags_commute, lemma_row_cells, lemma_row_complete,
    lemma_write_commutes, lemma_write_keeps_kind, write_cell, write_into, CellFlags, Row, RowState,
    RowView,
};
use crate::commands::list::{ListItem, ListItemView};

verus! {

// ---------------------------------------------------------------------------
// Applying updates to the rows
// ---------------------------------------------------------------------------

/// The views of the elements of `rows`.
pub open spec fn row_views(rows: Seq<Row>) -> Seq<RowView> {
    Seq::new(rows.len(), |i: int| rows[i]@)
}

/// The items of `rows`.
pub open spec fn items_of(rows: Seq<RowView>) -> Seq<ListItemView> {
    Seq::new(rows.len(), |i: int| rows[i].item)
}

/// Whether `update` is one that the rows still wait for: it names a row, a
/// cell that the row has, and that cell has not arrived yet.
pub open spec fn accepts(rows: Seq<RowView>, update: CellUpdateView) -> bool {
    let idx = update.item_idx() as int;
    &&& idx < rows.len()
    &&& expects(rows[idx].item, update.kind())
    &&& !rows[idx].received.has_spec(update.kind())
}

/// The rows after `update`: its value is written into its cell of its row and
/// the cell is marked as arrived. An update that the rows do not wait for
/// changes nothing.
pub open spec fn apply_update(rows: Seq<RowView>, update: CellUpdateView) -> Seq<RowView> {
    if accepts(rows, update) {
        let idx = update.item_idx() as int;
        rows.update(
            idx,
            RowView {
                item: write_cell(rows[idx].item, update),
                received: rows[idx].received.with_spec(update.kind()),
            },
        )
    } else {
        rows
    }
}

/// The rows after the updates `updates`, applied in order.
pub open spec fn apply_all(rows: Seq<RowView>, updates: Seq<CellUpdateView>) -> Seq<RowView>
    decreases updates.len(),
{
    if updates.len() == 0 {
        rows
    } else {
        apply_all(apply_update(rows, updates[0]), updates.drop_first())
    }
}

/// How many cells have arrived, over all rows.
pub open spec fn received_total(rows: Seq<RowView>) -> int
    decreases rows.len(),
{
    if rows.len() == 0 {
        0
    } else {
        received_total(rows.drop_last()) + rows.last().filled()
    }
}

/// How many cells are gathered, over all rows: nine for each working copy and
/// six for each branch.
pub open spec fn expected_total(rows: Seq<RowView>) -> int
    decreases rows.len(),
{
    if rows.len() == 0 {
        0
    } else {
        expected_total(rows.drop_last()) + expected_count(rows.last().item)
    }
}

/// Whether every row is well formed.
pub open spec fn rows_wf(rows: Seq<RowView>) -> bool {
    forall|i: int| 0 <= i < rows.len() ==> (#[trigger] rows[i]).wf()
}

/// The totals are bounded by nine cells a row, and the cells that have arrived
/// never outnumber those that are gathered.
pub proof fn lemma_totals(rows: Seq<RowView>)
    requires
        rows_wf(rows),
    ensures
        0 <= received_total(rows) <= expected_total(rows) <= 9 * rows.len(),
        received_total(rows) == expected_total(rows) <==> forall|i: int|
            0 <= i < rows.len() ==> (#[trigger] rows[i]).is_complete(),
    decreases rows.len(),
{
    if rows.len() > 0 {
        let front = rows.drop_last();
        assert forall|i: int| 0 <= i < front.len() implies (#[trigger] front[i]).wf() by {
            assert(front[i] == rows[i]);
        }
        lemma_totals(front);
        lemma_row_complete(rows.last());
        if received_total(rows) == expected_total(rows) {
            assert forall|i: int| 0 <= i < rows.len() implies (#[trigger] rows[i]).is_complete() by {
                if i < front.len() {
                    assert(front[i] == rows[i]);
                }
            }
        }
        if forall|i: int| 0 <= i < rows.len() ==> (#[trigger] rows[i]).is_complete() {
            assert forall|i: int| 0 <= i < front.len() implies (#[trigger] front[i]).is_complete() by {
                assert(front[i] == rows[i]);
            }
            assert(rows.last() == rows[rows.len() - 1]);
        }
    }
}

/// Replacing one row changes the totals by what that row's counts change.
pub proof fn lemma_totals_update(rows: Seq<RowView>, idx: int, row: RowView)
    requires
        0 <= idx < rows.len(),
    ensures
        received_total(rows.update(idx, row)) == received_total(rows) - rows[idx].filled()
            + row.filled(),
        expected_total(rows.update(idx, row)) == expected_total(rows) - expected_count(
            rows[idx].item,
        ) + expected_count(row.item),
    decreases rows.len(),
{
    let after = rows.update(idx, row);
    if idx == rows.len() - 1 {
        assert(after.drop_last() =~= rows.drop_last());
    } else {
        assert(after.drop_last() =~= rows.drop_last().update(idx, row));
        lemma_totals_update(rows.drop_last(), idx, row);
    }
}

/// An update that the rows wait for fills exactly one more cell; any other
/// leaves the counts as they are. The rows stay well formed and keep their
/// kinds.
pub proof fn lemma_apply_update(rows: Seq<RowView>, update: CellUpdateView)
    requires
        rows_wf(rows),
    ensures
        rows_wf(apply_update(rows, update)),
        apply_update(rows, update).len() == rows.len(),
        expected_total(apply_update(rows, update)) == expected_total(rows),
        received_total(apply_update(rows, update)) == received_total(rows) + if accepts(
            rows,
            update,
        ) {
            1int
        } else {
            0int
        },
{
    if accepts(rows, update) {
        let idx = update.item_idx() as int;
        let row = RowView {
            item: write_cell(rows[idx].item, update),
            received: rows[idx].received.with_spec(update.kind()),
        };
        lemma_totals_update(rows, idx, row);
        assert(rows[idx].wf());
    }
}

// ---------------------------------------------------------------------------
// The consumer
// ---------------------------------------------------------------------------

/// What the output can repaint when one cell changes.
#[derive(Debug, Clone, Copy, PartialEq, Eq, Structural)]
pub enum Repaint {
    /// A single row can be redrawn in place.
    Row,
    /// Only the whole table can be redrawn.
    Table,
}

/// What is to be redrawn after an event.
#[derive(Debug, Clone, Copy, PartialEq, Eq, Structural)]
pub enum Redraw {
    Nothing,
    /// The row with this index.
    Row(usize),
    /// The whole table.
    Table,
}

/// What the consumer's caller does after an event: redraw, and stop or go on
/// receiving. Once `done` is set the table is final: the caller renders it (in
/// buffered mode for the first time), prints the summary and returns.
#[derive(Debug, Clone, Copy, PartialEq, Eq, Structural)]
pub struct Action {
    pub redraw: Redraw,
    pub done: bool,
}

/// What the channel delivered.
#[derive(Debug, Clone, PartialEq, Eq)]
pub enum Event {
    Update(CellUpdate),
    /// The channel is closed: no sender is left.
    Closed,
}

/// Mathematical model of an [`Event`].
pub enum EventView {
    Update(CellUpdateView),
    Closed,
}

impl View for Event {
    type V = EventView;

    open spec fn view(&self) -> EventView {
        match self {
            Event::Update(u) => EventView::Update(u@),
            Event::Closed => EventView::Closed,
        }
    }
}

/// The single owner of the rows while updates arrive.
#[derive(Debug, Clone, PartialEq, Eq)]
pub struct Consumer {
    pub rows: Vec<Row>,
    pub mode: RenderMode,
    pub repaint: Repaint,
    /// How many updates were written into the rows.
    pub received: u128,
    /// How many updates the rows wait for in all.
    pub expected: u128,
}

/// Mathematical model of a [`Consumer`].
pub struct ConsumerView {
    pub rows: Seq<RowView>,
    pub mode: RenderMode,
    pub repaint: Repaint,
}

impl View for Consumer {
    type V = ConsumerView;

    open spec fn view(&self) -> ConsumerView {
        ConsumerView { rows: row_views(self.rows@), mode: self.mode, repaint: self.repaint }
    }
}

/// The rows after an event.
pub open spec fn rows_after(rows: Seq<RowView>, event: EventView) -> Seq<RowView> {
    match event {
        EventView::Update(u) => apply_update(rows, u),
        EventView::Closed => rows,
    }
}

/// Whether nothing more is to be received: all updates have arrived.
pub open spec fn all_received(rows: Seq<RowView>) -> bool {
    received_total(rows) == expected_total(rows)
}

/// What the caller is told after an event. In progressive mode an update that
/// was written is followed by a redraw of its row, or of the table where rows
/// cannot be repainted alone; in buffered mode nothing is drawn before the end.
/// The end comes with the last awaited update or with the channel's closing,
/// whichever is first.
pub open spec fn action_for(c: ConsumerView, event: EventView) -> Action {
    match event {
        EventView::Closed => Action { redraw: Redraw::Nothing, done: true },
        EventView::Update(u) => Action {
            redraw: if accepts(c.rows, u) && c.mode == RenderMode::Progressive {
                match c.repaint {
                    Repaint::Row => Redraw::Row(u.item_idx()),
                    Repaint::Table => Redraw::Table,
                }
            } else {
                Redraw::Nothing
            },
            done: all_received(apply_update(c.rows, u)),
        },
    }
}

/// The consumer after an event.
pub open spec fn consumer_after(c: ConsumerView, event: EventView) -> ConsumerView {
    ConsumerView { rows: rows_after(c.rows, event), ..c }
}

/// The consumer after the events `events`, in order.
pub open spec fn consumer_after_all(c: ConsumerView, events: Seq<EventView>) -> ConsumerView
    decreases events.len(),
{
    if events.len() == 0 {
        c
    } else {
        consumer_after_all(consumer_after(c, events[0]), events.drop_first())
    }
}

impl Consumer {
    /// The counters agree with the rows, and the rows are well formed.
    pub open spec fn wf(&self) -> bool {
        &&& rows_wf(self@.rows)
        &&& self.received == received_total(self@.rows)
        &&& self.expected == expected_total(self@.rows)
    }

    /// A consumer for `items`, of which no cell has arrived. The row of an item
    /// has the item's index.
    pub fn new(items: Vec<ListItem>, mode: RenderMode, repaint: Repaint) -> (c: Consumer)
        ensures
            c.wf(),
            c@.mode == mode,
            c@.repaint == repaint,
            c@.rows.len() == items.len(),
            forall|i: int|
                0 <= i < items.len() ==> #[trigger] c@.rows[i] == (RowView {
                    item: items[i]@,
                    received: CellFlags::none_spec(),
                }),
    {
        let mut rows: Vec<Row> = Vec::new();
        let mut expected: u128 = 0;
        let ghost given = items@;
        let mut items = items;
        let mut rest: Vec<ListItem> = Vec::new();
        // Take the items from the back, then put the rows in order.
        while items.len() > 0
            invariant
                items.len() + rest.len() == given.len(),
                forall|i: int| 0 <= i < items.len() ==> items[i] == given[i],
                forall|j: int|
                    0 <= j < rest.len() ==> #[trigger] rest[j] == given[given.len() - 1 - j],
            decreases items.len(),
        {
            let item = items.pop().unwrap();
            rest.push(item);
        }
        while rest.len() > 0
            invariant
                rows.len() + rest.len() == given.len(),
                forall|j: int|
                    0 <= j < rest.len() ==> #[trigger] rest[j] == given[given.len() - 1 - j],
                forall|i: int|
                    0 <= i < rows.len() ==> #[trigger] row_views(rows@)[i] == (RowView {
                        item: given[i]@,
                        received: CellFlags::none_spec(),
                    }),
                rows_wf(row_views(rows@)),
                expected == expected_total(row_views(rows@)),
                received_total(row_views(rows@)) == 0,
                expected <= 9 * rows.len(),
            decreases rest.len(),
        {
            let item = rest.pop().unwrap();
            let row = Row::new(item);
            let ghost before = row_views(rows@);
            expected = expected + (row.expected() as u128);
            rows.push(row);
            assert(row_views(rows@) =~= before.push(row@));
            assert(row_views(rows@).drop_last() =~= before);
            assert(row_views(rows@).last() == row@);
            assert forall|i: int| 0 <= i < rows.len() implies #[trigger] row_views(rows@)[i] == (
            RowView { item: given[i]@, received: CellFlags::none_spec() }) by {
                if i < before.len() {
                    assert(row_views(rows@)[i] == before[i]);
                }
            }
            assert forall|i: int| 0 <= i < rows.len() implies (#[trigger] row_views(rows@)[i]).wf() by {
                if i < before.len() {
                    assert(row_views(rows@)[i] == before[i]);
                }
            }
        }
        Consumer { rows, mode, repaint, received: 0, expected }
    }

    /// Whether all awaited updates have arrived.
    pub fn is_finished(&self) -> (r: bool)
        requires
            self.wf(),
        ensures
            r == all_received(self@.rows),
    {
        self.received == self.expected
    }

    /// The state of the row with index `idx`, if there is such a row.
    pub fn row_state(&self, idx: usize) -> (s: Option<RowState>)
        ensures
            s == if idx < self@.rows.len() {
                Some(self@.rows[idx as int].state())
            } else {
                None
            },
    {
        if idx < self.rows.len() {
            assert(self@.rows[idx as int] == self.rows@[idx as int]@);
            Some(self.rows[idx].state())
        } else {
            None
        }
    }

    /// Whether `update` is one that the rows still wait for.
    pub fn accepts(&self, update: &CellUpdate) -> (r: bool)
        ensures
            r == accepts(self@.rows, update@),
    {
        let idx = update.item_idx();
        if idx >= self.rows.len() {
            return false;
        }
        assert(self@.rows[idx as int] == self.rows@[idx as int]@);
        let row = &self.rows[idx];
        row.expects(update.kind()) && !row.received.has(update.kind())
    }

    /// Takes one event from the channel. An update that the rows wait for is
    /// written into its cell, which is marked as arrived; any other update is a
    /// defect of its sender and changes nothing. Returns what is to be redrawn
    /// and whether the consumer is done.
    pub fn step(&mut self, event: Event) -> (action: Action)
        requires
            old(self).wf(),
        ensures
            final(self).wf(),
            final(self)@ == consumer_after(old(self)@, event@),
            action == action_for(old(self)@, event@),
    {
        match event {
            Event::Closed => Action { redraw: Redraw::Nothing, done: true },
            Event::Update(update) => {
                let ghost before = self@.rows;
                let accepted = self.accepts(&update);
                let idx = update.item_idx();
                let kind = update.kind();
                proof {
                    lemma_apply_update(before, update@);
                    lemma_totals(before);
                }
                if accepted {
                    let ghost old_rows = self.rows@;
                    let row = &mut self.rows[idx];
                    row.received.mark(kind);
                    write_into(&mut row.item, update);
                    assert(self@.rows =~= apply_update(before, update@)) by {
                        assert(before[idx as int] == old_rows[idx as int]@);
                        assert forall|i: int| 0 <= i < self.rows@.len() implies self@.rows[i]
                            == apply_update(before, update@)[i] by {
                            if i != idx {
                                assert(self.rows@[i] == old_rows[i]);
                                assert(before[i] == old_rows[i]@);
                            }
                        }
                    }
                    self.received = self.received + 1;
                } else {
                    assert(self@.rows =~= apply_update(before, update@));
                }
                let redraw = if accepted && matches!(self.mode, RenderMode::Progressive) {
                    match self.repaint {
                        Repaint::Row => Redraw::Row(idx),
                        Repaint::Table => Redraw::Table,
                    }
                } else {
                    Redraw::Nothing
                };
                Action { redraw, done: self.received == self.expected }
            },
        }
    }
}

// ---------------------------------------------------------------------------
// Laws
// ---------------------------------------------------------------------------

/// The rows do not depend on the rendering mode, nor on what the output can
/// repaint: two consumers that start from the same rows hold the same rows
/// after the same events, whether they render progressively or buffered. What
/// differs between the modes is only which intermediate states are drawn.
pub proof fn lemma_mode_leaves_content(a: ConsumerView, b: ConsumerView, events: Seq<EventView>)
    requires
        a.rows == b.rows,
    ensures
        consumer_after_all(a, events).rows == consumer_after_all(b, events).rows,
        consumer_after_all(a, events).mode == a.mode,
        consumer_after_all(b, events).mode == b.mode,
    decreases events.len(),
{
    if events.len() > 0 {
        lemma_mode_leaves_content(
            consumer_after(a, events[0]),
            consumer_after(b, events[0]),
            events.drop_first(),
        );
    }
}

/// Whether two updates are for different cells or different rows.
pub open spec fn different_cells(u: CellUpdateView, v: CellUpdateView) -> bool {
    u.item_idx() != v.item_idx() || u.kind() != v.kind()
}

/// Whether `update` is taken is not changed by an earlier update for another
/// cell.
proof fn lemma_accepts_after(rows: Seq<RowView>, u: CellUpdateView, v: CellUpdateView)
    requires
        different_cells(u, v),
    ensures
        accepts(apply_update(rows, u), v) == accepts(rows, v),
{
    if accepts(rows, u) {
        let i = u.item_idx() as int;
        lemma_write_keeps_kind(rows[i].item, u);
        lemma_flags_commute(rows[i].received, u.kind(), v.kind());
    }
}

/// Updates for different cells may arrive in either order: the rows end up the
/// same.
pub proof fn lemma_updates_commute(rows: Seq<RowView>, u: CellUpdateView, v: CellUpdateView)
    requires
        different_cells(u, v),
    ensures
        apply_update(apply_update(rows, u), v) == apply_update(apply_update(rows, v), u),
{
    let ru = apply_update(rows, u);
    let rv = apply_update(rows, v);
    let uv = apply_update(ru, v);
    let vu = apply_update(rv, u);
    lemma_accepts_after(rows, u, v);
    lemma_accepts_after(rows, v, u);
    if accepts(rows, u) && accepts(rows, v) {
        let i = u.item_idx() as int;
        let j = v.item_idx() as int;
        if i == j {
            lemma_write_commutes(rows[i].item, u, v);
            lemma_flags_commute(rows[i].received, u.kind(), v.kind());
            assert(uv =~= vu);
        } else {
            assert(uv =~= vu);
        }
    } else {
        assert(uv =~= vu);
    }
}

/// After an update has been written, the same cell takes no second one: a
/// repeated update changes nothing.
pub proof fn lemma_update_once(rows: Seq<RowView>, u: CellUpdateView, v: CellUpdateView)
    requires
        !different_cells(u, v),
        accepts(rows, u),
    ensures
        !accepts(apply_update(rows, u), v),
        apply_update(apply_update(rows, u), v) == apply_update(rows, u),
{
}

/// Whether one of `updates` is for the cell `kind` of the row `idx`.
pub open spec fn targets(updates: Seq<CellUpdateView>, idx: int, kind: CellKind) -> bool {
    exists|j: int|
        0 <= j < updates.len() && (#[trigger] updates[j]).item_idx() == idx && updates[j].kind()
            == kind
}

/// Updates keep the rows well formed, as many as they were and of the kinds
/// they were.
pub proof fn lemma_apply_all(rows: Seq<RowView>, updates: Seq<CellUpdateView>)
    requires
        rows_wf(rows),
    ensures
        rows_wf(apply_all(rows, updates)),
        apply_all(rows, updates).len() == rows.len(),
        forall|i: int, kind: CellKind|
            0 <= i < rows.len() ==> #[trigger] expects(apply_all(rows, updates)[i].item, kind)
                == expects(rows[i].item, kind),
    decreases updates.len(),
{
    if updates.len() > 0 {
        let next = apply_update(rows, updates[0]);
        lemma_apply_update(rows, updates[0]);
        lemma_apply_all(next, updates.drop_first());
        assert forall|i: int, kind: CellKind| 0 <= i < rows.len() implies #[trigger] expects(
            apply_all(rows, updates)[i].item,
            kind,
        ) == expects(rows[i].item, kind) by {
            lemma_write_keeps_kind(rows[i].item, updates[0]);
            assert(expects(next[i].item, kind) == expects(rows[i].item, kind));
        }
    }
}

/// After a run of updates, a cell has arrived exactly if it had arrived
/// before or the row has the cell and one of the updates was for it. The order
/// of the updates does not matter.
pub proof fn lemma_cell_arrives(
    rows: Seq<RowView>,
    updates: Seq<CellUpdateView>,
    idx: int,
    kind: CellKind,
)
    requires
        0 <= idx < rows.len(),
        rows_wf(rows),
    ensures
        apply_all(rows, updates).len() == rows.len(),
        apply_all(rows, updates)[idx].received.has_spec(kind) == (rows[idx].received.has_spec(kind)
            || (expects(rows[idx].item, kind) && targets(updates, idx, kind))),
    decreases updates.len(),
{
    lemma_apply_all(rows, updates);
    if updates.len() > 0 {
        let u = updates[0];
        let rest = updates.drop_first();
        let next = apply_update(rows, u);
        lemma_apply_update(rows, u);
        lemma_cell_arrives(next, rest, idx, kind);
        lemma_write_keeps_kind(rows[idx].item, u);
        let hit = u.item_idx() == idx && u.kind() == kind;
        if accepts(rows, u) && u.item_idx() == idx {
            lemma_flags_commute(rows[idx].received, u.kind(), kind);
        }
        assert(next[idx].received.has_spec(kind) == (rows[idx].received.has_spec(kind) || (hit
            && expects(rows[idx].item, kind))));
        assert(targets(updates, idx, kind) == (hit || targets(rest, idx, kind))) by {
            if targets(rest, idx, kind) {
                let j = choose|j: int|
                    0 <= j < rest.len() && (#[trigger] rest[j]).item_idx() == idx && rest[j].kind()
                        == kind;
                assert(updates[j + 1] == rest[j]);
            }
            if targets(updates, idx, kind) && !hit {
                let j = choose|j: int|
                    0 <= j < updates.len() && (#[trigger] updates[j]).item_idx() == idx
                        && updates[j].kind() == kind;
                assert(rest[j - 1] == updates[j]);
            }
            if hit {
                assert(updates[0].item_idx() == idx);
            }
        }
    }
}

/// Once an update has come for every cell of every row, in whatever order and
/// with whatever else between them, nothing is left to wait for: every row is
/// complete, and the count of updates received has reached the count
/// expected.
pub proof fn lemma_all_arrive(rows: Seq<RowView>, updates: Seq<CellUpdateView>)
    requires
        rows_wf(rows),
        forall|i: int, kind: CellKind|
            0 <= i < rows.len() && expects(rows[i].item, kind) ==> #[trigger] targets(
                updates,
                i,
                kind,
            ),
    ensures
        all_received(apply_all(rows, updates)),
        forall|i: int| 0 <= i < rows.len() ==> (#[trigger] apply_all(rows, updates)[i]).is_complete(),
{
    let after = apply_all(rows, updates);
    lemma_apply_all(rows, updates);
    assert forall|i: int| 0 <= i < after.len() implies (#[trigger] after[i]).is_complete() by {
        lemma_row_cells(after[i]);
        assert forall|kind: CellKind| expects(after[i].item, kind) implies after[i].received.has_spec(
            kind,
        ) by {
            lemma_cell_arrives(rows, updates, i, kind);
            assert(expects(rows[i].item, kind));
            assert(targets(updates, i, kind));
        }
    }
    lemma_totals(after);
}

/// Whether `b` holds the updates of `a` in some order: the first of `a` stands
/// somewhere in `b`, and what is left of `b` without it holds the rest of `a`.
pub open spec fn rearranged(a: Seq<CellUpdateView>, b: Seq<CellUpdateView>) -> bool
    decreases a.len(),
{
    if a.len() == 0 {
        b.len() == 0
    } else {
        exists|j: int|
            0 <= j < b.len() && #[trigger] b[j] == a[0] && rearranged(a.drop_first(), b.remove(j))
    }
}

/// Whether no two of `updates` are for the same cell of the same row.
pub open spec fn all_different(updates: Seq<CellUpdateView>) -> bool {
    forall|i: int, j: int|
        0 <= i < j < updates.len() ==> different_cells(#[trigger] updates[i], #[trigger] updates[j])
}

proof fn lemma_rearranged_member(a: Seq<CellUpdateView>, b: Seq<CellUpdateView>, k: int)
    requires
        rearranged(a, b),
        0 <= k < b.len(),
    ensures
        exists|m: int| 0 <= m < a.len() && a[m] == b[k],
    decreases a.len(),
{
    let j = choose|j: int|
        0 <= j < b.len() && #[trigger] b[j] == a[0] && rearranged(a.drop_first(), b.remove(j));
    if k == j {
        assert(a[0] == b[k]);
    } else {
        let rest = b.remove(j);
        let k2 = if k < j {
            k
        } else {
            k - 1
        };
        assert(rest[k2] == b[k]);
        lemma_rearranged_member(a.drop_first(), rest, k2);
        let m = choose|m: int| 0 <= m < a.drop_first().len() && a.drop_first()[m] == rest[k2];
        assert(a[m + 1] == b[k]);
    }
}

/// The updates after the first one of a run, applied to the rows after it.
proof fn lemma_apply_all_cons(rows: Seq<RowView>, u: CellUpdateView, rest: Seq<CellUpdateView>)
    ensures
        apply_all(rows, seq![u] + rest) == apply_all(apply_update(rows, u), rest),
{
    assert((seq![u] + rest).drop_first() =~= rest);
}

/// An update may be moved to the front past updates for other cells.
proof fn lemma_move_to_front(
    rows: Seq<RowView>,
    before: Seq<CellUpdateView>,
    u: CellUpdateView,
    after: Seq<CellUpdateView>,
)
    requires
        forall|k: int| 0 <= k < before.len() ==> different_cells(u, #[trigger] before[k]),
    ensures
        apply_all(rows, before + seq![u] + after) == apply_all(rows, seq![u] + (before + after)),
    decreases before.len(),
{
    if before.len() == 0 {
        assert(before + seq![u] + after =~= seq![u] + (before + after));
    } else {
        let p = before[0];
        let rest = before.drop_first();
        assert(before + seq![u] + after =~= seq![p] + (rest + seq![u] + after));
        lemma_apply_all_cons(rows, p, rest + seq![u] + after);
        assert forall|k: int| 0 <= k < rest.len() implies different_cells(u, #[trigger] rest[k]) by {
            assert(rest[k] == before[k + 1]);
        }
        lemma_move_to_front(apply_update(rows, p), rest, u, after);
        lemma_apply_all_cons(apply_update(rows, p), u, rest + after);
        lemma_updates_commute(rows, p, u);
        lemma_apply_all_cons(apply_update(rows, u), p, rest + after);
        assert(seq![p] + (rest + after) =~= before + after);
        lemma_apply_all_cons(rows, u, before + after);
    }
}

/// The order in which updates arrive does not matter: where no two of them
/// are for the same cell, the rows end up the same after any rearrangement of
/// the updates.
pub proof fn lemma_order_is_irrelevant(
    rows: Seq<RowView>,
    a: Seq<CellUpdateView>,
    b: Seq<CellUpdateView>,
)
    requires
        rearranged(a, b),
        all_different(a),
    ensures
        apply_all(rows, a) == apply_all(rows, b),
    decreases a.len(),
{
    if a.len() > 0 {
        let u = a[0];
        let j = choose|j: int|
            0 <= j < b.len() && #[trigger] b[j] == a[0] && rearranged(a.drop_first(), b.remove(j));
        let before = b.take(j);
        let after = b.skip(j + 1);
        assert(b =~= before + seq![u] + after);
        assert(b.remove(j) =~= before + after);
        assert forall|k: int| 0 <= k < before.len() implies different_cells(
            u,
            #[trigger] before[k],
        ) by {
            assert((before + after)[k] == before[k]);
            lemma_rearranged_member(a.drop_first(), before + after, k);
            let m = choose|m: int|
                0 <= m < a.drop_first().len() && a.drop_first()[m] == (before + after)[k];
            assert(a[m + 1] == before[k]);
            assert(different_cells(a[0], a[m + 1]));
        }
        lemma_move_to_front(rows, before, u, after);
        lemma_apply_all_cons(rows, u, before + after);
        assert(a =~= seq![u] + a.drop_first());
        assert forall|i: int, k: int| 0 <= i < k < a.drop_first().len() implies different_cells(
            #[trigger] a.drop_first()[i],
            #[trigger] a.drop_first()[k],
        ) by {
            assert(a.drop_first()[i] == a[i + 1] && a.drop_first()[k] == a[k + 1]);
        }
        lemma_order_is_irrelevant(apply_update(rows, u), a.drop_first(), before + after);
    } else {
        assert(b =~= a);
    }
}

} // verus!
