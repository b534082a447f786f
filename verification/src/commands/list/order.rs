//! The order in which rows are shown: the most recent commit first.
//!
//! A row keeps its index for as long as the listing runs; the order of display
//! is a list of indices beside the rows, so that updates still find their row.

use vstd::prelude::*;

verus! {

/// Whether the row `i` is shown before the row `j`: its commit is more recent,
/// or as recent and the row comes first.
pub open spec fn shown_before(ts: Seq<i64>, i: int, j: int) -> bool {
    ts[i] > ts[j] || (ts[i] == ts[j] && i < j)
}

/// Where a row with commit time `t` goes into `order`: before the first row
/// with an older commit, or at the end.
pub open spec fn insert_pos(order: Seq<usize>, ts: Seq<i64>, t: i64) -> int
    decreases order.len(),
{
    if order.len() == 0 {
        0
    } else if ts[order[0] as int] < t {
        0
    } else {
        1 + insert_pos(order.drop_first(), ts, t)
    }
}

/// The indices of the rows with commit times `ts`, most recent commit first;
/// rows with the same time stay in the order of their indices.
pub open spec fn recency_order(ts: Seq<i64>) -> Seq<usize>
    decreases ts.len(),
{
    if ts.len() == 0 {
        seq![]
    } else {
        let before = recency_order(ts.drop_last());
        before.insert(insert_pos(before, ts, ts.last()), (ts.len() - 1) as usize)
    }
}

/// Whether `order` lists each index below `n` once and shows every row before
/// the rows that follow it.
pub open spec fn is_recency_order(order: Seq<usize>, ts: Seq<i64>, n: int) -> bool {
    &&& order.len() == n
    &&& forall|k: int| 0 <= k < order.len() ==> (#[trigger] order[k]) < n
    &&& forall|i: usize| i < n ==> #[trigger] order.contains(i)
    &&& forall|a: int, b: int|
        0 <= a < b < order.len() ==> shown_before(ts, #[trigger] order[a] as int, #[trigger] order[b] as int)
}

proof fn lemma_insert_pos(order: Seq<usize>, ts: Seq<i64>, t: i64)
    ensures
        0 <= insert_pos(order, ts, t) <= order.len(),
        forall|k: int| 0 <= k < insert_pos(order, ts, t) ==> ts[(#[trigger] order[k]) as int] >= t,
        insert_pos(order, ts, t) < order.len() ==> ts[order[insert_pos(order, ts, t)] as int] < t,
    decreases order.len(),
{
    if order.len() > 0 && !(ts[order[0] as int] < t) {
        let rest = order.drop_first();
        lemma_insert_pos(rest, ts, t);
        let p = insert_pos(rest, ts, t);
        assert forall|k: int| 0 <= k < p + 1 implies ts[(#[trigger] order[k]) as int] >= t by {
            if k > 0 {
                assert(order[k] == rest[k - 1]);
            }
        }
        if p < rest.len() {
            assert(order[p + 1] == rest[p]);
        }
    }
}

/// The order of display lists every row once, the most recent commit first,
/// and leaves rows with the same commit time in the order of their indices.
pub proof fn lemma_recency_order(ts: Seq<i64>)
    requires
        ts.len() <= usize::MAX,
    ensures
        is_recency_order(recency_order(ts), ts, ts.len() as int),
    decreases ts.len(),
{
    if ts.len() > 0 {
        let n = ts.len() as int;
        let front = ts.drop_last();
        lemma_recency_order(front);
        let before = recency_order(front);
        let t = ts.last();
        assert forall|k: int| 0 <= k < before.len() implies ts[(#[trigger] before[k]) as int]
            == front[before[k] as int] by {}
        assert(insert_pos(before, ts, t) == insert_pos(before, front, t)) by {
            lemma_insert_pos_same(before, ts, front, t);
        }
        lemma_insert_pos(before, ts, t);
        let p = insert_pos(before, ts, t);
        let order = before.insert(p, (n - 1) as usize);
        assert(order == recency_order(ts));
        assert forall|i: usize| i < n implies #[trigger] order.contains(i) by {
            if i == n - 1 {
                assert(order[p] == i);
            } else {
                assert(before.contains(i));
                let k = choose|k: int| 0 <= k < before.len() && before[k] == i;
                if k < p {
                    assert(order[k] == i);
                } else {
                    assert(order[k + 1] == i);
                }
            }
        }
        assert forall|a: int, b: int| 0 <= a < b < order.len() implies shown_before(
            ts,
            #[trigger] order[a] as int,
            #[trigger] order[b] as int,
        ) by {
            let ka = if a < p {
                a
            } else {
                a - 1
            };
            let kb = if b < p {
                b
            } else {
                b - 1
            };
            if a == p {
                // the new row before an older one
                assert(order[b] == before[b - 1]);
                lemma_sorted_after(before, front, p, b - 1);
            } else if b == p {
                assert(order[a] == before[a]);
            } else {
                assert(order[a] == before[ka]);
                assert(order[b] == before[kb]);
                assert(shown_before(front, before[ka] as int, before[kb] as int));
            }
        }
    }
}

proof fn lemma_insert_pos_same(order: Seq<usize>, ts: Seq<i64>, front: Seq<i64>, t: i64)
    requires
        forall|k: int| 0 <= k < order.len() ==> (#[trigger] order[k]) < front.len(),
        front.len() <= ts.len(),
        forall|i: int| 0 <= i < front.len() ==> ts[i] == front[i],
    ensures
        insert_pos(order, ts, t) == insert_pos(order, front, t),
    decreases order.len(),
{
    if order.len() > 0 {
        assert(order[0] < front.len());
        let rest = order.drop_first();
        assert forall|k: int| 0 <= k < rest.len() implies (#[trigger] rest[k]) < front.len() by {
            assert(rest[k] == order[k + 1]);
        }
        lemma_insert_pos_same(rest, ts, front, t);
    }
}

/// In a sorted order, no row after position `p` has a more recent commit than
/// the row at `p`.
proof fn lemma_sorted_after(order: Seq<usize>, ts: Seq<i64>, p: int, k: int)
    requires
        0 <= p <= k < order.len(),
        forall|a: int, b: int|
            0 <= a < b < order.len() ==> shown_before(ts, #[trigger] order[a] as int, #[trigger] order[b] as int),
    ensures
        ts[order[k] as int] <= ts[order[p] as int],
{
    if p < k {
        assert(shown_before(ts, order[p] as int, order[k] as int));
    }
}

/// Computes the order of display for rows with the commit times `ts`.
pub fn display_order(ts: &Vec<i64>) -> (order: Vec<usize>)
    ensures
        order@ == recency_order(ts@),
        is_recency_order(order@, ts@, ts.len() as int),
{
    let n = ts.len();
    proof {
        lemma_recency_order(ts@);
    }
    let mut order: Vec<usize> = Vec::new();
    let mut i: usize = 0;
    assert(ts@.take(0) =~= Seq::<i64>::empty());
    while i < ts.len()
        invariant
            i <= ts.len(),
            order@ == recency_order(ts@.take(i as int)),
            order.len() == i,
            forall|k: int| 0 <= k < order.len() ==> (#[trigger] order[k]) < i,
        decreases ts.len() - i,
    {
        let ghost front = ts@.take(i as int);
        let ghost upto = ts@.take(i + 1);
        assert(upto.drop_last() =~= front);
        assert(upto.last() == ts[i as int]);
        let t = ts[i];
        let mut p: usize = 0;
        assert(order@.skip(0) =~= order@);
        while p < order.len() && ts[order[p]] >= t
            invariant
                p <= order.len(),
                order.len() == i,
                i < ts.len(),
                upto == ts@.take(i + 1),
                t == ts[i as int],
                forall|k: int| 0 <= k < order.len() ==> (#[trigger] order[k]) < i,
                insert_pos(order@, upto, t) == p + insert_pos(order@.skip(p as int), upto, t),
            decreases order.len() - p,
        {
            assert(order@.skip(p as int)[0] == order@[p as int]);
            assert(order@.skip(p as int).drop_first() =~= order@.skip(p + 1));
            p += 1;
        }
        proof {
            if p < order.len() {
                assert(order@.skip(p as int)[0] == order@[p as int]);
            }
        }
        let ghost before = order@;
        order.insert(p, i);
        assert(order@ == recency_order(upto));
        assert forall|k: int| 0 <= k < order.len() implies (#[trigger] order[k]) < i + 1 by {
            if k < p {
                assert(order[k] == before[k]);
            } else if k > p {
                assert(order[k] == before[k - 1]);
            }
        }
        i += 1;
    }
    assert(ts@.take(ts.len() as int) =~= ts@);
    order
}

} // verus!
