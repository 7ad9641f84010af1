//! Rows with ids, and the facts about sequences of rows that the store's
//! invariant rests on.
use vstd::prelude::*;

verus! {

/// A row of a relation: it has an id.
pub trait Row {
    spec fn row_id(&self) -> i64;
}

/// The ids grow strictly along the sequence.
pub open spec fn ids_ascend<A: Row>(rows: Seq<A>) -> bool {
    forall|i: int, j: int|
        #![trigger rows[i], rows[j]]
        0 <= i < j < rows.len() ==> rows[i].row_id() < rows[j].row_id()
}

/// Every id is positive and below `next`.
pub open spec fn ids_below<A: Row>(rows: Seq<A>, next: i64) -> bool {
    forall|i: int| 0 <= i < rows.len() ==> 0 < (#[trigger] rows[i]).row_id() < next
}

/// Some row has the id.
pub open spec fn has_id<A: Row>(rows: Seq<A>, id: i64) -> bool {
    exists|i: int| 0 <= i < rows.len() && (#[trigger] rows[i]).row_id() == id
}

/// The position of a row with the id (of the only one, where ids ascend).
pub open spec fn index_of_id<A: Row>(rows: Seq<A>, id: i64) -> int {
    choose|i: int| 0 <= i < rows.len() && (#[trigger] rows[i]).row_id() == id
}

/// The row with the id, if there is one.
pub open spec fn find_id<A: Row>(rows: Seq<A>, id: i64) -> Option<A> {
    if has_id(rows, id) {
        Some(rows[index_of_id(rows, id)])
    } else {
        None
    }
}

/// Where ids ascend, the row at a position is the one found by its id.
pub proof fn lemma_find_at<A: Row>(rows: Seq<A>, i: int)
    requires
        ids_ascend(rows),
        0 <= i < rows.len(),
    ensures
        has_id(rows, rows[i].row_id()),
        index_of_id(rows, rows[i].row_id()) == i,
        find_id(rows, rows[i].row_id()) == Some(rows[i]),
{
    let id = rows[i].row_id();
    let k = index_of_id(rows, id);
    assert(0 <= k < rows.len() && rows[k].row_id() == id);
    if k < i {
        assert(rows[k].row_id() < rows[i].row_id());
    } else if i < k {
        assert(rows[i].row_id() < rows[k].row_id());
    }
}

/// A filter keeps rows of the sequence only, and only those that pass.
pub proof fn lemma_filter_members<A>(rows: Seq<A>, pred: spec_fn(A) -> bool)
    ensures
        forall|i: int|
            0 <= i < rows.filter(pred).len() ==> rows.contains(#[trigger] rows.filter(pred)[i])
                && pred(rows.filter(pred)[i]),
        forall|i: int|
            0 <= i < rows.len() && pred(rows[i]) ==> rows.filter(pred).contains(#[trigger] rows[i]),
        rows.filter(pred).len() <= rows.len(),
    decreases rows.len(),
{
    reveal(Seq::filter);
    let out = rows.filter(pred);
    if rows.len() > 0 {
        let front = rows.drop_last();
        lemma_filter_members(front, pred);
        assert forall|i: int| 0 <= i < out.len() implies rows.contains(#[trigger] out[i]) && pred(
            out[i],
        ) by {
            if i < front.filter(pred).len() {
                assert(out[i] == front.filter(pred)[i]);
                let k = choose|k: int| 0 <= k < front.len() && front[k] == out[i];
                assert(rows[k] == out[i]);
            } else {
                assert(out[i] == rows.last());
                assert(rows[rows.len() - 1] == out[i]);
            }
        }
        assert forall|i: int| 0 <= i < rows.len() && pred(rows[i]) implies out.contains(
            #[trigger] rows[i],
        ) by {
            if i < front.len() {
                assert(front[i] == rows[i]);
                let k = choose|k: int|
                    0 <= k < front.filter(pred).len() && front.filter(pred)[k] == rows[i];
                assert(out[k] == rows[i]);
            } else {
                assert(out[out.len() - 1] == rows[i]);
            }
        }
    }
}

/// A filter keeps the ids ascending and within their bound.
pub proof fn lemma_filter_keeps_ids<A: Row>(rows: Seq<A>, pred: spec_fn(A) -> bool, next: i64)
    requires
        ids_ascend(rows),
        ids_below(rows, next),
    ensures
        ids_ascend(rows.filter(pred)),
        ids_below(rows.filter(pred), next),
    decreases rows.len(),
{
    reveal(Seq::filter);
    let out = rows.filter(pred);
    lemma_filter_members(rows, pred);
    assert forall|i: int| 0 <= i < out.len() implies 0 < (#[trigger] out[i]).row_id() < next by {
        let k = choose|k: int| 0 <= k < rows.len() && rows[k] == out[i];
        assert(0 < rows[k].row_id() < next);
    }
    if rows.len() > 0 {
        let front = rows.drop_last();
        assert(ids_ascend(front)) by {
            assert forall|i: int, j: int|
                #![trigger front[i], front[j]]
                0 <= i < j < front.len() implies front[i].row_id() < front[j].row_id() by {
                assert(rows[i].row_id() < rows[j].row_id());
            }
        }
        assert(ids_below(front, next)) by {
            assert forall|i: int| 0 <= i < front.len() implies 0 < (#[trigger] front[i]).row_id()
                < next by {
                assert(0 < rows[i].row_id() < next);
            }
        }
        lemma_filter_keeps_ids(front, pred, next);
        lemma_filter_members(front, pred);
        let kept = front.filter(pred);
        assert forall|i: int, j: int|
            #![trigger out[i], out[j]]
            0 <= i < j < out.len() implies out[i].row_id() < out[j].row_id() by {
            if j < kept.len() {
                assert(kept[i].row_id() < kept[j].row_id());
            } else {
                assert(out[j] == rows.last());
                assert(out[i] == kept[i]);
                let k = choose|k: int| 0 <= k < front.len() && front[k] == kept[i];
                assert(rows[k].row_id() < rows[rows.len() - 1].row_id());
            }
        }
    }
}

/// A row that passes the filter is still found by its id afterwards, and a
/// row found afterwards was there before.
pub proof fn lemma_filter_find<A: Row>(rows: Seq<A>, pred: spec_fn(A) -> bool, id: i64)
    requires
        ids_ascend(rows),
    ensures
        find_id(rows.filter(pred), id) == if has_id(rows, id) && pred(
            rows[index_of_id(rows, id)],
        ) {
            find_id(rows, id)
        } else {
            None
        },
{
    let out = rows.filter(pred);
    lemma_filter_members(rows, pred);
    if has_id(out, id) {
        let k = index_of_id(out, id);
        assert(0 <= k < out.len() && out[k].row_id() == id);
        let m = choose|m: int| 0 <= m < rows.len() && rows[m] == out[k];
        lemma_find_at(rows, m);
        assert(pred(out[k]));
    }
    if has_id(rows, id) && pred(rows[index_of_id(rows, id)]) {
        let m = index_of_id(rows, id);
        assert(0 <= m < rows.len() && rows[m].row_id() == id);
        assert(out.contains(rows[m]));
        let k = choose|k: int| 0 <= k < out.len() && out[k] == rows[m];
        assert(out[k].row_id() == id);
        let k2 = index_of_id(out, id);
        assert(0 <= k2 < out.len() && out[k2].row_id() == id);
        let m2 = choose|m2: int| 0 <= m2 < rows.len() && rows[m2] == out[k2];
        lemma_find_at(rows, m2);
        lemma_find_at(rows, m);
    }
}

/// Appending a row with a fresh id keeps the ids ascending; the new row is
/// found by its id, every other id as before.
pub proof fn lemma_push_row<A: Row>(rows: Seq<A>, row: A, next: i64)
    requires
        ids_ascend(rows),
        ids_below(rows, next),
        row.row_id() == next,
        0 < next < i64::MAX,
    ensures
        ids_ascend(rows.push(row)),
        ids_below(rows.push(row), (next + 1) as i64),
        forall|id: i64|
            #[trigger] find_id(rows.push(row), id) == if id == next {
                Some(row)
            } else {
                find_id(rows, id)
            },
{
    let out = rows.push(row);
    assert(ids_ascend(out)) by {
        assert forall|i: int, j: int|
            #![trigger out[i], out[j]]
            0 <= i < j < out.len() implies out[i].row_id() < out[j].row_id() by {
            if j < rows.len() {
                assert(rows[i].row_id() < rows[j].row_id());
            } else {
                assert(0 < rows[i].row_id() < next);
            }
        }
    }
    assert forall|i: int| 0 <= i < out.len() implies 0 < (#[trigger] out[i]).row_id() < next
        + 1 by {
        if i < rows.len() {
            assert(0 < rows[i].row_id() < next);
        }
    }
    assert forall|id: i64|
        #[trigger] find_id(out, id) == if id == next {
            Some(row)
        } else {
            find_id(rows, id)
        } by {
        if id == next {
            lemma_find_at(out, rows.len() as int);
        } else {
            if has_id(rows, id) {
                let m = index_of_id(rows, id);
                assert(0 <= m < rows.len() && rows[m].row_id() == id);
                assert(out[m] == rows[m]);
                lemma_find_at(out, m);
                lemma_find_at(rows, m);
            }
            if has_id(out, id) {
                let k = index_of_id(out, id);
                assert(0 <= k < out.len() && out[k].row_id() == id);
                assert(k < rows.len());
                assert(rows[k].row_id() == id);
            }
        }
    }
}

/// Filtering twice by tests that exclude each other leaves nothing.
pub proof fn lemma_filter_disjoint<A>(rows: Seq<A>, p: spec_fn(A) -> bool, q: spec_fn(A) -> bool)
    requires
        forall|x: A| !(#[trigger] p(x) && q(x)),
    ensures
        rows.filter(p).filter(q) == Seq::<A>::empty(),
{
    let once = rows.filter(p);
    let twice = once.filter(q);
    lemma_filter_members(rows, p);
    lemma_filter_members(once, q);
    if twice.len() > 0 {
        let x = twice[0];
        assert(once.contains(x) && q(x));
        let k = choose|k: int| 0 <= k < once.len() && once[k] == x;
        assert(p(once[k]));
    }
    assert(twice =~= Seq::<A>::empty());
}

/// A filter by a test that lets pass all that a second test lets pass does
/// not show in the result of the second.
pub proof fn lemma_filter_absorb<A>(rows: Seq<A>, p: spec_fn(A) -> bool, q: spec_fn(A) -> bool)
    requires
        forall|x: A| #[trigger] q(x) ==> p(x),
    ensures
        rows.filter(p).filter(q) == rows.filter(q),
    decreases rows.len(),
{
    reveal(Seq::filter);
    if rows.len() > 0 {
        let front = rows.drop_last();
        let last = rows.last();
        lemma_filter_absorb(front, p, q);
        assert(rows =~= front.push(last));
        front.lemma_filter_push(last, p);
        front.lemma_filter_push(last, q);
        if p(last) {
            front.filter(p).lemma_filter_push(last, q);
        }
    }
}

/// Two tests that agree on every row of a sequence filter it alike.
pub proof fn lemma_filter_agree<A>(rows: Seq<A>, p: spec_fn(A) -> bool, q: spec_fn(A) -> bool)
    requires
        forall|i: int| 0 <= i < rows.len() ==> p(#[trigger] rows[i]) == q(rows[i]),
    ensures
        rows.filter(p) == rows.filter(q),
    decreases rows.len(),
{
    reveal(Seq::filter);
    if rows.len() > 0 {
        let front = rows.drop_last();
        assert forall|i: int| 0 <= i < front.len() implies p(#[trigger] front[i]) == q(
            front[i],
        ) by {
            assert(front[i] == rows[i]);
        }
        lemma_filter_agree(front, p, q);
        assert(p(rows[rows.len() - 1]) == q(rows[rows.len() - 1]));
    }
}

/// Where ids ascend, taking out the row at a position takes out the row
/// with its id and no other.
pub proof fn lemma_remove_row<A: Row>(rows: Seq<A>, i: int, next: i64)
    requires
        ids_ascend(rows),
        ids_below(rows, next),
        0 <= i < rows.len(),
    ensures
        ids_ascend(rows.remove(i)),
        ids_below(rows.remove(i), next),
        forall|id: i64|
            find_id(rows.remove(i), id) == if id == rows[i].row_id() {
                None
            } else {
                #[trigger] find_id(rows, id)
            },
{
    let out = rows.remove(i);
    assert forall|a: int, b: int|
        #![trigger out[a], out[b]]
        0 <= a < b < out.len() implies out[a].row_id() < out[b].row_id() by {
        let a0 = if a < i { a } else { a + 1 };
        let b0 = if b < i { b } else { b + 1 };
        assert(rows[a0].row_id() < rows[b0].row_id());
    }
    assert forall|a: int| 0 <= a < out.len() implies 0 < (#[trigger] out[a]).row_id() < next by {
        let a0 = if a < i { a } else { a + 1 };
        assert(0 < rows[a0].row_id() < next);
    }
    assert forall|id: i64|
        find_id(out, id) == if id == rows[i].row_id() {
            None
        } else {
            #[trigger] find_id(rows, id)
        } by {
        if has_id(out, id) {
            let a = index_of_id(out, id);
            assert(0 <= a < out.len() && out[a].row_id() == id);
            let a0 = if a < i { a } else { a + 1 };
            assert(rows[a0].row_id() == id);
            lemma_find_at(rows, a0);
            lemma_find_at(rows, i);
            lemma_find_at(out, a);
        }
        if id != rows[i].row_id() && has_id(rows, id) {
            let m = index_of_id(rows, id);
            assert(0 <= m < rows.len() && rows[m].row_id() == id);
            let a = if m < i { m } else { m - 1 };
            assert(out[a] == rows[m]);
            lemma_find_at(out, a);
            lemma_find_at(rows, m);
        }
    }
}

/// The rows before the last have ascending ids, and none has the id of the
/// last.
pub proof fn lemma_front_ids<A: Row>(rows: Seq<A>)
    requires
        ids_ascend(rows),
        rows.len() > 0,
    ensures
        ids_ascend(rows.drop_last()),
        !has_id(rows.drop_last(), rows.last().row_id()),
{
    let front = rows.drop_last();
    assert forall|i: int, j: int|
        #![trigger front[i], front[j]]
        0 <= i < j < front.len() implies front[i].row_id() < front[j].row_id() by {
        assert(rows[i].row_id() < rows[j].row_id());
    }
    if has_id(front, rows.last().row_id()) {
        let k = index_of_id(front, rows.last().row_id());
        assert(0 <= k < front.len() && front[k].row_id() == rows.last().row_id());
        assert(rows[k].row_id() < rows[rows.len() - 1].row_id());
    }
}

/// The first row that passes a test is the first row of the filter.
pub proof fn lemma_filter_first<A>(rows: Seq<A>, pred: spec_fn(A) -> bool, i: int)
    requires
        0 <= i < rows.len(),
        pred(rows[i]),
        forall|k: int| 0 <= k < i ==> !pred(#[trigger] rows[k]),
    ensures
        rows.filter(pred).len() > 0,
        rows.filter(pred)[0] == rows[i],
    decreases rows.len(),
{
    reveal(Seq::filter);
    let front = rows.drop_last();
    if i == rows.len() - 1 {
        lemma_filter_none(front, pred);
    } else {
        lemma_filter_first(front, pred, i);
    }
}

/// Where no row passes, the filter is empty.
pub proof fn lemma_filter_none<A>(rows: Seq<A>, pred: spec_fn(A) -> bool)
    requires
        forall|k: int| 0 <= k < rows.len() ==> !pred(#[trigger] rows[k]),
    ensures
        rows.filter(pred) == Seq::<A>::empty(),
{
    lemma_filter_members(rows, pred);
    let out = rows.filter(pred);
    if out.len() > 0 {
        let k = choose|k: int| 0 <= k < rows.len() && rows[k] == out[0];
        assert(pred(out[0]));
    }
    assert(out =~= Seq::<A>::empty());
}

/// Appending rows whose ids count up from `next` keeps the ids ascending;
/// the rows from before are found as before.
pub proof fn lemma_append_rows<A: Row>(rows: Seq<A>, more: Seq<A>, next: i64)
    requires
        ids_ascend(rows),
        ids_below(rows, next),
        0 < next,
        next + more.len() <= i64::MAX,
        forall|k: int| 0 <= k < more.len() ==> (#[trigger] more[k]).row_id() == next + k,
    ensures
        ids_ascend(rows + more),
        ids_below(rows + more, (next + more.len()) as i64),
        forall|id: i64|
            has_id(rows, id) ==> #[trigger] find_id(rows + more, id) == find_id(rows, id),
        forall|k: int|
            0 <= k < more.len() ==> find_id(rows + more, (#[trigger] more[k]).row_id()) == Some(
                more[k],
            ),
{
    let out = rows + more;
    assert forall|i: int, j: int|
        #![trigger out[i], out[j]]
        0 <= i < j < out.len() implies out[i].row_id() < out[j].row_id() by {
        if j < rows.len() {
            assert(rows[i].row_id() < rows[j].row_id());
        } else if i < rows.len() {
            assert(0 < rows[i].row_id() < next);
            assert(out[j] == more[j - rows.len()]);
        } else {
            assert(out[i] == more[i - rows.len()]);
            assert(out[j] == more[j - rows.len()]);
        }
    }
    assert forall|i: int| 0 <= i < out.len() implies 0 < (#[trigger] out[i]).row_id() < next
        + more.len() by {
        if i < rows.len() {
            assert(0 < rows[i].row_id() < next);
        } else {
            assert(out[i] == more[i - rows.len()]);
        }
    }
    assert forall|id: i64| has_id(rows, id) implies #[trigger] find_id(out, id) == find_id(
        rows,
        id,
    ) by {
        let m = index_of_id(rows, id);
        assert(0 <= m < rows.len() && rows[m].row_id() == id);
        assert(out[m] == rows[m]);
        lemma_find_at(out, m);
        lemma_find_at(rows, m);
    }
    assert forall|k: int| 0 <= k < more.len() implies find_id(
        out,
        (#[trigger] more[k]).row_id(),
    ) == Some(more[k]) by {
        assert(out[rows.len() + k] == more[k]);
        lemma_find_at(out, rows.len() + k);
    }
}

/// Where every row passes, the filter keeps the sequence as it is.
pub proof fn lemma_filter_all<A>(rows: Seq<A>, pred: spec_fn(A) -> bool)
    requires
        forall|k: int| 0 <= k < rows.len() ==> pred(#[trigger] rows[k]),
    ensures
        rows.filter(pred) == rows,
    decreases rows.len(),
{
    reveal(Seq::filter);
    if rows.len() > 0 {
        let front = rows.drop_last();
        assert forall|k: int| 0 <= k < front.len() implies pred(#[trigger] front[k]) by {
            assert(front[k] == rows[k]);
        }
        lemma_filter_all(front, pred);
        assert(pred(rows[rows.len() - 1]));
        assert(front.push(rows.last()) =~= rows);
    }
}

/// What holds of the ids of rows holds of the rows.
pub proof fn lemma_ids_of_rows<A: Row>(rows: Seq<A>, ids: Seq<i64>, next: i64)
    requires
        ids.len() == rows.len(),
        forall|k: int| 0 <= k < ids.len() ==> #[trigger] ids[k] == rows[k].row_id(),
    ensures
        (ids_ascend(rows) && ids_below(rows, next)) == ((forall|i: int, j: int|
            0 <= i < j < ids.len() ==> ids[i] < ids[j]) && (forall|i: int|
            0 <= i < ids.len() ==> 0 < #[trigger] ids[i] < next)),
{
    if ids_ascend(rows) && ids_below(rows, next) {
        assert forall|i: int, j: int| 0 <= i < j < ids.len() implies ids[i] < ids[j] by {
            assert(rows[i].row_id() < rows[j].row_id());
        }
        assert forall|i: int| 0 <= i < ids.len() implies 0 < #[trigger] ids[i] < next by {
            assert(0 < rows[i].row_id() < next);
        }
    }
    if (forall|i: int, j: int| 0 <= i < j < ids.len() ==> ids[i] < ids[j]) && (forall|i: int|
        0 <= i < ids.len() ==> 0 < #[trigger] ids[i] < next) {
        assert forall|i: int, j: int|
            #![trigger rows[i], rows[j]]
            0 <= i < j < rows.len() implies rows[i].row_id() < rows[j].row_id() by {
            assert(ids[i] < ids[j]);
        }
        assert forall|i: int| 0 <= i < rows.len() implies 0 < (#[trigger] rows[i]).row_id()
            < next by {
            assert(0 < ids[i] < next);
        }
    }
}

/// Filtering twice is filtering once by both tests.
pub proof fn lemma_filter_twice<A>(
    rows: Seq<A>,
    p: spec_fn(A) -> bool,
    q: spec_fn(A) -> bool,
    both: spec_fn(A) -> bool,
)
    requires
        forall|x: A| #[trigger] both(x) == (p(x) && q(x)),
    ensures
        rows.filter(p).filter(q) == rows.filter(both),
    decreases rows.len(),
{
    reveal(Seq::filter);
    if rows.len() > 0 {
        let front = rows.drop_last();
        let last = rows.last();
        lemma_filter_twice(front, p, q, both);
        assert(rows =~= front.push(last));
        front.lemma_filter_push(last, p);
        front.lemma_filter_push(last, both);
        if p(last) {
            front.filter(p).lemma_filter_push(last, q);
        }
    }
}

/// A filter that lets pass every row of the sequence that a second test
/// lets pass does not show in the result of the second.
pub proof fn lemma_filter_apart<A>(rows: Seq<A>, p: spec_fn(A) -> bool, q: spec_fn(A) -> bool)
    requires
        forall|i: int| 0 <= i < rows.len() && q(#[trigger] rows[i]) ==> p(rows[i]),
    ensures
        rows.filter(p).filter(q) == rows.filter(q),
    decreases rows.len(),
{
    reveal(Seq::filter);
    if rows.len() > 0 {
        let front = rows.drop_last();
        let last = rows.last();
        assert forall|i: int| 0 <= i < front.len() && q(#[trigger] front[i]) implies p(
            front[i],
        ) by {
            assert(front[i] == rows[i]);
        }
        lemma_filter_apart(front, p, q);
        assert(rows =~= front.push(last));
        front.lemma_filter_push(last, p);
        front.lemma_filter_push(last, q);
        assert(q(rows[rows.len() - 1]) ==> p(rows[rows.len() - 1]));
        if p(last) {
            front.filter(p).lemma_filter_push(last, q);
        }
    }
}

} // verus!
