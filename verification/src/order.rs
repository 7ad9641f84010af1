//! Ordering rows for display: a stable insertion sort over any row type
//! that says which of two rows has to come first.
use vstd::prelude::*;

verus! {

/// A row type with an order of display. The order is a strict weak order
/// on the views: no two rows have to come before each other, and a row
/// that has to come before another is placed relative to every third.
pub trait Ranked: View + Sized {
    /// `a` has to come before `b`.
    spec fn ranks_before(a: Self::V, b: Self::V) -> bool;

    proof fn rank_laws(a: Self::V, b: Self::V, c: Self::V)
        ensures
            !(Self::ranks_before(a, b) && Self::ranks_before(b, a)),
            Self::ranks_before(a, b) ==> Self::ranks_before(a, c) || Self::ranks_before(c, b),
    ;

    fn goes_before(&self, other: &Self) -> (r: bool)
        ensures
            r == Self::ranks_before(self@, other@),
    ;
}

/// The views of the rows, in order.
pub open spec fn views_of<T: View>(rows: Seq<T>) -> Seq<T::V> {
    rows.map_values(|row: T| row@)
}

/// No row stands behind one that it has to come before.
pub open spec fn in_rank_order<T: Ranked>(views: Seq<T::V>) -> bool {
    forall|i: int, j: int|
        #![trigger views[i], views[j]]
        0 <= i < j < views.len() ==> !T::ranks_before(views[j], views[i])
}

/// `sorted` holds the rows of `rows`, each as often as `rows` does, in
/// their order of display.
pub open spec fn is_ranking_of<T: Ranked>(sorted: Seq<T::V>, rows: Seq<T::V>) -> bool {
    in_rank_order::<T>(sorted) && sorted.to_multiset() == rows.to_multiset()
}

/// Putting a value into a sequence adds it to what the sequence holds.
pub proof fn lemma_insert_to_multiset<A>(s: Seq<A>, i: int, x: A)
    requires
        0 <= i <= s.len(),
    ensures
        s.insert(i, x).to_multiset() == s.to_multiset().insert(x),
{
    broadcast use vstd::seq_lib::group_to_multiset_ensures;

    let t = s.insert(i, x);
    assert(t.remove(i) =~= s);
    assert(t[i] == x);
    vstd::seq_lib::to_multiset_remove(t, i);
    assert(t.to_multiset().count(x) > 0) by {
        assert(t.contains(x));
    }
    assert(t.to_multiset() =~= t.to_multiset().remove(x).insert(x));
}

/// Puts a row into rows that stand in their order, behind the rows that
/// need not come after it.
fn place<T: Ranked>(sorted: &mut Vec<T>, row: T)
    requires
        in_rank_order::<T>(views_of(old(sorted)@)),
    ensures
        in_rank_order::<T>(views_of(final(sorted)@)),
        views_of(final(sorted)@).to_multiset() == views_of(old(sorted)@).to_multiset().insert(
            row@,
        ),
{
    let ghost before = views_of(sorted@);
    let mut j: usize = 0;
    while j < sorted.len() && !row.goes_before(&sorted[j])
        invariant
            j <= sorted.len(),
            *sorted == *old(sorted),
            before == views_of(sorted@),
            forall|i: int| 0 <= i < j ==> !T::ranks_before(row@, #[trigger] before[i]),
        decreases sorted.len() - j,
    {
        j += 1;
    }
    sorted.insert(j, row);
    proof {
        let after = views_of(sorted@);
        assert(after =~= before.insert(j as int, row@));
        lemma_insert_to_multiset(before, j as int, row@);
        assert forall|a: int, b: int|
            #![trigger after[a], after[b]]
            0 <= a < b < after.len() implies !T::ranks_before(after[b], after[a]) by {
            if a == j {
                // the row against a later one
                let later = before[b - 1];
                assert(T::ranks_before(row@, before[j as int]));
                T::rank_laws(row@, before[j as int], later);
                T::rank_laws(later, row@, before[j as int]);
                if b - 1 > j {
                    assert(!T::ranks_before(before[b - 1], before[j as int]));
                }
            } else if b == j {
                assert(!T::ranks_before(row@, before[a]));
            } else {
                let a0 = if a < j { a } else { a - 1 };
                let b0 = if b < j { b } else { b - 1 };
                assert(!T::ranks_before(before[b0], before[a0]));
            }
        }
    }
}

/// The rows in their order of display.
pub fn sort_by_rank<T: Ranked>(rows: Vec<T>) -> (sorted: Vec<T>)
    ensures
        is_ranking_of::<T>(views_of(sorted@), views_of(rows@)),
{
    let ghost all = rows@;
    let mut sorted: Vec<T> = Vec::new();
    proof {
        assert(views_of(sorted@) =~= views_of(all.take(0)));
    }
    for row in it: rows.into_iter()
        invariant
            it.seq() == all,
            in_rank_order::<T>(views_of(sorted@)),
            views_of(sorted@).to_multiset() == views_of(all.take(it.index())).to_multiset(),
    {
        proof {
            let k = it.index();
            assert(views_of(all.take(k + 1)) =~= views_of(all.take(k)).push(row@));
            vstd::seq_lib::to_multiset_build(views_of(all.take(k)), row@);
        }
        place(&mut sorted, row);
    }
    proof {
        assert(all.take(all.len() as int) =~= all);
    }
    sorted
}

} // verus!
