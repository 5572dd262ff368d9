//! Stable sorting.

use vstd::prelude::*;

verus! {

/// A type whose values have a place in a sorted list.
pub trait Ranked: DeepView {
    /// Whether `a` may stand before `b`.
    spec fn in_rank(a: Self::V, b: Self::V) -> bool;

    /// Whether `self` may stand before `other`.
    fn not_after(&self, other: &Self) -> (r: bool)
        ensures
            r == Self::in_rank(self.deep_view(), other.deep_view()),
    ;
}

/// The position behind the last item that may stand before `x`.
pub open spec fn place_of<A>(items: Seq<A>, x: A, in_rank: spec_fn(A, A) -> bool) -> int
    decreases items.len(),
{
    if items.len() == 0 || in_rank(items.last(), x) {
        items.len() as int
    } else {
        place_of(items.drop_last(), x, in_rank)
    }
}

/// The items in order; of items that may stand either way, the earlier one stays first.
pub open spec fn sorted_by<A>(items: Seq<A>, in_rank: spec_fn(A, A) -> bool) -> Seq<A>
    decreases items.len(),
{
    if items.len() == 0 {
        items
    } else {
        let before = sorted_by(items.drop_last(), in_rank);
        before.insert(place_of(before, items.last(), in_rank), items.last())
    }
}

/// Whether every item may stand before every later one.
pub open spec fn is_sorted<A>(items: Seq<A>, in_rank: spec_fn(A, A) -> bool) -> bool {
    forall|i: int, j: int|
        0 <= i < j < items.len() ==> in_rank(#[trigger] items[i], #[trigger] items[j])
}

/// Whether an order compares any two items and is transitive.
pub open spec fn is_order<A>(in_rank: spec_fn(A, A) -> bool) -> bool {
    &&& forall|a: A, b: A| #[trigger] in_rank(a, b) || in_rank(b, a)
    &&& forall|a: A, b: A, c: A|
        #[trigger] in_rank(a, b) && #[trigger] in_rank(b, c) ==> in_rank(a, c)
}

proof fn place_fits<A>(items: Seq<A>, x: A, in_rank: spec_fn(A, A) -> bool)
    ensures
        0 <= place_of(items, x, in_rank) <= items.len(),
        forall|i: int|
            place_of(items, x, in_rank) <= i < items.len() ==> !in_rank(#[trigger] items[i], x),
        place_of(items, x, in_rank) > 0 ==> in_rank(items[place_of(items, x, in_rank) - 1], x),
    decreases items.len(),
{
    if items.len() > 0 && !in_rank(items.last(), x) {
        let rest = items.drop_last();
        place_fits(rest, x, in_rank);
        assert forall|i: int|
            place_of(items, x, in_rank) <= i < items.len() implies !in_rank(
            #[trigger] items[i],
            x,
        ) by {
            if i < rest.len() {
                assert(rest[i] == items[i]);
            }
        }
    }
}

/// The place of an item lies within the list or right behind it.
pub proof fn place_is_within<A>(items: Seq<A>, x: A, in_rank: spec_fn(A, A) -> bool)
    ensures
        0 <= place_of(items, x, in_rank) <= items.len(),
{
    place_fits(items, x, in_rank);
}

/// Sorting keeps the items and only moves them.
pub proof fn sorting_keeps_items<A>(items: Seq<A>, in_rank: spec_fn(A, A) -> bool)
    ensures
        sorted_by(items, in_rank).to_multiset() == items.to_multiset(),
        sorted_by(items, in_rank).len() == items.len(),
    decreases items.len(),
{
    broadcast use vstd::seq_lib::group_to_multiset_ensures;

    if items.len() > 0 {
        let rest = items.drop_last();
        let before = sorted_by(rest, in_rank);
        sorting_keeps_items(rest, in_rank);
        place_fits(before, items.last(), in_rank);
        assert(items =~= rest.push(items.last()));
    }
}

/// Sorting by an order gives a sorted list.
pub proof fn sorting_sorts<A>(items: Seq<A>, in_rank: spec_fn(A, A) -> bool)
    requires
        is_order(in_rank),
    ensures
        is_sorted(sorted_by(items, in_rank), in_rank),
    decreases items.len(),
{
    if items.len() > 0 {
        let x = items.last();
        let before = sorted_by(items.drop_last(), in_rank);
        sorting_sorts(items.drop_last(), in_rank);
        place_fits(before, x, in_rank);
        let at = place_of(before, x, in_rank);
        let after = before.insert(at, x);
        assert forall|i: int, j: int| 0 <= i < j < after.len() implies in_rank(
            #[trigger] after[i],
            #[trigger] after[j],
        ) by {
            if i < at && j < at {
                assert(in_rank(before[i], before[j]));
            } else if i < at && j == at {
                if i < at - 1 {
                    assert(in_rank(before[i], before[at - 1]));
                }
                assert(in_rank(before[at - 1], x));
            } else if i < at && j > at {
                assert(in_rank(before[i], before[j - 1]));
            } else if i == at {
                assert(!in_rank(before[j - 1], x));
                assert(in_rank(x, before[j - 1]) || in_rank(before[j - 1], x));
            } else {
                assert(in_rank(before[i - 1], before[j - 1]));
            }
        }
    }
}

/// Sorts a list; of items that may stand either way, the earlier one stays first.
pub fn stable_sort<T: Ranked>(items: &mut Vec<T>)
    ensures
        final(items).deep_view() == sorted_by(
            old(items).deep_view(),
            |a: T::V, b: T::V| T::in_rank(a, b),
        ),
{
    let ghost in_rank = |a: T::V, b: T::V| T::in_rank(a, b);
    let ghost all = items.deep_view();
    let mut sorted: Vec<T> = Vec::new();
    let ghost mut done: int = 0;
    assert(all.take(0) =~= Seq::empty());
    assert(sorted.deep_view() =~= Seq::empty());
    while items.len() > 0
        invariant
            in_rank == (|a: T::V, b: T::V| T::in_rank(a, b)),
            0 <= done <= all.len(),
            items.deep_view() =~= all.skip(done),
            sorted.deep_view() =~= sorted_by(all.take(done), in_rank),
        decreases items@.len(),
    {
        let ghost waiting = items.deep_view();
        let ghost before = sorted.deep_view();
        let item = items.remove(0);
        let ghost x = item.deep_view();
        assert(x == waiting[0]);
        assert(items.deep_view() =~= waiting.skip(1));
        let mut at: usize = sorted.len();
        proof {
            assert(before.take(at as int) =~= before);
        }
        while at > 0 && !sorted[at - 1].not_after(&item)
            invariant
                in_rank == (|a: T::V, b: T::V| T::in_rank(a, b)),
                at <= sorted@.len(),
                before == sorted.deep_view(),
                x == item.deep_view(),
                place_of(before, x, in_rank) == place_of(before.take(at as int), x, in_rank),
            decreases at,
        {
            assert(before.take(at as int).drop_last() =~= before.take(at - 1));
            assert(before.take(at as int).last() == sorted@[at - 1].deep_view());
            at = at - 1;
        }
        proof {
            let part = before.take(at as int);
            if at > 0 {
                assert(part.last() == sorted@[at - 1].deep_view());
            }
            assert(place_of(part, x, in_rank) == at);
        }
        sorted.insert(at, item);
        assert(sorted.deep_view() =~= before.insert(at as int, x));
        proof {
            let next = all.take(done + 1);
            assert(next.drop_last() =~= all.take(done));
            assert(next.last() == x);
            done = done + 1;
        }
    }
    assert(all.take(done) =~= all);
    items.append(&mut sorted);
    assert(items.deep_view() =~= sorted_by(all, in_rank));
}

/// Sorting is stable: of items that may stand either way, each stays before those that came after
/// it.
pub proof fn sorting_is_stable<A>(items: Seq<A>, in_rank: spec_fn(A, A) -> bool, x: A)
    requires
        is_order(in_rank),
    ensures
        sorted_by(items, in_rank).filter(|y: A| in_rank(x, y) && in_rank(y, x)) == items.filter(
            |y: A| in_rank(x, y) && in_rank(y, x),
        ),
    decreases items.len(),
{
    let alike = |y: A| in_rank(x, y) && in_rank(y, x);
    reveal(Seq::filter);
    if items.len() > 0 {
        let rest = items.drop_last();
        let y = items.last();
        let before = sorted_by(rest, in_rank);
        sorting_is_stable(rest, in_rank, x);
        place_fits(before, y, in_rank);
        let at = place_of(before, y, in_rank);
        let head = before.take(at);
        let tail = before.skip(at);
        assert(before =~= head + tail);
        assert(before.insert(at, y) =~= head.push(y) + tail);
        Seq::filter_distributes_over_add(head, tail, alike);
        Seq::filter_distributes_over_add(head.push(y), tail, alike);
        assert(head.push(y).drop_last() =~= head);
        assert(rest.push(y) =~= items);
        if alike(y) {
            assert forall|i: int| 0 <= i < tail.len() implies !alike(#[trigger] tail[i]) by {
                assert(tail[i] == before[at + i]);
                assert(!in_rank(before[at + i], y));
                if alike(tail[i]) {
                    assert(in_rank(tail[i], x) && in_rank(x, y));
                }
            }
            nothing_is_kept(tail, alike);
            assert(head.filter(alike).push(y) + tail.filter(alike) =~= (head.filter(alike)
                + tail.filter(alike)).push(y));
        }
    }
}

proof fn nothing_is_kept<A>(items: Seq<A>, keep: spec_fn(A) -> bool)
    requires
        forall|i: int| 0 <= i < items.len() ==> !keep(#[trigger] items[i]),
    ensures
        items.filter(keep).len() == 0,
    decreases items.len(),
{
    reveal(Seq::filter);
    if items.len() > 0 {
        nothing_is_kept(items.drop_last(), keep);
    }
}

} // verus!
