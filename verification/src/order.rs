//! Sorting by time, newest first.

use vstd::multiset::*;
use vstd::prelude::*;
use vstd::seq_lib::*;

verus! {

/// A list sorted newest first with one more item, before the items that are as old as it or
/// older.
pub open spec fn place<T>(sorted: Seq<T>, item: T, time: spec_fn(T) -> int) -> Seq<T>
    decreases sorted.len(),
{
    if sorted.len() == 0 || time(sorted.last()) > time(item) {
        sorted.push(item)
    } else {
        place(sorted.drop_last(), item, time).push(sorted.last())
    }
}

/// The items newest first; items of one time keep their order.
pub open spec fn newest_first<T>(items: Seq<T>, time: spec_fn(T) -> int) -> Seq<T>
    decreases items.len(),
{
    if items.len() == 0 {
        items
    } else {
        place(newest_first(items.drop_first(), time), items[0], time)
    }
}

/// No item is newer than one before it.
pub open spec fn is_newest_first<T>(items: Seq<T>, time: spec_fn(T) -> int) -> bool {
    forall|i: int, j: int|
        0 <= i <= j < items.len() ==> time(#[trigger] items[i]) >= time(#[trigger] items[j])
}

proof fn lemma_place<T>(sorted: Seq<T>, item: T, time: spec_fn(T) -> int)
    requires
        is_newest_first(sorted, time),
    ensures
        is_newest_first(place(sorted, item, time), time),
        place(sorted, item, time).to_multiset() == sorted.to_multiset().insert(item),
        place(sorted, item, time).len() == sorted.len() + 1,
        forall|i: int| #![trigger place(sorted, item, time)[i]]
            0 <= i < place(sorted, item, time).len() ==> place(sorted, item, time)[i] == item || (
            sorted.len() > 0 && time(place(sorted, item, time)[i]) >= time(sorted.last())),
    decreases sorted.len(),
{
    broadcast use group_seq_properties;
    broadcast use group_to_multiset_ensures;

    let placed = place(sorted, item, time);
    if sorted.len() == 0 || time(sorted.last()) > time(item) {
        assert forall|i: int, j: int| 0 <= i <= j < placed.len() implies time(#[trigger] placed[i])
            >= time(#[trigger] placed[j]) by {
            if j == sorted.len() && i < j {
                assert(time(sorted[i]) >= time(sorted[sorted.len() - 1]));
            }
        }
    } else {
        let rest = sorted.drop_last();
        assert forall|i: int, j: int| 0 <= i <= j < rest.len() implies time(#[trigger] rest[i])
            >= time(#[trigger] rest[j]) by {
            assert(time(sorted[i]) >= time(sorted[j]));
        }
        lemma_place(rest, item, time);
        let inner = place(rest, item, time);
        assert forall|i: int| 0 <= i < inner.len() implies time(#[trigger] inner[i]) >= time(
            sorted.last(),
        ) by {
            if inner[i] != item {
                assert(time(sorted[rest.len() - 1]) >= time(sorted[sorted.len() - 1]));
            }
        }
        assert forall|i: int, j: int| 0 <= i <= j < placed.len() implies time(#[trigger] placed[i])
            >= time(#[trigger] placed[j]) by {
            if j < inner.len() {
                assert(time(inner[i]) >= time(inner[j]));
            } else if i < inner.len() {
                assert(time(inner[i]) >= time(sorted.last()));
            }
        }
        assert(sorted =~= rest.push(sorted.last()));
        assert(placed.to_multiset() =~= sorted.to_multiset().insert(item));
    }
}

/// Sorting newest first gives a list in which no item is newer than one before it, made of the
/// same items.
pub proof fn law_newest_first_sorts<T>(items: Seq<T>, time: spec_fn(T) -> int)
    ensures
        is_newest_first(newest_first(items, time), time),
        newest_first(items, time).to_multiset() == items.to_multiset(),
        newest_first(items, time).len() == items.len(),
    decreases items.len(),
{
    broadcast use group_seq_properties;
    broadcast use group_to_multiset_ensures;

    if items.len() > 0 {
        law_newest_first_sorts(items.drop_first(), time);
        lemma_place(newest_first(items.drop_first(), time), items[0], time);
        assert(items =~= seq![items[0]] + items.drop_first());
        lemma_multiset_commutative(seq![items[0]], items.drop_first());
        assert(seq![items[0]] =~= Seq::<T>::empty().push(items[0]));
        assert(newest_first(items, time).to_multiset() =~= items.to_multiset());
    }
}

/// Sorting commutes with a mapping that keeps the times.
pub proof fn lemma_newest_first_map<A, B>(
    items: Seq<A>,
    f: spec_fn(A) -> B,
    time: spec_fn(A) -> int,
    image_time: spec_fn(B) -> int,
)
    requires
        forall|i: int| 0 <= i < items.len() ==> time(#[trigger] items[i]) == image_time(
            f(items[i]),
        ),
    ensures
        newest_first(items.map_values(f), image_time) == newest_first(items, time).map_values(f),
        forall|i: int|
            0 <= i < newest_first(items, time).len() ==> items.contains(
                #[trigger] newest_first(items, time)[i],
            ),
    decreases items.len(),
{
    if items.len() > 0 {
        let rest = items.drop_first();
        assert forall|i: int| 0 <= i < rest.len() implies time(#[trigger] rest[i]) == image_time(
            f(rest[i]),
        ) by {
            assert(rest[i] == items[i + 1]);
        }
        lemma_newest_first_map(rest, f, time, image_time);
        assert(items.map_values(f).drop_first() =~= rest.map_values(f));
        let sorted = newest_first(rest, time);
        assert forall|i: int| 0 <= i < sorted.len() implies time(#[trigger] sorted[i])
            == image_time(f(sorted[i])) by {
            assert(rest.contains(sorted[i]));
        }
        assert(time(items[0]) == image_time(f(items[0])));
        lemma_place_map(sorted, items[0], f, time, image_time);
        assert forall|i: int| 0 <= i < newest_first(items, time).len() implies items.contains(
            #[trigger] newest_first(items, time)[i],
        ) by {
            let item = newest_first(items, time)[i];
            if item == items[0] {
                assert(items[0] == item);
            } else {
                assert(sorted.contains(item));
                let k = choose|k: int| 0 <= k < sorted.len() && sorted[k] == item;
                assert(rest.contains(sorted[k]));
                let m = choose|m: int| 0 <= m < rest.len() && rest[m] == item;
                assert(items[m + 1] == item);
            }
        }
    } else {
        assert(items.map_values(f) =~= newest_first(items, time).map_values(f));
    }
}

proof fn lemma_place_map<A, B>(
    sorted: Seq<A>,
    item: A,
    f: spec_fn(A) -> B,
    time: spec_fn(A) -> int,
    image_time: spec_fn(B) -> int,
)
    requires
        forall|i: int| 0 <= i < sorted.len() ==> time(#[trigger] sorted[i]) == image_time(
            f(sorted[i]),
        ),
        time(item) == image_time(f(item)),
    ensures
        place(sorted.map_values(f), f(item), image_time) == place(sorted, item, time).map_values(
            f,
        ),
        forall|i: int|
            0 <= i < place(sorted, item, time).len() ==> #[trigger] place(sorted, item, time)[i]
                == item || sorted.contains(place(sorted, item, time)[i]),
    decreases sorted.len(),
{
    let image = sorted.map_values(f);
    let placed = place(sorted, item, time);
    if sorted.len() == 0 || time(sorted.last()) > time(item) {
        assert(sorted.len() > 0 ==> time(sorted[sorted.len() - 1]) == image_time(image.last()));
        assert(place(image, f(item), image_time) =~= placed.map_values(f));
        assert forall|i: int| 0 <= i < placed.len() implies #[trigger] placed[i] == item
            || sorted.contains(placed[i]) by {
            if i < sorted.len() {
                assert(sorted[i] == placed[i]);
            }
        }
    } else {
        assert(time(sorted[sorted.len() - 1]) == image_time(image.last()));
        let rest = sorted.drop_last();
        assert forall|i: int| 0 <= i < rest.len() implies time(#[trigger] rest[i]) == image_time(
            f(rest[i]),
        ) by {
            assert(rest[i] == sorted[i]);
        }
        lemma_place_map(rest, item, f, time, image_time);
        assert(image.drop_last() =~= rest.map_values(f));
        assert(place(image, f(item), image_time) =~= placed.map_values(f));
        assert forall|i: int| 0 <= i < placed.len() implies #[trigger] placed[i] == item
            || sorted.contains(placed[i]) by {
            let inner = place(rest, item, time);
            if i < inner.len() {
                assert(inner[i] == placed[i]);
                if inner[i] != item {
                    let k = choose|k: int| 0 <= k < rest.len() && rest[k] == inner[i];
                    assert(sorted[k] == placed[i]);
                }
            } else {
                assert(sorted[sorted.len() - 1] == placed[i]);
            }
        }
    }
}

/// The places `0` to `count - 1`.
pub open spec fn places(count: nat) -> Seq<int> {
    Seq::new(count, |i: int| i)
}

/// The places of the times, newest first; places of one time keep their order.
pub fn newest_order(times: &Vec<u64>) -> (order: Vec<usize>)
    ensures
        order@.map_values(|i: usize| i as int) == newest_first(
            places(times@.len()),
            |i: int| times@[i] as int,
        ),
        order.len() == times.len(),
        forall|i: int| 0 <= i < order.len() ==> #[trigger] order@[i] < times.len(),
{
    let ghost time = |i: int| times@[i] as int;
    let ghost all = places(times@.len());
    let mut order: Vec<usize> = Vec::new();
    let mut next: usize = times.len();
    assert(order@.map_values(|i: usize| i as int) =~= newest_first(all.skip(next as int), time));
    while next > 0
        invariant
            next <= times.len(),
            all == places(times@.len()),
            time == (|i: int| times@[i] as int),
            order.len() == times.len() - next,
            order@.map_values(|i: usize| i as int) == newest_first(all.skip(next as int), time),
            forall|i: int| 0 <= i < order.len() ==> #[trigger] order@[i] < times.len(),
        decreases next,
    {
        proof {
            assert(all.skip(next - 1).drop_first() =~= all.skip(next as int));
            assert(all.skip(next - 1)[0] == next - 1);
        }
        next = next - 1;
        let ghost sorted = order@.map_values(|i: usize| i as int);
        let ghost start = order@;
        let mut at: usize = order.len();
        assert(sorted.take(at as int) =~= sorted);
        assert(sorted.skip(at as int) =~= Seq::<int>::empty());
        assert(place(sorted, next as int, time) =~= place(sorted, next as int, time)
            + Seq::<int>::empty());
        while at > 0 && times[order[at - 1]] <= times[next]
            invariant
                at <= order.len(),
                order@ == start,
                next < times.len(),
                time == (|i: int| times@[i] as int),
                sorted == start.map_values(|i: usize| i as int),
                forall|i: int| 0 <= i < order.len() ==> #[trigger] order@[i] < times.len(),
                place(sorted, next as int, time) == place(
                    sorted.take(at as int),
                    next as int,
                    time,
                ) + sorted.skip(at as int),
            decreases at,
        {
            proof {
                let head = sorted.take(at as int);
                assert(head.last() == order@[at - 1] as int);
                assert(head.drop_last() =~= sorted.take(at - 1));
                assert(place(sorted.take(at - 1), next as int, time).push(head.last())
                    + sorted.skip(at as int) =~= place(sorted.take(at - 1), next as int, time)
                    + sorted.skip(at - 1));
            }
            at = at - 1;
        }
        proof {
            let head = sorted.take(at as int);
            if at > 0 {
                assert(head.last() == order@[at - 1] as int);
            }
            assert(place(sorted, next as int, time) == head.push(next as int) + sorted.skip(
                at as int,
            ));
        }
        order.insert(at, next);
        proof {
            assert(order@.map_values(|i: usize| i as int) =~= sorted.take(at as int).push(
                next as int,
            ) + sorted.skip(at as int));
        }
    }
    assert(all.skip(0) =~= all);
    order
}

/// Placing an item puts it before the others of its time.
proof fn lemma_place_is_stable<T>(sorted: Seq<T>, item: T, time: spec_fn(T) -> int, at: int)
    requires
        is_newest_first(sorted, time),
    ensures
        place(sorted, item, time).filter(|x: T| time(x) == at) == (if time(item) == at {
            seq![item] + sorted.filter(|x: T| time(x) == at)
        } else {
            sorted.filter(|x: T| time(x) == at)
        }),
    decreases sorted.len(),
{
    reveal(Seq::filter);
    let p = |x: T| time(x) == at;
    let placed = place(sorted, item, time);
    if sorted.len() == 0 || time(sorted.last()) > time(item) {
        assert(placed.drop_last() =~= sorted);
        if time(item) == at {
            assert forall|i: int| 0 <= i < sorted.len() implies !p(#[trigger] sorted[i]) by {
                assert(time(sorted[i]) >= time(sorted[sorted.len() - 1]));
            }
            lemma_filter_none(sorted, p);
            assert(sorted.filter(p).push(item) =~= seq![item] + sorted.filter(p));
        }
    } else {
        let rest = sorted.drop_last();
        assert forall|i: int, j: int| 0 <= i <= j < rest.len() implies time(#[trigger] rest[i])
            >= time(#[trigger] rest[j]) by {
            assert(time(sorted[i]) >= time(sorted[j]));
        }
        lemma_place_is_stable(rest, item, time, at);
        assert(placed.drop_last() =~= place(rest, item, time));
        assert(placed.last() == sorted.last());
        if p(sorted.last()) && time(item) == at {
            assert((seq![item] + rest.filter(p)).push(sorted.last()) =~= seq![item] + rest.filter(
                p,
            ).push(sorted.last()));
        }
    }
}

/// Nothing is left of items of which none is wanted.
proof fn lemma_filter_none<T>(items: Seq<T>, p: spec_fn(T) -> bool)
    requires
        forall|i: int| 0 <= i < items.len() ==> !p(#[trigger] items[i]),
    ensures
        items.filter(p) == Seq::<T>::empty(),
    decreases items.len(),
{
    reveal(Seq::filter);
    if items.len() > 0 {
        let rest = items.drop_last();
        assert forall|i: int| 0 <= i < rest.len() implies !p(#[trigger] rest[i]) by {
            assert(rest[i] == items[i]);
        }
        lemma_filter_none(rest, p);
        assert(!p(items[items.len() - 1]));
    }
}

/// Sorting newest first keeps the order of the items of each time.
pub proof fn law_newest_first_is_stable<T>(items: Seq<T>, time: spec_fn(T) -> int, at: int)
    ensures
        newest_first(items, time).filter(|x: T| time(x) == at) == items.filter(
            |x: T| time(x) == at,
        ),
    decreases items.len(),
{
    let p = |x: T| time(x) == at;
    if items.len() > 0 {
        let rest = items.drop_first();
        law_newest_first_sorts(rest, time);
        law_newest_first_is_stable(rest, time, at);
        lemma_place_is_stable(newest_first(rest, time), items[0], time, at);
        assert(items =~= seq![items[0]] + rest);
        Seq::filter_distributes_over_add(seq![items[0]], rest, p);
        assert(seq![items[0]].filter(p) =~= (if p(items[0]) {
            seq![items[0]]
        } else {
            Seq::empty()
        })) by {
            reveal(Seq::filter);
            assert(seq![items[0]].drop_last() =~= Seq::<T>::empty());
            assert(seq![items[0]].last() == items[0]);
            assert(Seq::<T>::empty().filter(p) =~= Seq::empty());
        }
        assert(Seq::<T>::empty() + rest.filter(p) =~= rest.filter(p));
    }
}

/// What a filter keeps stays in order.
proof fn lemma_filter_keeps_order<T>(items: Seq<T>, p: spec_fn(T) -> bool, i: int, j: int)
    requires
        0 <= i < j < items.len(),
        p(items[i]),
        p(items[j]),
    ensures
        exists|a: int, b: int|
            0 <= a < b < items.filter(p).len() && #[trigger] items.filter(p)[a] == items[i]
                && #[trigger] items.filter(p)[b] == items[j],
    decreases items.len(),
{
    reveal(Seq::filter);
    let rest = items.drop_last();
    if j == items.len() - 1 {
        rest.lemma_filter_contains(p, i);
        assert(rest[i] == items[i]);
        assert(rest.filter(p).contains(items[i]));
        let a = choose|a: int| 0 <= a < rest.filter(p).len() && rest.filter(p)[a] == items[i];
        let kept = items.filter(p);
        assert(kept == rest.filter(p).push(items[j]));
        assert(kept[a] == items[i] && kept[rest.filter(p).len() as int] == items[j]);
    } else {
        lemma_filter_keeps_order(rest, p, i, j);
        let (a, b) = choose|a: int, b: int|
            0 <= a < b < rest.filter(p).len() && #[trigger] rest.filter(p)[a] == rest[i]
                && #[trigger] rest.filter(p)[b] == rest[j];
        assert(items.filter(p)[a] == items[i] && items.filter(p)[b] == items[j]);
    }
}

/// What is kept in order was in order.
proof fn lemma_filter_came_in_order<T>(items: Seq<T>, p: spec_fn(T) -> bool, a: int, b: int)
    requires
        0 <= a < b < items.filter(p).len(),
    ensures
        exists|i: int, j: int|
            0 <= i < j < items.len() && #[trigger] items[i] == items.filter(p)[a]
                && #[trigger] items[j] == items.filter(p)[b],
    decreases items.len(),
{
    reveal(Seq::filter);
    if items.len() > 0 {
        let rest = items.drop_last();
        let kept = rest.filter(p);
        if b < kept.len() {
            lemma_filter_came_in_order(rest, p, a, b);
            let (i, j) = choose|i: int, j: int|
                0 <= i < j < rest.len() && #[trigger] rest[i] == kept[a] && #[trigger] rest[j]
                    == kept[b];
            assert(items[i] == items.filter(p)[a] && items[j] == items.filter(p)[b]);
        } else {
            assert(kept.contains(kept[a]));
            rest.lemma_filter_contains_rev(p, kept[a]);
            let i = choose|i: int| 0 <= i < rest.len() && rest[i] == kept[a];
            assert(items[i] == items.filter(p)[a]);
            assert(items[items.len() - 1] == items.filter(p)[b]);
        }
    }
}

/// Of two items of one time, the one that is first once they are sorted was first before.
pub proof fn law_items_of_one_time_keep_their_order<T>(
    items: Seq<T>,
    time: spec_fn(T) -> int,
    i: int,
    j: int,
)
    requires
        0 <= i < j < newest_first(items, time).len(),
        time(newest_first(items, time)[i]) == time(newest_first(items, time)[j]),
    ensures
        exists|a: int, b: int|
            0 <= a < b < items.len() && #[trigger] items[a] == newest_first(items, time)[i]
                && #[trigger] items[b] == newest_first(items, time)[j],
{
    let sorted = newest_first(items, time);
    let at = time(sorted[i]);
    let p = |x: T| time(x) == at;
    law_newest_first_is_stable(items, time, at);
    lemma_filter_keeps_order(sorted, p, i, j);
    let (a, b) = choose|a: int, b: int|
        0 <= a < b < sorted.filter(p).len() && #[trigger] sorted.filter(p)[a] == sorted[i]
            && #[trigger] sorted.filter(p)[b] == sorted[j];
    assert(sorted.filter(p) == items.filter(p));
    lemma_filter_came_in_order(items, p, a, b);
}

} // verus!
