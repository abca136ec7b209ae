//! A stable sort of positions by what stands at them.

use vstd::prelude::*;

verus! {

/// `leq` compares any two items, and puts them all on one line.
pub open spec fn is_total_preorder<T>(leq: spec_fn(T, T) -> bool) -> bool {
    &&& forall|a: T, b: T| #[trigger] leq(a, b) || leq(b, a)
    &&& forall|a: T, b: T, c: T|
        #![trigger leq(a, b), leq(b, c)]
        leq(a, b) && leq(b, c) ==> leq(a, c)
}

/// The executable comparison can be called on any two items.
pub open spec fn compares_all<T, F: Fn(&T, &T) -> bool>(compare: F) -> bool {
    forall|a: &T, b: &T| #[trigger] call_requires(compare, (a, b))
}

/// The executable comparison gives what the total preorder `leq` says.
pub open spec fn orders_by<T, F: Fn(&T, &T) -> bool>(
    compare: F,
    leq: spec_fn(T, T) -> bool,
) -> bool {
    &&& is_total_preorder(leq)
    &&& forall|a: &T, b: &T, result: bool| #[trigger]
        call_ensures(compare, (a, b), result) ==> result == leq(*a, *b)
}

/// The item at `i` goes before the one at `j`: it is smaller, or neither is and it does not come
/// later.
pub open spec fn goes_before<T>(
    items: Seq<T>,
    leq: spec_fn(T, T) -> bool,
    i: usize,
    j: usize,
) -> bool {
    leq(items[i as int], items[j as int]) && (leq(items[j as int], items[i as int]) ==> i <= j)
}

/// Each position of `order` goes before every later one.
pub open spec fn is_sorted<T>(
    items: Seq<T>,
    leq: spec_fn(T, T) -> bool,
    order: Seq<usize>,
) -> bool {
    forall|a: int, b: int|
        0 <= a < b < order.len() ==> #[trigger] goes_before(items, leq, order[a], order[b])
}

proof fn lemma_goes_before_total<T>(
    items: Seq<T>,
    leq: spec_fn(T, T) -> bool,
    i: usize,
    j: usize,
)
    requires
        is_total_preorder(leq),
    ensures
        goes_before(items, leq, i, j) || goes_before(items, leq, j, i),
{
    assert(leq(items[i as int], items[j as int]) || leq(items[j as int], items[i as int]));
}

proof fn lemma_goes_before_transitive<T>(
    items: Seq<T>,
    leq: spec_fn(T, T) -> bool,
    i: usize,
    j: usize,
    k: usize,
)
    requires
        is_total_preorder(leq),
        goes_before(items, leq, i, j),
        goes_before(items, leq, j, k),
    ensures
        goes_before(items, leq, i, k),
{
    let a = items[i as int];
    let b = items[j as int];
    let c = items[k as int];
    assert(leq(a, b) && leq(b, c) ==> leq(a, c));
    assert(leq(c, a) && leq(a, b) ==> leq(c, b));
    assert(leq(b, c) && leq(c, a) ==> leq(b, a));
}

/// Two sorted lists are merged up to their positions `a` and `b`: what is in `order` is sorted and
/// goes before all that is left.
spec fn is_merged<T>(
    items: Seq<T>,
    leq: spec_fn(T, T) -> bool,
    left: Seq<usize>,
    right: Seq<usize>,
    a: int,
    b: int,
    order: Seq<usize>,
) -> bool {
    &&& is_sorted(items, leq, order)
    &&& forall|k: int, c: int|
        0 <= k < order.len() && a <= c < left.len() ==> #[trigger] goes_before(
            items,
            leq,
            order[k],
            left[c],
        )
    &&& forall|k: int, c: int|
        0 <= k < order.len() && b <= c < right.len() ==> #[trigger] goes_before(
            items,
            leq,
            order[k],
            right[c],
        )
}

/// Taking the next of `left`, which goes before the next of `right`, carries the merge on.
proof fn lemma_merge_step<T>(
    items: Seq<T>,
    leq: spec_fn(T, T) -> bool,
    left: Seq<usize>,
    right: Seq<usize>,
    a: int,
    b: int,
    order: Seq<usize>,
)
    requires
        is_total_preorder(leq),
        is_sorted(items, leq, left),
        is_sorted(items, leq, right),
        is_merged(items, leq, left, right, a, b, order),
        0 <= a < left.len(),
        0 <= b <= right.len(),
        b < right.len() ==> goes_before(items, leq, left[a], right[b]),
    ensures
        is_merged(items, leq, left, right, a + 1, b, order.push(left[a])),
{
    let longer = order.push(left[a]);
    assert forall|x: int, y: int| 0 <= x < y < longer.len() implies #[trigger] goes_before(
        items,
        leq,
        longer[x],
        longer[y],
    ) by {
        assert(longer[x] == order[x]);
        if y < order.len() {
            assert(goes_before(items, leq, order[x], order[y]));
        } else {
            assert(goes_before(items, leq, order[x], left[a]));
        }
    }
    assert forall|k: int, c: int|
        0 <= k < longer.len() && a + 1 <= c < left.len() implies #[trigger] goes_before(
        items,
        leq,
        longer[k],
        left[c],
    ) by {
        if k < order.len() {
            assert(goes_before(items, leq, order[k], left[c]));
        } else {
            assert(goes_before(items, leq, left[a], left[c]));
        }
    }
    assert forall|k: int, c: int|
        0 <= k < longer.len() && b <= c < right.len() implies #[trigger] goes_before(
        items,
        leq,
        longer[k],
        right[c],
    ) by {
        if k < order.len() {
            assert(goes_before(items, leq, order[k], right[c]));
        } else if c > b {
            assert(goes_before(items, leq, right[b], right[c]));
            lemma_goes_before_transitive(items, leq, left[a], right[b], right[c]);
        }
    }
}

/// Whether the item at `i` goes before the one at `j`.
fn check_goes_before<T, F: Fn(&T, &T) -> bool>(
    items: &[T],
    compare: &F,
    i: usize,
    j: usize,
) -> (before: bool)
    requires
        compares_all(*compare),
        i < items@.len(),
        j < items@.len(),
    ensures
        forall|leq: spec_fn(T, T) -> bool| #[trigger]
            orders_by(*compare, leq) ==> before == goes_before(items@, leq, i, j),
{
    if !compare(&items[i], &items[j]) {
        false
    } else if i <= j {
        true
    } else {
        !compare(&items[j], &items[i])
    }
}

/// Merges two sorted lists of positions.
fn merge<T, F: Fn(&T, &T) -> bool>(
    items: &[T],
    compare: &F,
    left: &Vec<usize>,
    right: &Vec<usize>,
) -> (order: Vec<usize>)
    requires
        compares_all(*compare),
        forall|a: int| 0 <= a < left@.len() ==> #[trigger] left@[a] < items@.len(),
        forall|b: int| 0 <= b < right@.len() ==> #[trigger] right@[b] < items@.len(),
    ensures
        order@.to_multiset() == left@.to_multiset().add(right@.to_multiset()),
        forall|leq: spec_fn(T, T) -> bool| #[trigger]
            orders_by(*compare, leq) && is_sorted(items@, leq, left@) && is_sorted(
                items@,
                leq,
                right@,
            ) ==> is_sorted(items@, leq, order@),
{
    broadcast use vstd::seq_lib::group_to_multiset_ensures;

    let mut order: Vec<usize> = Vec::new();
    let mut a: usize = 0;
    let mut b: usize = 0;
    assert(left@.take(0) =~= Seq::<usize>::empty());
    assert(right@.take(0) =~= Seq::<usize>::empty());
    assert(order@.to_multiset() =~= left@.take(0).to_multiset().add(right@.take(0).to_multiset()));
    while a < left.len() || b < right.len()
        invariant
            compares_all(*compare),
            forall|a: int| 0 <= a < left@.len() ==> #[trigger] left@[a] < items@.len(),
            forall|b: int| 0 <= b < right@.len() ==> #[trigger] right@[b] < items@.len(),
            a <= left@.len(),
            b <= right@.len(),
            order@.to_multiset() == left@.take(a as int).to_multiset().add(
                right@.take(b as int).to_multiset(),
            ),
            forall|leq: spec_fn(T, T) -> bool| #[trigger]
                orders_by(*compare, leq) && is_sorted(items@, leq, left@) && is_sorted(
                    items@,
                    leq,
                    right@,
                ) ==> is_merged(items@, leq, left@, right@, a as int, b as int, order@),
        decreases left@.len() - a + right@.len() - b,
    {
        broadcast use vstd::seq_lib::group_to_multiset_ensures;

        let take_left: bool = if a >= left.len() {
            false
        } else if b >= right.len() {
            true
        } else {
            check_goes_before(items, compare, left[a], right[b])
        };
        let ghost before = order@;
        if take_left {
            order.push(left[a]);
            proof {
                assert(left@.take(a + 1) =~= left@.take(a as int).push(left@[a as int]));
                assert(order@.to_multiset() =~= left@.take(a + 1).to_multiset().add(
                    right@.take(b as int).to_multiset(),
                ));
                assert forall|leq: spec_fn(T, T) -> bool| #[trigger]
                    orders_by(*compare, leq) && is_sorted(items@, leq, left@) && is_sorted(
                        items@,
                        leq,
                        right@,
                    ) implies is_merged(items@, leq, left@, right@, a + 1, b as int, order@) by {
                    lemma_merge_step(items@, leq, left@, right@, a as int, b as int, before);
                }
            }
            a = a + 1;
        } else {
            order.push(right[b]);
            proof {
                assert(right@.take(b + 1) =~= right@.take(b as int).push(right@[b as int]));
                assert(order@.to_multiset() =~= left@.take(a as int).to_multiset().add(
                    right@.take(b + 1).to_multiset(),
                ));
                assert forall|leq: spec_fn(T, T) -> bool| #[trigger]
                    orders_by(*compare, leq) && is_sorted(items@, leq, left@) && is_sorted(
                        items@,
                        leq,
                        right@,
                    ) implies is_merged(items@, leq, left@, right@, a as int, b + 1, order@) by {
                    if a < left@.len() {
                        lemma_goes_before_total(items@, leq, left@[a as int], right@[b as int]);
                    }
                    lemma_merge_step(items@, leq, right@, left@, b as int, a as int, before);
                }
            }
            b = b + 1;
        }
    }
    assert(left@.take(a as int) =~= left@);
    assert(right@.take(b as int) =~= right@);
    order
}

/// A rearrangement of positions within bounds stays within them.
pub proof fn lemma_rearranged_within_bounds(listing: Seq<usize>, order: Seq<usize>, bound: nat)
    requires
        order.to_multiset() == listing.to_multiset(),
        forall|a: int| 0 <= a < listing.len() ==> #[trigger] listing[a] < bound,
    ensures
        forall|a: int| 0 <= a < order.len() ==> #[trigger] order[a] < bound,
{
    broadcast use vstd::seq_lib::group_to_multiset_ensures;

    assert forall|a: int| 0 <= a < order.len() implies #[trigger] order[a] < bound by {
        assert(order.contains(order[a]));
        assert(order.to_multiset().count(order[a]) > 0);
        assert(listing.contains(order[a]));
        let b = choose|b: int| 0 <= b < listing.len() && listing[b] == order[a];
        assert(listing[b] < bound);
    }
}

/// The positions of `listing`, in the order that `compare` puts their items in; equal items keep
/// the order of their positions. `compare` tells whether its first argument is no greater than its
/// second.
pub fn sort_positions<T, F: Fn(&T, &T) -> bool>(
    items: &[T],
    compare: &F,
    listing: Vec<usize>,
) -> (order: Vec<usize>)
    requires
        compares_all(*compare),
        forall|a: int| 0 <= a < listing@.len() ==> #[trigger] listing@[a] < items@.len(),
    ensures
        order@.to_multiset() == listing@.to_multiset(),
        forall|leq: spec_fn(T, T) -> bool| #[trigger]
            orders_by(*compare, leq) ==> is_sorted(items@, leq, order@),
    decreases listing@.len(),
{
    broadcast use vstd::seq_lib::group_to_multiset_ensures;

    if listing.len() <= 1 {
        return listing;
    }
    let mut first = listing;
    let ghost whole = first@;
    let second = first.split_off(first.len() / 2);
    let ghost half = first@;
    let ghost other_half = second@;
    assert(whole =~= half + other_half);
    assert forall|a: int| 0 <= a < half.len() implies #[trigger] half[a] < items@.len() by {
        assert(half[a] == whole[a]);
    }
    assert forall|b: int| 0 <= b < other_half.len() implies #[trigger] other_half[b]
        < items@.len() by {
        assert(other_half[b] == whole[half.len() + b]);
    }
    let left = sort_positions(items, compare, first);
    let right = sort_positions(items, compare, second);
    proof {
        lemma_rearranged_within_bounds(half, left@, items@.len());
        lemma_rearranged_within_bounds(other_half, right@, items@.len());
        vstd::seq_lib::lemma_multiset_commutative(half, other_half);
    }
    merge(items, compare, &left, &right)
}

/// A stable order is unique: two sorted arrangements of the same positions are the same.
pub proof fn law_stable_order_is_unique<T>(
    items: Seq<T>,
    leq: spec_fn(T, T) -> bool,
    order: Seq<usize>,
    other: Seq<usize>,
)
    requires
        is_total_preorder(leq),
        is_sorted(items, leq, order),
        is_sorted(items, leq, other),
        order.to_multiset() == other.to_multiset(),
    ensures
        order == other,
    decreases order.len(),
{
    broadcast use vstd::seq_lib::group_to_multiset_ensures;

    assert(order.len() == order.to_multiset().len());
    assert(other.len() == other.to_multiset().len());
    if order.len() > 0 {
        let last = order.last();
        let other_last = other.last();
        assert(order.contains(last));
        assert(other.contains(other_last));
        assert(other.to_multiset().count(last) > 0);
        assert(order.to_multiset().count(other_last) > 0);
        let a = choose|a: int| 0 <= a < other.len() && other[a] == last;
        let b = choose|b: int| 0 <= b < order.len() && order[b] == other_last;
        if last != other_last {
            assert(goes_before(items, leq, other[a], other[other.len() - 1]));
            assert(goes_before(items, leq, order[b], order[order.len() - 1]));
        }
        let shorter = order.drop_last();
        let other_shorter = other.drop_last();
        assert(order =~= shorter.push(last));
        assert(other =~= other_shorter.push(last));
        assert(shorter.to_multiset() =~= order.to_multiset().remove(last));
        assert(other_shorter.to_multiset() =~= other.to_multiset().remove(last));
        assert(is_sorted(items, leq, shorter)) by {
            assert forall|x: int, y: int| 0 <= x < y < shorter.len() implies #[trigger] goes_before(
                items,
                leq,
                shorter[x],
                shorter[y],
            ) by {
                assert(goes_before(items, leq, order[x], order[y]));
            }
        }
        assert(is_sorted(items, leq, other_shorter)) by {
            assert forall|x: int, y: int|
                0 <= x < y < other_shorter.len() implies #[trigger] goes_before(
                items,
                leq,
                other_shorter[x],
                other_shorter[y],
            ) by {
                assert(goes_before(items, leq, other[x], other[y]));
            }
        }
        law_stable_order_is_unique(items, leq, shorter, other_shorter);
    } else {
        assert(order =~= other);
    }
}

} // verus!
