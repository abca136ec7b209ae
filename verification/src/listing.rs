//! Ascending listings of the positions that satisfy a condition.

use vstd::prelude::*;

verus! {

/// The positions below `count` that satisfy `keep`, in ascending order.
pub open spec fn indices_where(count: nat, keep: spec_fn(int) -> bool) -> Seq<usize>
    decreases count,
{
    if count == 0 {
        Seq::empty()
    } else {
        let last = (count - 1) as nat;
        if keep(last as int) {
            indices_where(last, keep).push(last as usize)
        } else {
            indices_where(last, keep)
        }
    }
}

/// A listing is strictly ascending and holds a position exactly when it lies below `count` and
/// satisfies the condition.
pub proof fn lemma_indices_where(count: nat, keep: spec_fn(int) -> bool)
    requires
        count <= usize::MAX,
    ensures
        indices_where(count, keep).len() <= count,
        forall|a: int, b: int|
            0 <= a < b < indices_where(count, keep).len() ==> indices_where(count, keep)[a]
                < indices_where(count, keep)[b],
        forall|a: int|
            0 <= a < indices_where(count, keep).len() ==> #[trigger] indices_where(count, keep)[a]
                < count && keep(indices_where(count, keep)[a] as int),
        forall|i: int|
            0 <= i < count ==> (#[trigger] keep(i) <==> indices_where(count, keep).contains(
                i as usize,
            )),
    decreases count,
{
    let listing = indices_where(count, keep);
    if count > 0 {
        let last = (count - 1) as nat;
        let shorter = indices_where(last, keep);
        lemma_indices_where(last, keep);
        assert forall|i: int| 0 <= i < count implies (#[trigger] keep(i) <==> listing.contains(
            i as usize,
        )) by {
            if keep(i) {
                if i < last {
                    let a = choose|a: int| 0 <= a < shorter.len() && shorter[a] == i as usize;
                    assert(listing[a] == i as usize);
                } else {
                    assert(listing[shorter.len() as int] == last as usize);
                }
            } else if listing.contains(i as usize) {
                let a = choose|a: int| 0 <= a < listing.len() && listing[a] == i as usize;
                assert(a < shorter.len() ==> shorter.contains(i as usize)) by {
                    if a < shorter.len() {
                        assert(shorter[a] == i as usize);
                    }
                }
            }
        }
    }
}

/// Conditions that agree below `count` have the same listing.
pub proof fn lemma_indices_where_agree(
    count: nat,
    keep: spec_fn(int) -> bool,
    other: spec_fn(int) -> bool,
)
    requires
        forall|i: int| 0 <= i < count ==> #[trigger] keep(i) == other(i),
    ensures
        indices_where(count, keep) == indices_where(count, other),
    decreases count,
{
    if count > 0 {
        lemma_indices_where_agree((count - 1) as nat, keep, other);
        assert(keep(count - 1) == other(count - 1));
    }
}

/// The first position from `from` on, and below `count`, that satisfies `keep`.
pub open spec fn first_where(count: nat, keep: spec_fn(int) -> bool, from: int) -> Option<usize>
    decreases count - from,
{
    if from >= count {
        None
    } else if keep(from) {
        Some(from as usize)
    } else {
        first_where(count, keep, from + 1)
    }
}

/// The last position below `count` that satisfies `keep`.
pub open spec fn last_where(count: nat, keep: spec_fn(int) -> bool) -> Option<usize>
    decreases count,
{
    if count == 0 {
        None
    } else if keep(count - 1) {
        Some((count - 1) as usize)
    } else {
        last_where((count - 1) as nat, keep)
    }
}

/// What is found satisfies the condition and nothing before it does; where nothing is found,
/// nothing satisfies it.
pub proof fn lemma_first_where(count: nat, keep: spec_fn(int) -> bool, from: int)
    requires
        0 <= from,
        count <= usize::MAX,
    ensures
        match first_where(count, keep, from) {
            Some(i) => {
                &&& from <= i < count
                &&& keep(i as int)
                &&& forall|j: int| from <= j < i ==> !#[trigger] keep(j)
            },
            None => forall|j: int| from <= j < count ==> !#[trigger] keep(j),
        },
    decreases count - from,
{
    if from < count && !keep(from) {
        lemma_first_where(count, keep, from + 1);
    }
}

/// What is found satisfies the condition and nothing after it does; where nothing is found,
/// nothing satisfies it.
pub proof fn lemma_last_where(count: nat, keep: spec_fn(int) -> bool)
    requires
        count <= usize::MAX,
    ensures
        match last_where(count, keep) {
            Some(i) => {
                &&& i < count
                &&& keep(i as int)
                &&& forall|j: int| i < j < count ==> !#[trigger] keep(j)
            },
            None => forall|j: int| 0 <= j < count ==> !#[trigger] keep(j),
        },
    decreases count,
{
    if count > 0 && !keep(count - 1) {
        lemma_last_where((count - 1) as nat, keep);
    }
}

} // verus!
