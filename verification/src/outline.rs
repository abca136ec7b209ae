//! Nesting of outline entries, recovered from the depth of each entry.

use vstd::prelude::*;

use crate::listing::{indices_where, lemma_indices_where, lemma_indices_where_agree};

verus! {

/// `parent` is the parent of entry `index`: the nearest preceding entry with a smaller depth,
/// which need not be `depth - 1`, since outlines can jump depth unevenly.
pub open spec fn is_outline_parent(
    depths: Seq<usize>,
    index: int,
    parent: Option<usize>,
) -> bool {
    match parent {
        Some(p) => {
            &&& p < index
            &&& depths[p as int] < depths[index]
            &&& forall|k: int| p < k < index ==> depths[k] >= depths[index]
        },
        None => forall|k: int| 0 <= k < index ==> depths[k] >= depths[index],
    }
}

/// The nearest entry before `below` that is shallower than `depth`.
pub open spec fn nearest_shallower(depths: Seq<usize>, depth: usize, below: int) -> Option<usize>
    decreases below,
{
    if below <= 0 {
        None
    } else if depths[below - 1] < depth {
        Some((below - 1) as usize)
    } else {
        nearest_shallower(depths, depth, below - 1)
    }
}

/// The parent of entry `index`.
pub open spec fn outline_parent(depths: Seq<usize>, index: int) -> Option<usize> {
    nearest_shallower(depths, depths[index], index)
}

proof fn lemma_nearest_shallower(depths: Seq<usize>, depth: usize, below: int)
    requires
        0 <= below <= depths.len() <= usize::MAX,
    ensures
        match nearest_shallower(depths, depth, below) {
            Some(p) => {
                &&& p < below
                &&& depths[p as int] < depth
                &&& forall|k: int| p < k < below ==> depths[k] >= depth
            },
            None => forall|k: int| 0 <= k < below ==> depths[k] >= depth,
        },
    decreases below,
{
    if below > 0 && depths[below - 1] >= depth {
        lemma_nearest_shallower(depths, depth, below - 1);
    }
}

/// Every entry has a parent in the sense of [`is_outline_parent`], and it is [`outline_parent`].
pub proof fn lemma_outline_parent(depths: Seq<usize>, index: int)
    requires
        0 <= index < depths.len() <= usize::MAX,
    ensures
        is_outline_parent(depths, index, outline_parent(depths, index)),
{
    lemma_nearest_shallower(depths, depths[index], index);
}

/// An entry has at most one parent.
pub proof fn lemma_parent_unique(
    depths: Seq<usize>,
    index: int,
    a: Option<usize>,
    b: Option<usize>,
)
    requires
        0 <= index < depths.len(),
        is_outline_parent(depths, index, a),
        is_outline_parent(depths, index, b),
    ensures
        a == b,
{
    match (a, b) {
        (Some(p), Some(q)) => {
            if p < q {
                assert(depths[q as int] >= depths[index]);
            }
            if q < p {
                assert(depths[p as int] >= depths[index]);
            }
        },
        (Some(p), None) => {
            assert(depths[p as int] >= depths[index]);
        },
        (None, Some(q)) => {
            assert(depths[q as int] >= depths[index]);
        },
        (None, None) => {},
    }
}

/// An open ancestor at or after entry `k` is at most as deep as `k`.
spec fn has_open_cover(depths: Seq<usize>, stack: Seq<usize>, k: int) -> bool {
    exists|a: int|
        0 <= a < stack.len() && k <= #[trigger] stack[a] && depths[stack[a] as int] <= depths[k]
}

/// `stack` holds entries below `index`, later and deeper one after the other.
spec fn is_ancestor_stack(depths: Seq<usize>, stack: Seq<usize>, index: int) -> bool {
    &&& forall|a: int| 0 <= a < stack.len() ==> #[trigger] stack[a] < index
    &&& forall|a: int, b: int|
        0 <= a < b < stack.len() ==> stack[a] < stack[b] && depths[stack[a] as int]
            < depths[stack[b] as int]
}

/// The parent of every entry.
pub fn outline_parents(depths: &[usize]) -> (parents: Vec<Option<usize>>)
    ensures
        parents@.len() == depths@.len(),
        forall|i: int|
            0 <= i < depths@.len() ==> #[trigger] parents@[i] == outline_parent(depths@, i),
        forall|i: int|
            0 <= i < depths@.len() ==> is_outline_parent(depths@, i, #[trigger] parents@[i]),
{
    let mut parents: Vec<Option<usize>> = Vec::with_capacity(depths.len());
    let mut ancestor_stack: Vec<usize> = Vec::new();
    let mut index: usize = 0;
    while index < depths.len()
        invariant
            index <= depths@.len(),
            parents@.len() == index,
            forall|i: int| 0 <= i < index ==> #[trigger] parents@[i] == outline_parent(depths@, i),
            forall|i: int| 0 <= i < index ==> is_outline_parent(depths@, i, #[trigger] parents@[i]),
            is_ancestor_stack(depths@, ancestor_stack@, index as int),
            forall|k: int| 0 <= k < index ==> #[trigger] has_open_cover(depths@, ancestor_stack@, k),
        decreases depths@.len() - index,
    {
        let depth: usize = depths[index];
        while ancestor_stack.len() > 0 && depths[ancestor_stack[ancestor_stack.len() - 1]] >= depth
            invariant
                index < depths@.len(),
                depth == depths@[index as int],
                is_ancestor_stack(depths@, ancestor_stack@, index as int),
                forall|k: int|
                    0 <= k < index ==> depths@[k] >= depth || #[trigger] has_open_cover(
                        depths@,
                        ancestor_stack@,
                        k,
                    ),
            decreases ancestor_stack@.len(),
        {
            let ghost before = ancestor_stack@;
            ancestor_stack.pop();
            assert forall|k: int| 0 <= k < index implies depths@[k] >= depth
                || #[trigger] has_open_cover(depths@, ancestor_stack@, k) by {
                if depths@[k] < depth {
                    assert(has_open_cover(depths@, before, k));
                    let a = choose|a: int|
                        0 <= a < before.len() && k <= #[trigger] before[a]
                            && depths@[before[a] as int] <= depths@[k];
                    assert(ancestor_stack@[a] == before[a]);
                }
            }
        }
        let parent: Option<usize> = if ancestor_stack.len() > 0 {
            Some(ancestor_stack[ancestor_stack.len() - 1])
        } else {
            None
        };
        let ghost before = ancestor_stack@;
        proof {
            assert forall|k: int|
                0 <= k < index && (parent matches Some(p) ==> p < k) implies depths@[k] >= depth by {
                if depths@[k] < depth {
                    assert(has_open_cover(depths@, before, k));
                }
            }
            assert(is_outline_parent(depths@, index as int, parent));
            lemma_outline_parent(depths@, index as int);
            lemma_parent_unique(depths@, index as int, parent, outline_parent(depths@, index as int));
        }
        parents.push(parent);
        ancestor_stack.push(index);
        assert forall|k: int| 0 <= k < index + 1 implies #[trigger] has_open_cover(
            depths@,
            ancestor_stack@,
            k,
        ) by {
            if depths@[k] >= depth {
                assert(ancestor_stack@[before.len() as int] == index);
            } else {
                assert(has_open_cover(depths@, before, k));
                let a = choose|a: int|
                    0 <= a < before.len() && k <= #[trigger] before[a]
                        && depths@[before[a] as int] <= depths@[k];
                assert(ancestor_stack@[a] == before[a]);
            }
        }
        index = index + 1;
    }
    parents
}

/// The condition of sharing a parent with entry `target`.
pub open spec fn are_siblings(depths: Seq<usize>, target: int) -> spec_fn(int) -> bool {
    |index: int| outline_parent(depths, index) == outline_parent(depths, target)
}

/// The condition of having entry `target` for a parent.
pub open spec fn is_child_of(depths: Seq<usize>, target: usize) -> spec_fn(int) -> bool {
    |index: int| outline_parent(depths, index) == Some(target)
}

/// The condition of having no parent.
pub open spec fn is_top_level(depths: Seq<usize>) -> spec_fn(int) -> bool {
    |index: int| outline_parent(depths, index) is None
}

fn same_parent(a: Option<usize>, b: Option<usize>) -> (same: bool)
    ensures
        same == (a == b),
{
    match (a, b) {
        (Some(p), Some(q)) => p == q,
        (None, None) => true,
        _ => false,
    }
}

/// The entries that share a parent with `target_index`, itself among them; none where it is out
/// of range.
pub fn sibling_outline_indices(depths: &[usize], target_index: usize) -> (siblings: Vec<usize>)
    ensures
        target_index >= depths@.len() ==> siblings@ == Seq::<usize>::empty(),
        target_index < depths@.len() ==> siblings@ == indices_where(
            depths@.len(),
            are_siblings(depths@, target_index as int),
        ),
{
    if target_index >= depths.len() {
        return Vec::new();
    }
    let parents = outline_parents(depths);
    let target_parent: Option<usize> = parents[target_index];
    let mut siblings: Vec<usize> = Vec::new();
    let mut index: usize = 0;
    while index < parents.len()
        invariant
            index <= parents@.len(),
            parents@.len() == depths@.len(),
            target_index < depths@.len(),
            target_parent == outline_parent(depths@, target_index as int),
            forall|i: int|
                0 <= i < depths@.len() ==> #[trigger] parents@[i] == outline_parent(depths@, i),
            siblings@ == indices_where(index as nat, are_siblings(depths@, target_index as int)),
        decreases parents@.len() - index,
    {
        if same_parent(parents[index], target_parent) {
            siblings.push(index);
        }
        index = index + 1;
    }
    siblings
}

/// The entries whose parent is `target_index`; none where it is out of range.
pub fn child_outline_indices(depths: &[usize], target_index: usize) -> (children: Vec<usize>)
    ensures
        target_index >= depths@.len() ==> children@ == Seq::<usize>::empty(),
        target_index < depths@.len() ==> children@ == indices_where(
            depths@.len(),
            is_child_of(depths@, target_index),
        ),
{
    if target_index >= depths.len() {
        return Vec::new();
    }
    let parents = outline_parents(depths);
    let mut children: Vec<usize> = Vec::new();
    let mut index: usize = 0;
    while index < parents.len()
        invariant
            index <= parents@.len(),
            parents@.len() == depths@.len(),
            forall|i: int|
                0 <= i < depths@.len() ==> #[trigger] parents@[i] == outline_parent(depths@, i),
            children@ == indices_where(index as nat, is_child_of(depths@, target_index)),
        decreases parents@.len() - index,
    {
        if same_parent(parents[index], Some(target_index)) {
            children.push(index);
        }
        index = index + 1;
    }
    children
}

/// The entries without a parent.
pub fn top_level_outline_indices(depths: &[usize]) -> (top_level: Vec<usize>)
    ensures
        top_level@ == indices_where(depths@.len(), is_top_level(depths@)),
{
    let parents = outline_parents(depths);
    let mut top_level: Vec<usize> = Vec::new();
    let mut index: usize = 0;
    while index < parents.len()
        invariant
            index <= parents@.len(),
            parents@.len() == depths@.len(),
            forall|i: int|
                0 <= i < depths@.len() ==> #[trigger] parents@[i] == outline_parent(depths@, i),
            top_level@ == indices_where(index as nat, is_top_level(depths@)),
        decreases parents@.len() - index,
    {
        if parents[index].is_none() {
            top_level.push(index);
        }
        index = index + 1;
    }
    top_level
}

/// An entry is listed among its own siblings.
pub proof fn law_siblings_include_the_target(depths: Seq<usize>, target: int)
    requires
        0 <= target < depths.len() <= usize::MAX,
    ensures
        indices_where(depths.len(), are_siblings(depths, target)).contains(target as usize),
{
    lemma_indices_where(depths.len(), are_siblings(depths, target));
    assert(are_siblings(depths, target)(target));
}

/// Every entry that is listed as a sibling lists the same siblings.
pub proof fn law_siblings_agree(depths: Seq<usize>, target: int, sibling: usize)
    requires
        0 <= target < depths.len() <= usize::MAX,
        indices_where(depths.len(), are_siblings(depths, target)).contains(sibling),
    ensures
        sibling < depths.len(),
        indices_where(depths.len(), are_siblings(depths, sibling as int)) == indices_where(
            depths.len(),
            are_siblings(depths, target),
        ),
{
    lemma_indices_where(depths.len(), are_siblings(depths, target));
    lemma_indices_where_agree(
        depths.len(),
        are_siblings(depths, sibling as int),
        are_siblings(depths, target),
    );
}

/// The siblings of a child are all the children of its parent.
pub proof fn law_siblings_of_a_child_are_the_children(depths: Seq<usize>, parent: usize, child: usize)
    requires
        parent < depths.len() <= usize::MAX,
        indices_where(depths.len(), is_child_of(depths, parent)).contains(child),
    ensures
        child < depths.len(),
        indices_where(depths.len(), are_siblings(depths, child as int)) == indices_where(
            depths.len(),
            is_child_of(depths, parent),
        ),
{
    lemma_indices_where(depths.len(), is_child_of(depths, parent));
    lemma_indices_where_agree(
        depths.len(),
        are_siblings(depths, child as int),
        is_child_of(depths, parent),
    );
}

/// The siblings of a top-level entry are all the top-level entries.
pub proof fn law_siblings_of_a_top_level_entry(depths: Seq<usize>, entry: usize)
    requires
        depths.len() <= usize::MAX,
        indices_where(depths.len(), is_top_level(depths)).contains(entry),
    ensures
        entry < depths.len(),
        indices_where(depths.len(), are_siblings(depths, entry as int)) == indices_where(
            depths.len(),
            is_top_level(depths),
        ),
{
    lemma_indices_where(depths.len(), is_top_level(depths));
    lemma_indices_where_agree(
        depths.len(),
        are_siblings(depths, entry as int),
        is_top_level(depths),
    );
}

/// A child comes after its parent and is deeper, and nothing between the two is shallower than
/// the child.
pub proof fn law_children_follow_and_deepen(depths: Seq<usize>, parent: usize, child: usize)
    requires
        parent < depths.len() <= usize::MAX,
        indices_where(depths.len(), is_child_of(depths, parent)).contains(child),
    ensures
        parent < child < depths.len(),
        depths[parent as int] < depths[child as int],
        forall|k: int| parent < k < child ==> depths[k] >= depths[child as int],
{
    lemma_indices_where(depths.len(), is_child_of(depths, parent));
    lemma_outline_parent(depths, child as int);
}

/// Every entry is listed once: among the top-level entries, or among the children of exactly one
/// entry.
pub proof fn law_listings_partition_the_outline(depths: Seq<usize>, entry: int)
    requires
        0 <= entry < depths.len() <= usize::MAX,
    ensures
        indices_where(depths.len(), is_top_level(depths)).contains(entry as usize) <==> !(exists|
            parent: usize,
        |
            parent < depths.len() && #[trigger] indices_where(
                depths.len(),
                is_child_of(depths, parent),
            ).contains(entry as usize)),
        forall|p: usize, q: usize|
            p < depths.len() && q < depths.len() && #[trigger] indices_where(
                depths.len(),
                is_child_of(depths, p),
            ).contains(entry as usize) && #[trigger] indices_where(
                depths.len(),
                is_child_of(depths, q),
            ).contains(entry as usize) ==> p == q,
{
    lemma_outline_parent(depths, entry);
    lemma_indices_where(depths.len(), is_top_level(depths));
    assert(is_top_level(depths)(entry) == (outline_parent(depths, entry) is None));
    assert forall|parent: usize| parent < depths.len() implies (#[trigger] indices_where(
        depths.len(),
        is_child_of(depths, parent),
    ).contains(entry as usize) <==> outline_parent(depths, entry) == Some(parent)) by {
        lemma_indices_where(depths.len(), is_child_of(depths, parent));
        assert(is_child_of(depths, parent)(entry) == (outline_parent(depths, entry) == Some(parent)));
    }
    if let Some(parent) = outline_parent(depths, entry) {
        assert(indices_where(depths.len(), is_child_of(depths, parent)).contains(entry as usize));
    }
}

} // verus!
