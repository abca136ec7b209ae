//! What a directory dropdown lists.

use vstd::prelude::*;

use crate::listing::{indices_where, lemma_indices_where};
use crate::rel_path::RelPath;
use crate::settings::{
    BreadcrumbDirectoryListingSettings, ProjectPanelSortMode, ProjectPanelSortOrder,
};
use crate::sort::{
    compares_all, is_sorted, is_total_preorder, law_stable_order_is_unique,
    lemma_rearranged_within_bounds, orders_by, sort_positions,
};
use crate::status::GitSummary;

verus! {

/// An entry of a worktree, as its snapshot holds it.
#[derive(Debug, PartialEq, Eq)]
pub struct WorktreeEntry {
    pub path: RelPath,
    pub is_dir: bool,
    pub is_ignored: bool,
    pub is_hidden: bool,
    pub git_summary: GitSummary,
}

/// An entry of a directory dropdown.
#[derive(Debug, PartialEq, Eq)]
pub struct BreadcrumbDirectoryEntry {
    pub name: String,
    pub path: RelPath,
    pub is_dir: bool,
    pub is_ignored: bool,
    pub git_summary: GitSummary,
}

/// What a [`BreadcrumbDirectoryEntry`] holds.
#[verifier::ext_equal]
pub struct DirectoryEntryView {
    pub name: Seq<char>,
    pub path: Seq<Seq<char>>,
    pub is_dir: bool,
    pub is_ignored: bool,
    pub git_summary: GitSummary,
}

impl View for BreadcrumbDirectoryEntry {
    type V = DirectoryEntryView;

    open spec fn view(&self) -> DirectoryEntryView {
        DirectoryEntryView {
            name: self.name@,
            path: self.path@,
            is_dir: self.is_dir,
            is_ignored: self.is_ignored,
            git_summary: self.git_summary,
        }
    }
}

impl DeepView for BreadcrumbDirectoryEntry {
    type V = DirectoryEntryView;

    open spec fn deep_view(&self) -> DirectoryEntryView {
        self.view()
    }
}

/// The settings let the entry be listed.
pub open spec fn is_listed(
    settings: BreadcrumbDirectoryListingSettings,
    entry: WorktreeEntry,
) -> bool {
    &&& settings.hide_gitignore ==> !entry.is_ignored
    &&& settings.hide_hidden ==> !entry.is_hidden
}

/// Whether the settings let the entry be listed.
pub fn lists_entry(
    settings: &BreadcrumbDirectoryListingSettings,
    entry: &WorktreeEntry,
) -> (listed: bool)
    ensures
        listed == is_listed(*settings, *entry),
{
    (!settings.hide_gitignore || !entry.is_ignored) && (!settings.hide_hidden || !entry.is_hidden)
}

/// The condition of being listed.
pub open spec fn listed_at(
    settings: BreadcrumbDirectoryListingSettings,
    entries: Seq<WorktreeEntry>,
) -> spec_fn(int) -> bool {
    |i: int| is_listed(settings, entries[i])
}

/// How the dropdown shows an entry.
pub open spec fn shown_entry(entry: WorktreeEntry) -> DirectoryEntryView {
    DirectoryEntryView {
        name: entry.path@.last(),
        path: entry.path@,
        is_dir: entry.is_dir,
        is_ignored: entry.is_ignored,
        git_summary: entry.git_summary,
    }
}

/// How the dropdown shows the entries at the first `count` positions of `order`, leaving out one
/// without a name: the worktree's root.
pub open spec fn shown_entries(
    entries: Seq<WorktreeEntry>,
    order: Seq<usize>,
    count: nat,
) -> Seq<DirectoryEntryView>
    decreases count,
{
    if count == 0 {
        Seq::empty()
    } else {
        let shown = shown_entries(entries, order, (count - 1) as nat);
        let entry = entries[order[count - 1] as int];
        if entry.path@.len() == 0 {
            shown
        } else {
            shown.push(shown_entry(entry))
        }
    }
}

/// `shown` are the entries that the settings let be listed, in the order of `order`.
pub open spec fn lists(
    settings: BreadcrumbDirectoryListingSettings,
    entries: Seq<WorktreeEntry>,
    order: Seq<usize>,
    shown: Seq<DirectoryEntryView>,
) -> bool {
    &&& order.to_multiset() == indices_where(
        entries.len(),
        listed_at(settings, entries),
    ).to_multiset()
    &&& shown == shown_entries(entries, order, order.len())
}

/// The comparison can be called on any two paths.
pub open spec fn compares_paths<
    F: Fn(&RelPath, bool, &RelPath, bool, ProjectPanelSortMode, ProjectPanelSortOrder) -> bool,
>(compare_by: F) -> bool {
    forall|
        a: &RelPath,
        a_is_file: bool,
        b: &RelPath,
        b_is_file: bool,
        sort_mode: ProjectPanelSortMode,
        sort_order: ProjectPanelSortOrder,
    | #[trigger]
        call_requires(compare_by, (a, a_is_file, b, b_is_file, sort_mode, sort_order))
}

/// Under these settings the comparison gives what the total preorder `leq` says of paths and
/// whether they lead to files.
pub open spec fn orders_paths<
    F: Fn(&RelPath, bool, &RelPath, bool, ProjectPanelSortMode, ProjectPanelSortOrder) -> bool,
>(
    compare_by: F,
    settings: BreadcrumbDirectoryListingSettings,
    leq: spec_fn((RelPath, bool), (RelPath, bool)) -> bool,
) -> bool {
    &&& is_total_preorder(leq)
    &&& forall|a: &RelPath, a_is_file: bool, b: &RelPath, b_is_file: bool, result: bool| #[trigger]
        call_ensures(
            compare_by,
            (a, a_is_file, b, b_is_file, settings.sort_mode, settings.sort_order),
            result,
        ) ==> result == leq((*a, a_is_file), (*b, b_is_file))
}

/// The order of entries by their paths.
pub open spec fn by_path(leq: spec_fn((RelPath, bool), (RelPath, bool)) -> bool) -> spec_fn(
    WorktreeEntry,
    WorktreeEntry,
) -> bool {
    |a: WorktreeEntry, b: WorktreeEntry| leq((a.path, !a.is_dir), (b.path, !b.is_dir))
}

/// What the comparison gave of two entries under these settings.
spec fn compared<
    F: Fn(&RelPath, bool, &RelPath, bool, ProjectPanelSortMode, ProjectPanelSortOrder) -> bool,
>(
    compare_by: &F,
    settings: &BreadcrumbDirectoryListingSettings,
    a: &WorktreeEntry,
    b: &WorktreeEntry,
    result: bool,
) -> bool {
    call_ensures(
        *compare_by,
        (&a.path, !a.is_dir, &b.path, !b.is_dir, settings.sort_mode, settings.sort_order),
        result,
    )
}

/// `shown` are the entries that the settings let be listed, in the order that `compare_by` gives
/// them under the settings.
pub open spec fn lists_in_order<
    F: Fn(&RelPath, bool, &RelPath, bool, ProjectPanelSortMode, ProjectPanelSortOrder) -> bool,
>(
    settings: BreadcrumbDirectoryListingSettings,
    entries: Seq<WorktreeEntry>,
    compare_by: F,
    shown: Seq<DirectoryEntryView>,
) -> bool {
    exists|order: Seq<usize>|
        {
            &&& #[trigger] lists(settings, entries, order, shown)
            &&& forall|leq: spec_fn((RelPath, bool), (RelPath, bool)) -> bool| #[trigger]
                orders_paths(compare_by, settings, leq) ==> is_sorted(entries, by_path(leq), order)
        }
}

/// The entries of a directory that its dropdown lists: those that the settings do not hide, in
/// the order that the settings ask for. `compare_by` is given two paths, whether each leads to a
/// file, and how to sort; it tells whether the first sorts no later than the second. Equal entries
/// keep their order.
pub fn breadcrumb_directory_entries<
    F: Fn(&RelPath, bool, &RelPath, bool, ProjectPanelSortMode, ProjectPanelSortOrder) -> bool,
>(
    settings: &BreadcrumbDirectoryListingSettings,
    entries: &[WorktreeEntry],
    compare_by: F,
) -> (shown: Vec<BreadcrumbDirectoryEntry>)
    requires
        compares_paths(compare_by),
    ensures
        lists_in_order(*settings, entries@, compare_by, shown.deep_view()),
{
    let compare = |a: &WorktreeEntry, b: &WorktreeEntry| -> (no_later: bool)
        ensures
            compared(&compare_by, settings, a, b, no_later),
        {
            compare_by(
                &a.path,
                !a.is_dir,
                &b.path,
                !b.is_dir,
                settings.sort_mode,
                settings.sort_order,
            )
        };
    let shown: Vec<BreadcrumbDirectoryEntry> = list_sorted(settings, entries, &compare);
    proof {
        let order = choose|order: Seq<usize>|
            {
                &&& #[trigger] lists(*settings, entries@, order, shown.deep_view())
                &&& forall|leq: spec_fn(WorktreeEntry, WorktreeEntry) -> bool| #[trigger]
                    orders_by(compare, leq) ==> is_sorted(entries@, leq, order)
            };
        assert forall|leq: spec_fn((RelPath, bool), (RelPath, bool)) -> bool| #[trigger]
            orders_paths(compare_by, *settings, leq) implies is_sorted(
            entries@,
            by_path(leq),
            order,
        ) by {
            lemma_by_path_is_total(leq);
            assert(orders_by(compare, by_path(leq)));
        }
    }
    shown
}

proof fn lemma_by_path_is_total(leq: spec_fn((RelPath, bool), (RelPath, bool)) -> bool)
    requires
        is_total_preorder(leq),
    ensures
        is_total_preorder(by_path(leq)),
{
    let order = by_path(leq);
    assert forall|a: WorktreeEntry, b: WorktreeEntry| #[trigger] order(a, b) || order(b, a) by {
        assert(leq((a.path, !a.is_dir), (b.path, !b.is_dir)) || leq(
            (b.path, !b.is_dir),
            (a.path, !a.is_dir),
        ));
    }
    assert forall|a: WorktreeEntry, b: WorktreeEntry, c: WorktreeEntry|
        #![trigger order(a, b), order(b, c)]
        order(a, b) && order(b, c) implies order(a, c) by {
        assert(leq((a.path, !a.is_dir), (b.path, !b.is_dir)));
        assert(leq((b.path, !b.is_dir), (c.path, !c.is_dir)));
    }
}

/// The entries that the settings do not hide, in the order of `compare`.
fn list_sorted<F: Fn(&WorktreeEntry, &WorktreeEntry) -> bool>(
    settings: &BreadcrumbDirectoryListingSettings,
    entries: &[WorktreeEntry],
    compare: &F,
) -> (shown: Vec<BreadcrumbDirectoryEntry>)
    requires
        compares_all(*compare),
    ensures
        exists|order: Seq<usize>|
            {
                &&& #[trigger] lists(*settings, entries@, order, shown.deep_view())
                &&& forall|leq: spec_fn(WorktreeEntry, WorktreeEntry) -> bool| #[trigger]
                    orders_by(*compare, leq) ==> is_sorted(entries@, leq, order)
            },
{
    let mut listing: Vec<usize> = Vec::new();
    let mut index: usize = 0;
    while index < entries.len()
        invariant
            index <= entries@.len(),
            listing@ == indices_where(index as nat, listed_at(*settings, entries@)),
        decreases entries@.len() - index,
    {
        if lists_entry(settings, &entries[index]) {
            listing.push(index);
        }
        index = index + 1;
    }
    let ghost kept = listing@;
    proof {
        lemma_indices_where(entries@.len(), listed_at(*settings, entries@));
    }
    let order: Vec<usize> = sort_positions(entries, compare, listing);
    proof {
        lemma_rearranged_within_bounds(kept, order@, entries@.len());
    }
    let mut shown: Vec<BreadcrumbDirectoryEntry> = Vec::new();
    let mut position: usize = 0;
    assert(shown.deep_view() =~= shown_entries(entries@, order@, 0));
    while position < order.len()
        invariant
            position <= order@.len(),
            forall|a: int| 0 <= a < order@.len() ==> #[trigger] order@[a] < entries@.len(),
            shown.deep_view() == shown_entries(entries@, order@, position as nat),
        decreases order@.len() - position,
    {
        let entry: &WorktreeEntry = &entries[order[position]];
        let ghost before = shown.deep_view();
        if let Some(name) = entry.path.file_name() {
            shown.push(
                BreadcrumbDirectoryEntry {
                    name: name.clone(),
                    path: entry.path.clone(),
                    is_dir: entry.is_dir,
                    is_ignored: entry.is_ignored,
                    git_summary: entry.git_summary,
                },
            );
            assert(shown.deep_view() =~= before.push(shown_entry(*entry)));
        }
        position = position + 1;
    }
    assert(lists(*settings, entries@, order@, shown.deep_view()));
    shown
}

proof fn lemma_shown_entries(entries: Seq<WorktreeEntry>, order: Seq<usize>, count: nat)
    requires
        count <= order.len(),
    ensures
        forall|r: int|
            0 <= r < shown_entries(entries, order, count).len() ==> exists|a: int|
                0 <= a < count && entries[order[a] as int].path@.len() > 0
                    && #[trigger] shown_entries(entries, order, count)[r] == shown_entry(
                    entries[#[trigger] order[a] as int],
                ),
        forall|a: int|
            0 <= a < count && entries[#[trigger] order[a] as int].path@.len() > 0
                ==> shown_entries(entries, order, count).contains(
                shown_entry(entries[order[a] as int]),
            ),
    decreases count,
{
    if count > 0 {
        let shorter = shown_entries(entries, order, (count - 1) as nat);
        let shown = shown_entries(entries, order, count);
        lemma_shown_entries(entries, order, (count - 1) as nat);
        assert forall|r: int| 0 <= r < shown.len() implies exists|a: int|
            0 <= a < count && entries[order[a] as int].path@.len() > 0 && #[trigger] shown[r]
                == shown_entry(entries[#[trigger] order[a] as int]) by {
            if r < shorter.len() {
                assert(shorter[r] == shown[r]);
            } else {
                assert(shown[r] == shown_entry(entries[order[count - 1] as int]));
            }
        }
        assert forall|a: int|
            0 <= a < count && entries[#[trigger] order[a] as int].path@.len()
                > 0 implies shown.contains(shown_entry(entries[order[a] as int])) by {
            let entry = shown_entry(entries[order[a] as int]);
            if a < count - 1 {
                assert(shorter.contains(entry));
                let r = choose|r: int| 0 <= r < shorter.len() && shorter[r] == entry;
                assert(shown[r] == entry);
            } else {
                assert(shown[shown.len() - 1] == entry);
            }
        }
    }
}

/// A dropdown lists the entries that the settings do not hide, all of them and nothing else; only
/// the worktree's root, which has no name, is left out.
pub proof fn law_listing_holds_what_the_settings_allow(
    settings: BreadcrumbDirectoryListingSettings,
    entries: Seq<WorktreeEntry>,
    order: Seq<usize>,
    shown: Seq<DirectoryEntryView>,
)
    requires
        entries.len() <= usize::MAX,
        lists(settings, entries, order, shown),
    ensures
        forall|i: int|
            0 <= i < entries.len() && is_listed(settings, #[trigger] entries[i])
                && entries[i].path@.len() > 0 ==> shown.contains(shown_entry(entries[i])),
        forall|r: int|
            0 <= r < shown.len() ==> exists|i: int|
                0 <= i < entries.len() && is_listed(settings, #[trigger] entries[i])
                    && #[trigger] shown[r] == shown_entry(entries[i]),
{
    broadcast use vstd::seq_lib::group_to_multiset_ensures;

    let keep = listed_at(settings, entries);
    let listing = indices_where(entries.len(), keep);
    lemma_indices_where(entries.len(), keep);
    lemma_shown_entries(entries, order, order.len());
    assert forall|i: int|
        0 <= i < entries.len() && is_listed(settings, #[trigger] entries[i])
            && entries[i].path@.len() > 0 implies shown.contains(shown_entry(entries[i])) by {
        assert(keep(i));
        assert(listing.contains(i as usize));
        assert(order.to_multiset().count(i as usize) > 0);
        assert(order.contains(i as usize));
        let a = choose|a: int| 0 <= a < order.len() && order[a] == i as usize;
        assert(entries[order[a] as int] == entries[i]);
    }
    assert forall|r: int| 0 <= r < shown.len() implies exists|i: int|
        0 <= i < entries.len() && is_listed(settings, #[trigger] entries[i]) && #[trigger] shown[r]
            == shown_entry(entries[i]) by {
        let a = choose|a: int|
            0 <= a < order.len() && entries[order[a] as int].path@.len() > 0 && shown[r]
                == shown_entry(entries[#[trigger] order[a] as int]);
        assert(order.contains(order[a]));
        assert(listing.to_multiset().count(order[a]) > 0);
        assert(listing.contains(order[a]));
        let b = choose|b: int| 0 <= b < listing.len() && listing[b] == order[a];
        assert(keep(listing[b] as int));
        assert(is_listed(settings, entries[order[a] as int]));
    }
}

/// The settings, the entries and the order that the comparison gives under the settings determine
/// what a dropdown shows.
pub proof fn law_listing_is_determined<
    F: Fn(&RelPath, bool, &RelPath, bool, ProjectPanelSortMode, ProjectPanelSortOrder) -> bool,
>(
    settings: BreadcrumbDirectoryListingSettings,
    entries: Seq<WorktreeEntry>,
    compare_by: F,
    leq: spec_fn((RelPath, bool), (RelPath, bool)) -> bool,
    shown: Seq<DirectoryEntryView>,
    other_shown: Seq<DirectoryEntryView>,
)
    requires
        orders_paths(compare_by, settings, leq),
        lists_in_order(settings, entries, compare_by, shown),
        lists_in_order(settings, entries, compare_by, other_shown),
    ensures
        shown == other_shown,
{
    let order = choose|order: Seq<usize>|
        {
            &&& #[trigger] lists(settings, entries, order, shown)
            &&& forall|leq: spec_fn((RelPath, bool), (RelPath, bool)) -> bool| #[trigger]
                orders_paths(compare_by, settings, leq) ==> is_sorted(entries, by_path(leq), order)
        };
    let other = choose|order: Seq<usize>|
        {
            &&& #[trigger] lists(settings, entries, order, other_shown)
            &&& forall|leq: spec_fn((RelPath, bool), (RelPath, bool)) -> bool| #[trigger]
                orders_paths(compare_by, settings, leq) ==> is_sorted(entries, by_path(leq), order)
        };
    lemma_by_path_is_total(leq);
    law_stable_order_is_unique(entries, by_path(leq), order, other);
}

} // verus!
