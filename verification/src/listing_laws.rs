//! What a directory dropdown lists, where choosing one of its rows leads and which row is selected,
//! told from the worktree's entries and the settings.

use vstd::prelude::*;

use crate::directory::{
    active_selection, any_icon, chooses, entry_candidates, entry_in_row, entry_leads_to,
    first_children, folds_to, icon_source, is_descent, is_fold, match_leads_to,
    no_entries_text, only_listed_directory, row_icon, shown_summary, unqueried_matches,
    BreadcrumbDirectoryDelegate, BreadcrumbEntryIconSource, DirectoryActionView, EntryIcon,
};
use crate::entries::{
    by_path, is_listed, law_listing_holds_what_the_settings_allow, listed_at, lists,
    lists_in_order, orders_paths, shown_entries, shown_entry, BreadcrumbDirectoryEntry,
    DirectoryEntryView, WorktreeEntry,
};
use crate::listing::{first_where, indices_where, lemma_first_where, lemma_indices_where};
use crate::picker::{candidate_is, capped_candidates, MatchView, StringMatch};
use crate::rel_path::RelPath;
use crate::settings::{
    BreadcrumbDirectoryListingSettings, ProjectPanelSettingsContent, ProjectPanelSortMode,
    ProjectPanelSortOrder, SettingsContent,
};
use crate::sort::{goes_before, is_sorted, is_total_preorder, orders_by};
use crate::status::GitSummary;
use crate::target::WorktreeId;

verus! {

/// An entry is hidden by the setting against ignored entries where it is ignored, by the one
/// against hidden entries where it is hidden, and by nothing else.
pub proof fn law_either_setting_hides_an_entry(
    settings: BreadcrumbDirectoryListingSettings,
    entry: WorktreeEntry,
)
    ensures
        settings.hide_gitignore && entry.is_ignored ==> !is_listed(settings, entry),
        settings.hide_hidden && entry.is_hidden ==> !is_listed(settings, entry),
        !(settings.hide_gitignore && entry.is_ignored) && !(settings.hide_hidden
            && entry.is_hidden) ==> is_listed(settings, entry),
{
}

/// Turning on another setting against entries never brings one back.
pub proof fn law_hiding_more_never_brings_an_entry_back(
    settings: BreadcrumbDirectoryListingSettings,
    stricter: BreadcrumbDirectoryListingSettings,
    entry: WorktreeEntry,
)
    requires
        settings.hide_gitignore ==> stricter.hide_gitignore,
        settings.hide_hidden ==> stricter.hide_hidden,
        is_listed(stricter, entry),
    ensures
        is_listed(settings, entry),
{
}

/// Every row comes from a named entry that no setting hides, and shows its last name, its path and
/// its marks.
pub proof fn law_every_row_shows_an_entry_that_no_setting_hides(
    settings: BreadcrumbDirectoryListingSettings,
    entries: Seq<WorktreeEntry>,
    order: Seq<usize>,
    shown: Seq<DirectoryEntryView>,
    r: int,
)
    requires
        entries.len() <= usize::MAX,
        lists(settings, entries, order, shown),
        0 <= r < shown.len(),
    ensures
        exists|i: int|
            {
                &&& 0 <= i < entries.len()
                &&& !(settings.hide_gitignore && (#[trigger] entries[i]).is_ignored)
                &&& !(settings.hide_hidden && entries[i].is_hidden)
                &&& shown[r].path.len() > 0
                &&& shown[r].path == entries[i].path@
                &&& shown[r].name == entries[i].path@[shown[r].path.len() - 1]
                &&& shown[r].is_dir == entries[i].is_dir
                &&& shown[r].is_ignored == entries[i].is_ignored
                &&& shown[r].git_summary == entries[i].git_summary
            },
{
    law_listing_holds_what_the_settings_allow(settings, entries, order, shown);
    lemma_shown_entries_are_named(entries, order, order.len(), r);
    let i = choose|i: int|
        0 <= i < entries.len() && is_listed(settings, #[trigger] entries[i]) && shown[r]
            == shown_entry(entries[i]);
    assert(entries[i].path@ == shown[r].path);
}

/// Every named entry that no setting hides has a row, which shows its path and its marks.
pub proof fn law_every_named_entry_that_no_setting_hides_has_a_row(
    settings: BreadcrumbDirectoryListingSettings,
    entries: Seq<WorktreeEntry>,
    order: Seq<usize>,
    shown: Seq<DirectoryEntryView>,
    i: int,
)
    requires
        entries.len() <= usize::MAX,
        lists(settings, entries, order, shown),
        0 <= i < entries.len(),
        !(settings.hide_gitignore && entries[i].is_ignored),
        !(settings.hide_hidden && entries[i].is_hidden),
        entries[i].path@.len() > 0,
    ensures
        exists|r: int|
            {
                &&& 0 <= r < shown.len()
                &&& (#[trigger] shown[r]).path == entries[i].path@
                &&& shown[r].name == entries[i].path@[entries[i].path@.len() - 1]
                &&& shown[r].is_dir == entries[i].is_dir
                &&& shown[r].is_ignored == entries[i].is_ignored
                &&& shown[r].git_summary == entries[i].git_summary
            },
{
    law_listing_holds_what_the_settings_allow(settings, entries, order, shown);
    assert(is_listed(settings, entries[i]));
    let r = choose|r: int| 0 <= r < shown.len() && shown[r] == shown_entry(entries[i]);
    assert(shown[r].path == entries[i].path@);
}

proof fn lemma_shown_entries_are_named(
    entries: Seq<WorktreeEntry>,
    order: Seq<usize>,
    count: nat,
    r: int,
)
    requires
        0 <= r < shown_entries(entries, order, count).len(),
    ensures
        shown_entries(entries, order, count)[r].path.len() > 0,
    decreases count,
{
    if count > 0 {
        let shorter = shown_entries(entries, order, (count - 1) as nat);
        if r < shorter.len() {
            lemma_shown_entries_are_named(entries, order, (count - 1) as nat, r);
        }
    }
}

/// The rows follow each other as the comparison of their paths orders them, directories and files
/// told apart by its flags, and of two that it does not tell apart the earlier entry goes first.
pub proof fn law_a_listing_is_in_the_order_of_its_paths<
    F: Fn(&RelPath, bool, &RelPath, bool, ProjectPanelSortMode, ProjectPanelSortOrder) -> bool,
>(
    settings: BreadcrumbDirectoryListingSettings,
    entries: Seq<WorktreeEntry>,
    compare_by: F,
    leq: spec_fn((RelPath, bool), (RelPath, bool)) -> bool,
    shown: Seq<DirectoryEntryView>,
    a: int,
    b: int,
)
    requires
        entries.len() <= usize::MAX,
        forall|x: (RelPath, bool), y: (RelPath, bool)| #[trigger] leq(x, y) || leq(y, x),
        forall|x: (RelPath, bool), y: (RelPath, bool), z: (RelPath, bool)|
            #![trigger leq(x, y), leq(y, z)]
            leq(x, y) && leq(y, z) ==> leq(x, z),
        forall|x: &RelPath, x_is_file: bool, y: &RelPath, y_is_file: bool, result: bool| #[trigger]
            call_ensures(
                compare_by,
                (x, x_is_file, y, y_is_file, settings.sort_mode, settings.sort_order),
                result,
            ) ==> result == leq((*x, x_is_file), (*y, y_is_file)),
        lists_in_order(settings, entries, compare_by, shown),
        0 <= a < b < shown.len(),
    ensures
        exists|i: int, j: int|
            #![trigger entries[i], entries[j]]
            {
                &&& 0 <= i < entries.len()
                &&& 0 <= j < entries.len()
                &&& shown[a].path == entries[i].path@
                &&& shown[b].path == entries[j].path@
                &&& shown[a].is_dir == entries[i].is_dir
                &&& shown[b].is_dir == entries[j].is_dir
                &&& leq((entries[i].path, !entries[i].is_dir), (entries[j].path, !entries[j].is_dir))
                &&& leq((entries[j].path, !entries[j].is_dir), (entries[i].path, !entries[i].is_dir))
                    ==> i <= j
            },
{
    broadcast use vstd::seq_lib::group_to_multiset_ensures;

    let order = choose|order: Seq<usize>|
        {
            &&& #[trigger] lists(settings, entries, order, shown)
            &&& forall|leq: spec_fn((RelPath, bool), (RelPath, bool)) -> bool| #[trigger]
                orders_paths(compare_by, settings, leq) ==> is_sorted(entries, by_path(leq), order)
        };
    assert(orders_paths(compare_by, settings, leq));
    let (k, l) = lemma_shown_entries_follow_the_order(entries, order, order.len(), a, b);
    let listing = indices_where(entries.len(), listed_at(settings, entries));
    lemma_indices_where(entries.len(), listed_at(settings, entries));
    assert(order.contains(order[k]) && order.contains(order[l]));
    assert(order.to_multiset().count(order[k]) > 0);
    assert(order.to_multiset().count(order[l]) > 0);
    assert(listing.contains(order[k]) && listing.contains(order[l]));
    let i = order[k] as int;
    let j = order[l] as int;
    assert(goes_before(entries, by_path(leq), order[k], order[l]));
    assert(by_path(leq)(entries[i], entries[j]));
    assert(by_path(leq)(entries[j], entries[i]) == leq(
        (entries[j].path, !entries[j].is_dir),
        (entries[i].path, !entries[i].is_dir),
    ));
}

proof fn lemma_shown_entries_follow_the_order(
    entries: Seq<WorktreeEntry>,
    order: Seq<usize>,
    count: nat,
    a: int,
    b: int,
) -> (found: (int, int))
    requires
        count <= order.len(),
        0 <= a < b < shown_entries(entries, order, count).len(),
    ensures
        0 <= found.0 < found.1 < count,
        shown_entries(entries, order, count)[a] == shown_entry(entries[order[found.0] as int]),
        shown_entries(entries, order, count)[b] == shown_entry(entries[order[found.1] as int]),
    decreases count,
{
    let shorter = shown_entries(entries, order, (count - 1) as nat);
    if b < shorter.len() {
        lemma_shown_entries_follow_the_order(entries, order, (count - 1) as nat, a, b)
    } else {
        (lemma_shown_entry_is_in_the_order(entries, order, (count - 1) as nat, a), count - 1)
    }
}

proof fn lemma_shown_entry_is_in_the_order(
    entries: Seq<WorktreeEntry>,
    order: Seq<usize>,
    count: nat,
    a: int,
) -> (found: int)
    requires
        count <= order.len(),
        0 <= a < shown_entries(entries, order, count).len(),
    ensures
        0 <= found < count,
        shown_entries(entries, order, count)[a] == shown_entry(entries[order[found] as int]),
    decreases count,
{
    let shorter = shown_entries(entries, order, (count - 1) as nat);
    if a < shorter.len() {
        lemma_shown_entry_is_in_the_order(entries, order, (count - 1) as nat, a)
    } else {
        count - 1
    }
}

/// A sorted order puts each item before those that it is smaller than, and keeps those apart only
/// by their place that the order does not tell apart.
pub proof fn law_a_sorted_order_is_ascending_and_stable<T>(
    items: Seq<T>,
    leq: spec_fn(T, T) -> bool,
    order: Seq<usize>,
    a: int,
    b: int,
)
    requires
        is_sorted(items, leq, order),
        0 <= a < b < order.len(),
    ensures
        leq(items[order[a] as int], items[order[b] as int]),
        leq(items[order[b] as int], items[order[a] as int]) ==> order[a] <= order[b],
{
    assert(goes_before(items, leq, order[a], order[b]));
}

/// The entry at `i` is the one entry of a directory that no setting hides, and a directory.
pub open spec fn is_only_shown_directory(
    settings: BreadcrumbDirectoryListingSettings,
    entries: Seq<WorktreeEntry>,
    i: int,
) -> bool {
    &&& 0 <= i < entries.len()
    &&& !(settings.hide_gitignore && entries[i].is_ignored)
    &&& !(settings.hide_hidden && entries[i].is_hidden)
    &&& entries[i].is_dir
    &&& forall|j: int|
        0 <= j < entries.len() && j != i ==> settings.hide_gitignore && (
        #[trigger] entries[j]).is_ignored || settings.hide_hidden && entries[j].is_hidden
}

proof fn lemma_first_children(
    settings: BreadcrumbDirectoryListingSettings,
    entries: Seq<WorktreeEntry>,
)
    requires
        entries.len() <= usize::MAX,
    ensures
        first_children(settings, entries).len() == 1 && first_children(settings, entries)[0].1
            ==> exists|i: int| #[trigger]
            is_only_shown_directory(settings, entries, i) && entries[i].path@ == first_children(
                settings,
                entries,
            )[0].0,
        forall|i: int| #[trigger]
            is_only_shown_directory(settings, entries, i) ==> first_children(settings, entries)
                == seq![(entries[i].path@, true)],
{
    let keep = listed_at(settings, entries);
    let listing = indices_where(entries.len(), keep);
    let children = first_children(settings, entries);
    lemma_indices_where(entries.len(), keep);
    if children.len() == 1 && children[0].1 {
        let i = listing[0] as int;
        assert(keep(i));
        assert(is_listed(settings, entries[i]));
        assert(listing.len() == 1);
        assert(children[0] == (entries[i].path@, entries[i].is_dir));
        assert(entries[i].is_dir);
        assert forall|j: int| 0 <= j < entries.len() && j != i implies settings.hide_gitignore && (
        #[trigger] entries[j]).is_ignored || settings.hide_hidden && entries[j].is_hidden by {
            if keep(j) {
                assert(listing.contains(j as usize));
                let a = choose|a: int| 0 <= a < listing.len() && listing[a] == j as usize;
                assert(a == 0);
            }
            assert(!keep(j));
        }
        if !settings.hide_gitignore && !settings.hide_hidden && entries.len() > 1 {
            let j = if i == 0 {
                1int
            } else {
                0int
            };
            assert(is_listed(settings, entries[j]));
        }
        assert(is_only_shown_directory(settings, entries, i));
    }
    assert forall|i: int| #[trigger] is_only_shown_directory(settings, entries, i) implies children
        == seq![(entries[i].path@, true)] by {
        assert(keep(i));
        let a = choose|a: int| 0 <= a < listing.len() && listing[a] == i as usize;
        assert forall|b: int| 0 <= b < listing.len() implies #[trigger] listing[b] == listing[a] && b
            == a by {
            let j = listing[b] as int;
            assert(keep(j));
            assert(j == i) by {
                if j != i {
                    assert(settings.hide_gitignore && entries[j].is_ignored || settings.hide_hidden
                        && entries[j].is_hidden);
                }
            }
            if b < a {
                assert(listing[b] < listing[a]);
            } else if a < b {
                assert(listing[a] < listing[b]);
            }
        }
        assert(listing.len() == 1) by {
            if listing.len() > 1 {
                assert(listing[0] == listing[a] && listing[1] == listing[a]);
            }
        }
        assert(children =~= seq![(entries[i].path@, true)]);
    }
}

/// Choosing a directory folds from each directory into the one entry that no setting hides in it,
/// a directory too; and unless sixty-four steps were taken it ends at a directory that has no such
/// entry.
pub proof fn law_each_fold_step_enters_the_only_shown_directory<
    S: Fn(&RelPath) -> Vec<WorktreeEntry>,
>(
    settings: BreadcrumbDirectoryListingSettings,
    child_entries: S,
    chain: Seq<RelPath>,
    folders: Seq<Vec<WorktreeEntry>>,
    k: int,
)
    requires
        is_fold(settings, child_entries, chain, folders),
        0 <= k < folders.len(),
    ensures
        1 <= chain.len() <= 65,
        call_ensures(child_entries, (&chain[k],), folders[k]),
        folders.len() == if chain.len() <= 64 {
            chain.len() as int
        } else {
            64
        },
        k + 1 < chain.len() ==> exists|i: int| #[trigger]
            is_only_shown_directory(settings, folders[k]@, i) && folders[k]@[i].path@ == chain[k
                + 1]@,
        k + 1 == chain.len() ==> forall|i: int| !#[trigger]
            is_only_shown_directory(settings, folders[k]@, i),
{
    let entries = folders[k]@;
    vstd::std_specs::vec::axiom_spec_len(&folders[k]);
    lemma_first_children(settings, entries);
    if k + 1 < chain.len() {
        assert(only_listed_directory(settings, folders[k]@) == Some(chain[k + 1]@));
    } else {
        assert(only_listed_directory(settings, folders[k]@) is None);
    }
}

/// A descent goes from each directory into its one child, a directory too; and unless sixty-four
/// steps were taken it ends at a directory whose children are not that.
pub proof fn law_each_descent_step_enters_the_only_child<F: Fn(&RelPath) -> Vec<(RelPath, bool)>>(
    child_entries: F,
    chain: Seq<RelPath>,
    listings: Seq<Vec<(RelPath, bool)>>,
    k: int,
)
    requires
        is_descent(child_entries, chain, listings),
        0 <= k < listings.len(),
    ensures
        1 <= chain.len() <= 65,
        call_ensures(child_entries, (&chain[k],), listings[k]),
        listings.len() == if chain.len() <= 64 {
            chain.len() as int
        } else {
            64
        },
        k + 1 < chain.len() ==> listings[k]@ == seq![(chain[k + 1], true)],
        k + 1 == chain.len() ==> listings[k]@.len() != 1 || !listings[k]@[0].1,
{
    if k + 1 < chain.len() {
        assert(listings[k]@ =~= seq![(chain[k + 1], true)]);
    }
}

/// Of a directory's entries the first two that no setting hides are handed out, each with whether
/// it is a directory.
pub proof fn law_the_first_two_shown_children_are_handed_out(
    settings: BreadcrumbDirectoryListingSettings,
    entries: Seq<WorktreeEntry>,
    i: int,
    j: int,
)
    requires
        0 <= i < j < entries.len() <= usize::MAX,
        forall|k: int|
            0 <= k < j && k != i ==> settings.hide_gitignore && (
            #[trigger] entries[k]).is_ignored || settings.hide_hidden && entries[k].is_hidden,
        !(settings.hide_gitignore && entries[i].is_ignored),
        !(settings.hide_hidden && entries[i].is_hidden),
        !(settings.hide_gitignore && entries[j].is_ignored),
        !(settings.hide_hidden && entries[j].is_hidden),
    ensures
        first_children(settings, entries) == seq![
            (entries[i].path@, entries[i].is_dir),
            (entries[j].path@, entries[j].is_dir),
        ],
{
    let keep = listed_at(settings, entries);
    let listing = indices_where(entries.len(), keep);
    lemma_indices_where(entries.len(), keep);
    assert(keep(i) && keep(j));
    let a = choose|a: int| 0 <= a < listing.len() && listing[a] == i as usize;
    let b = choose|b: int| 0 <= b < listing.len() && listing[b] == j as usize;
    assert(a == 0) by {
        if a > 0 {
            assert(listing[0] < listing[a]);
            assert(keep(listing[0] as int));
            assert(!keep(listing[0] as int)) by {
                let k = listing[0] as int;
                assert(settings.hide_gitignore && entries[k].is_ignored || settings.hide_hidden
                    && entries[k].is_hidden);
            }
        }
    }
    assert(b == 1) by {
        if b > 1 {
            assert(listing[0] < listing[1]);
            assert(listing[1] < listing[b]);
            let k = listing[1] as int;
            assert(keep(k));
            assert(settings.hide_gitignore && entries[k].is_ignored || settings.hide_hidden
                && entries[k].is_hidden);
        } else if b == 0 {
            assert(listing[a] == listing[b]);
        }
    }
    assert(first_children(settings, entries) =~= seq![
        (entries[i].path@, entries[i].is_dir),
        (entries[j].path@, entries[j].is_dir),
    ]);
}

/// Where one entry of a directory is shown it alone is handed out, and where none is nothing is.
pub proof fn law_a_single_shown_child_is_handed_out(
    settings: BreadcrumbDirectoryListingSettings,
    entries: Seq<WorktreeEntry>,
    i: int,
)
    requires
        -1 <= i < entries.len() <= usize::MAX,
        forall|k: int|
            0 <= k < entries.len() && k != i ==> settings.hide_gitignore && (
            #[trigger] entries[k]).is_ignored || settings.hide_hidden && entries[k].is_hidden,
        i >= 0 ==> !(settings.hide_gitignore && entries[i].is_ignored) && !(settings.hide_hidden
            && entries[i].is_hidden),
    ensures
        first_children(settings, entries) == if i < 0 {
            Seq::empty()
        } else {
            seq![(entries[i].path@, entries[i].is_dir)]
        },
{
    let keep = listed_at(settings, entries);
    let listing = indices_where(entries.len(), keep);
    lemma_indices_where(entries.len(), keep);
    assert forall|b: int| 0 <= b < listing.len() implies #[trigger] listing[b] == i by {
        let k = listing[b] as int;
        assert(keep(k));
        if k != i {
            assert(settings.hide_gitignore && entries[k].is_ignored || settings.hide_hidden
                && entries[k].is_hidden);
        }
    }
    if listing.len() > 1 {
        assert(listing[0] < listing[1]);
    }
    if i >= 0 {
        assert(keep(i));
        let a = choose|a: int| 0 <= a < listing.len() && listing[a] == i as usize;
        assert(listing.len() == 1);
        assert(first_children(settings, entries) =~= seq![(entries[i].path@, entries[i].is_dir)]);
    } else {
        if listing.len() > 0 {
            assert(listing[0] == i);
        }
        assert(first_children(settings, entries) =~= Seq::empty());
    }
}

/// Choosing a file opens it. Choosing a directory does nothing without its worktree, goes to the
/// directory where folding is off, and goes to where the fold from it ends where it is on; always
/// within the dropdown's own worktree.
pub proof fn law_where_choosing_an_entry_leads<S: Fn(&RelPath) -> Vec<WorktreeEntry>>(
    worktree_id: WorktreeId,
    entry: DirectoryEntryView,
    has_worktree: bool,
    settings: BreadcrumbDirectoryListingSettings,
    child_entries: S,
    action: DirectoryActionView,
)
    requires
        chooses(worktree_id, entry, has_worktree, settings, child_entries, action),
    ensures
        !entry.is_dir ==> action == (DirectoryActionView::OpenFile {
            worktree_id,
            path: entry.path,
        }),
        entry.is_dir && !has_worktree ==> action is Nothing,
        entry.is_dir && has_worktree && !settings.auto_fold_dirs ==> action == (
        DirectoryActionView::Navigate { worktree_id, path: entry.path }),
        entry.is_dir && has_worktree && settings.auto_fold_dirs ==> exists|
            chain: Seq<RelPath>,
            folders: Seq<Vec<WorktreeEntry>>,
        |
            #![trigger is_fold(settings, child_entries, chain, folders)]
            is_fold(settings, child_entries, chain, folders) && chain.len() > 0 && chain[0]@
                == entry.path && action == (DirectoryActionView::Navigate {
                worktree_id,
                path: chain[chain.len() - 1]@,
            }),
{
    if entry.is_dir && has_worktree && settings.auto_fold_dirs {
        let reached = action->Navigate_path;
        assert(folds_to(settings, child_entries, entry.path, reached));
        let (chain, folders) = choose|chain: Seq<RelPath>, folders: Seq<Vec<WorktreeEntry>>|
            {
                &&& #[trigger] is_fold(settings, child_entries, chain, folders)
                &&& chain[0]@ == entry.path
                &&& chain.last()@ == reached
            };
        assert(is_fold(settings, child_entries, chain, folders));
        assert(action == (DirectoryActionView::Navigate {
            worktree_id,
            path: chain[chain.len() - 1]@,
        }));
    }
}

/// A row shows the entry that its match names, where there is one.
pub proof fn law_a_row_shows_the_entry_of_its_match(
    entries: Seq<BreadcrumbDirectoryEntry>,
    matches: Seq<StringMatch>,
    index: int,
)
    ensures
        entry_in_row(entries, matches, index) matches Some(entry) ==> 0 <= index < matches.len()
            && matches[index].candidate_id < entries.len() && entry
            == entries[matches[index].candidate_id as int],
        entry_in_row(entries, matches, index) is None ==> !(0 <= index < matches.len())
            || matches[index].candidate_id >= entries.len(),
{
}

/// An entry is searched for by its name, and known by its position.
pub proof fn law_entries_are_searched_by_name(entries: Seq<DirectoryEntryView>, i: int)
    requires
        0 <= i < entries.len() <= usize::MAX,
    ensures
        entry_candidates(entries).len() == entries.len(),
        entry_candidates(entries)[i].id == i,
        entry_candidates(entries)[i].string == entries[i].name,
{
}

/// A directory shows its folder where folders are shown and a chevron otherwise; a file shows its
/// icon where file icons are shown and nothing otherwise. A folder is open exactly where it lies on
/// the way to the active file.
pub proof fn law_icons_follow_the_settings(
    entry: DirectoryEntryView,
    active_path: Option<Seq<Seq<char>>>,
    settings: BreadcrumbDirectoryListingSettings,
)
    ensures
        ({
            let icon = row_icon(entry, active_path, settings);
            let source = icon_source(entry.is_dir, settings.file_icons, settings.folder_icons);
            let on_the_way = match active_path {
                Some(path) => entry.path.len() <= path.len() && entry.path == path.take(
                    entry.path.len() as int,
                ),
                None => false,
            };
            &&& entry.is_dir && settings.folder_icons ==> source
                == BreadcrumbEntryIconSource::Folder && icon == (EntryIcon::Folder {
                open: on_the_way,
            })
            &&& entry.is_dir && !settings.folder_icons ==> source
                == BreadcrumbEntryIconSource::Chevron && icon is Chevron
            &&& !entry.is_dir && settings.file_icons ==> source == BreadcrumbEntryIconSource::File
                && icon is File
            &&& !entry.is_dir && !settings.file_icons ==> source
                == BreadcrumbEntryIconSource::NoIcon && icon is NoIcon
        }),
{
    if let Some(path) = active_path {
        if entry.path.len() <= path.len() {
            assert(entry.path.is_prefix_of(path) == (entry.path =~= path.take(
                entry.path.len() as int,
            )));
        }
    }
}

/// Room for icons is kept exactly where a row has one: where there is a directory, or a file and
/// file icons are shown.
pub proof fn law_room_for_icons_is_kept_where_a_row_has_one(
    entries: Seq<DirectoryEntryView>,
    settings: BreadcrumbDirectoryListingSettings,
)
    ensures
        any_icon(entries, settings) <==> exists|i: int|
            0 <= i < entries.len() && ((#[trigger] entries[i]).is_dir || settings.file_icons),
{
    if exists|i: int| 0 <= i < entries.len() && ((#[trigger] entries[i]).is_dir
        || settings.file_icons) {
        let i = choose|i: int|
            0 <= i < entries.len() && ((#[trigger] entries[i]).is_dir || settings.file_icons);
        assert(icon_source(entries[i].is_dir, settings.file_icons, settings.folder_icons)
            != BreadcrumbEntryIconSource::NoIcon);
    }
    if any_icon(entries, settings) {
        let i = choose|i: int|
            0 <= i < entries.len() && icon_source(
                (#[trigger] entries[i]).is_dir,
                settings.file_icons,
                settings.folder_icons,
            ) != BreadcrumbEntryIconSource::NoIcon;
        assert(entries[i].is_dir || settings.file_icons);
    }
}

/// A row shows its entry's git summary where git status is shown, and counts nothing otherwise.
pub proof fn law_git_status_is_shown_where_it_is_on(entry: DirectoryEntryView)
    ensures
        shown_summary(entry, true) == entry.git_summary,
        ({
            let summary: GitSummary = shown_summary(entry, false);
            &&& summary.index.added == 0 && summary.index.modified == 0 && summary.index.deleted
                == 0
            &&& summary.worktree.added == 0 && summary.worktree.modified == 0
                && summary.worktree.deleted == 0
            &&& summary.conflict == 0 && summary.untracked == 0 && summary.count == 0
        }),
{
}

/// Under an empty query the first row is selected whose entry lies on the way to the active file,
/// and the first of all where none does.
pub proof fn law_the_first_row_on_the_way_is_selected(
    entries: Seq<DirectoryEntryView>,
    matches: Seq<MatchView>,
    active_path: Seq<Seq<char>>,
)
    requires
        matches.len() <= usize::MAX,
        forall|r: int|
            0 <= r < matches.len() ==> (#[trigger] matches[r]).candidate_id < entries.len(),
    ensures
        ({
            let selected = active_selection(entries, matches, active_path);
            &&& forall|r: int|
                0 <= r < selected ==> !entries[(
                #[trigger] matches[r]).candidate_id as int].path.is_prefix_of(active_path)
            &&& selected < matches.len()
                && entries[matches[selected as int].candidate_id as int].path.is_prefix_of(
                active_path,
            ) || selected == 0 && forall|r: int|
                0 <= r < matches.len() ==> !entries[(
                #[trigger] matches[r]).candidate_id as int].path.is_prefix_of(active_path)
        }),
{
    let leads = match_leads_to(entries, matches, active_path);
    lemma_first_where(matches.len(), leads, 0);
    let selected = active_selection(entries, matches, active_path);
    assert forall|r: int| 0 <= r < selected implies !entries[(
    #[trigger] matches[r]).candidate_id as int].path.is_prefix_of(active_path) by {
        assert(!leads(r));
    }
    if first_where(matches.len(), leads, 0) is None {
        assert forall|r: int| 0 <= r < matches.len() implies !entries[(
        #[trigger] matches[r]).candidate_id as int].path.is_prefix_of(active_path) by {
            assert(!leads(r));
        }
    }
}

/// Under an empty query without an active file, and with one that lies within the first two hundred
/// entries or nowhere among them, the rows are the first two hundred entries, unfiltered.
pub proof fn law_an_empty_query_lists_the_first_entries(
    entries: Seq<DirectoryEntryView>,
    active_path: Option<Seq<Seq<char>>>,
    r: int,
)
    requires
        entries.len() <= usize::MAX,
        active_path matches Some(path) ==> {
            ||| forall|i: int|
                0 <= i < entries.len() ==> !(#[trigger] entries[i]).path.is_prefix_of(path)
            ||| exists|i: int|
                0 <= i < entries.len() && i < 200 && (#[trigger] entries[i]).path.is_prefix_of(path)
        },
        0 <= r < entries.len(),
        r < 200,
    ensures
        ({
            let matches = unqueried_matches(entries, entry_candidates(entries), active_path);
            &&& matches.len() == if entries.len() <= 200 {
                entries.len() as int
            } else {
                200
            }
            &&& matches[r].candidate_id == r
            &&& matches[r].string == entries[r].name
            &&& matches[r].positions.len() == 0
        }),
{
    let candidates = entry_candidates(entries);
    if let Some(path) = active_path {
        let keep = entry_leads_to(entries, path);
        lemma_first_where(entries.len(), keep, 0);
        if exists|i: int|
            0 <= i < entries.len() && i < 200 && (#[trigger] entries[i]).path.is_prefix_of(path) {
            let i = choose|i: int|
                0 <= i < entries.len() && i < 200 && (#[trigger] entries[i]).path.is_prefix_of(
                    path,
                );
            assert(keep(i));
            let id = first_where(entries.len(), keep, 0)->0;
            let same = candidate_is(candidates, id);
            lemma_first_where(candidates.len(), same, 0);
            assert(same(id as int));
        } else {
            if let Some(id) = first_where(entries.len(), keep, 0) {
                assert(keep(id as int));
                assert(entries[id as int].path.is_prefix_of(path));
            }
        }
    }
    assert(capped_candidates(candidates, None, 200)[r] == candidates[r]);
}

/// Under an empty query with an active file, the first entry on the way to it is the one to keep among
/// the two hundred that are shown.
pub proof fn law_the_way_to_the_active_file_is_kept(
    entries: Seq<DirectoryEntryView>,
    active_path: Seq<Seq<char>>,
    index: int,
    r: int,
)
    requires
        0 <= index < entries.len() <= usize::MAX,
        entries[index].path.is_prefix_of(active_path),
        forall|i: int|
            0 <= i < index ==> !(#[trigger] entries[i]).path.is_prefix_of(active_path),
    ensures
        ({
            let matches = unqueried_matches(
                entries,
                entry_candidates(entries),
                Some(active_path),
            );
            let shown = capped_candidates(entry_candidates(entries), Some(index as usize), 200);
            &&& matches.len() == shown.len()
            &&& 0 <= r < matches.len() ==> matches[r].candidate_id == shown[r].id
                && matches[r].string == shown[r].string && matches[r].positions.len() == 0
        }),
{
    let keep = entry_leads_to(entries, active_path);
    lemma_first_where(entries.len(), keep, 0);
    assert(keep(index));
    let found = first_where(entries.len(), keep, 0)->0 as int;
    assert(keep(found));
    assert(entries[found].path.is_prefix_of(active_path));
}

/// A comparison orders items by a relation that compares any two of them, is transitive and is what
/// the comparison gives, and by every such relation.
pub proof fn law_what_orders_items<T, F: Fn(&T, &T) -> bool>(
    compare: F,
    leq: spec_fn(T, T) -> bool,
)
    requires
        forall|x: T, y: T| #[trigger] leq(x, y) || leq(y, x),
        forall|x: T, y: T, z: T|
            #![trigger leq(x, y), leq(y, z)]
            leq(x, y) && leq(y, z) ==> leq(x, z),
        forall|x: &T, y: &T, result: bool| #[trigger]
            call_ensures(compare, (x, y), result) ==> result == leq(*x, *y),
    ensures
        is_total_preorder(leq),
        orders_by(compare, leq),
{
}

/// A dropdown that lists a directory searches its entries by their names, each known by its place,
/// and keeps room for icons where one of them has one.
pub proof fn law_a_dropdown_lists_its_directory<
    F: Fn(&RelPath, bool, &RelPath, bool, ProjectPanelSortMode, ProjectPanelSortOrder) -> bool,
>(
    delegate: BreadcrumbDirectoryDelegate,
    source: Seq<WorktreeEntry>,
    settings: BreadcrumbDirectoryListingSettings,
    compare_by: F,
    i: int,
)
    requires
        delegate.lists_source(source, settings, compare_by),
    ensures
        lists_in_order(settings, source, compare_by, delegate.entries.deep_view()),
        delegate.candidates@.len() == delegate.entries@.len(),
        0 <= i < delegate.entries@.len() ==> delegate.candidates@[i].id == i as usize
            && delegate.candidates@[i].string@ == delegate.entries@[i].name@,
        delegate.show_icons == any_icon(delegate.entries.deep_view(), settings),
{
    let entries = delegate.entries.deep_view();
    assert(delegate.candidates.deep_view().len() == delegate.candidates@.len());
    if 0 <= i < delegate.entries@.len() {
        assert(delegate.candidates.deep_view()[i] == delegate.candidates@[i]@);
        assert(entries[i] == delegate.entries@[i]@);
    }
}

/// Under an empty query a dropdown shows the rows of an empty query, and selects the one on the way
/// to the active file; without an active file the selection stays.
pub proof fn law_an_empty_query_selects_the_way_to_the_active_file(
    delegate: BreadcrumbDirectoryDelegate,
    selected_before: usize,
)
    requires
        delegate.shows_all(selected_before),
    ensures
        delegate.matches.deep_view() == unqueried_matches(
            delegate.entries.deep_view(),
            delegate.candidates.deep_view(),
            delegate.active_path.deep_view(),
        ),
        delegate.active_path is None ==> delegate.selected_index == selected_before,
        delegate.active_path matches Some(active_path) ==> delegate.selected_index
            == active_selection(
            delegate.entries.deep_view(),
            delegate.matches.deep_view(),
            active_path@,
        ),
{
}

/// The texts of a dropdown without rows: of a directory that is empty, and of one that no query
/// matches in.
pub proof fn law_a_directory_without_rows_says_why(entry_count: nat)
    ensures
        entry_count == 0 ==> no_entries_text(entry_count) == "Empty directory"@,
        entry_count > 0 ==> no_entries_text(entry_count) == "No matches"@,
{
}

/// The settings that a listing reads are complete where each of them is there, and whether git status
/// is enabled where the panel shows it.
pub proof fn law_what_complete_settings_hold(
    content: SettingsContent,
    panel: ProjectPanelSettingsContent,
)
    requires
        content.project_panel == Some(panel),
        panel.sort_mode is Some,
        panel.sort_order is Some,
        panel.hide_gitignore is Some,
        panel.hide_hidden is Some,
        panel.file_icons is Some,
        panel.folder_icons is Some,
        panel.git_status is Some,
        panel.show_diagnostics is Some,
        panel.diagnostic_badges is Some,
        panel.auto_fold_dirs is Some,
        panel.git_status->0 ==> content.git is Some && content.git->0.git_status_enabled is Some,
    ensures
        content.is_complete(),
{
}

} // verus!
