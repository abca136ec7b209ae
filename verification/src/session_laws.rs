//! What becomes of a dropdown's session, of the symbols around the cursor and of an outline, told
//! from the sessions, the symbols and the depths themselves.

use vstd::prelude::*;

use crate::listing::{indices_where, lemma_indices_where};
use crate::outline::{
    are_siblings, is_child_of, is_outline_parent, is_top_level, lemma_outline_parent,
    lemma_parent_unique, outline_parent,
};
use crate::session::{
    buffer_trail_is, converts, handle_for, orphan_dismissed, trail_or_fallback,
};
use crate::state::{
    item_range, optionally_hides, BreadcrumbNavigation, BreadcrumbPopover, BreadcrumbState,
    BreadcrumbSymbolNavigation, ErasedBreadcrumbPopoverHandle,
};
use crate::settings::ShowDiagnostics;
use crate::status::{
    file_icon_color, severity, severity_color, Color, DiagnosticSeverity, DiagnosticSummary,
};
use crate::target::{BufferId, OutlineItem, OutlineItemView, SegmentTargetView};
use crate::toolbar::{id_of, PaneItem};

verus! {

/// A session is of a directory or of a symbol, and rests or moves, as its state says; nothing is
/// queued but behind a move.
pub proof fn law_what_a_session_is_of(
    navigation: BreadcrumbNavigation,
    symbol_navigation: BreadcrumbSymbolNavigation,
    pending: bool,
)
    ensures
        ({
            let closed = BreadcrumbPopover::Closed;
            let directory = BreadcrumbPopover::Directory(navigation);
            let symbol = BreadcrumbPopover::Symbol(symbol_navigation);
            let moving = BreadcrumbPopover::ReanchoringDirectory { navigation, pending };
            let moving_symbol = BreadcrumbPopover::ReanchoringSymbol {
                navigation: symbol_navigation,
                pending,
            };
            &&& closed.directory() is None && closed.symbol() is None
            &&& directory.directory() == Some(navigation) && directory.symbol() is None
            &&& moving.directory() == Some(navigation) && moving.symbol() is None
            &&& symbol.symbol() == Some(symbol_navigation) && symbol.directory() is None
            &&& moving_symbol.symbol() == Some(symbol_navigation) && moving_symbol.directory()
                is None
            &&& moving.is_reanchoring() && moving_symbol.is_reanchoring()
            &&& !closed.is_reanchoring() && !directory.is_reanchoring() && !symbol.is_reanchoring()
            &&& moving.is_pending() == pending && moving_symbol.is_pending() == pending
            &&& !closed.is_pending() && !directory.is_pending() && !symbol.is_pending()
        }),
{
}

/// A dropdown that is told where it hangs while it moves goes on moving, with nothing queued; told
/// so at rest, or where none is open, it rests there.
pub proof fn law_where_a_dropdown_hangs_now(
    popover: BreadcrumbPopover,
    navigation: BreadcrumbNavigation,
    symbol_navigation: BreadcrumbSymbolNavigation,
)
    ensures
        ({
            let moves = match popover {
                BreadcrumbPopover::ReanchoringDirectory { .. } => true,
                BreadcrumbPopover::ReanchoringSymbol { .. } => true,
                _ => false,
            };
            &&& popover.on_directory(navigation) == if moves {
                BreadcrumbPopover::ReanchoringDirectory { navigation, pending: false }
            } else {
                BreadcrumbPopover::Directory(navigation)
            }
            &&& popover.on_symbol(symbol_navigation) == if moves {
                BreadcrumbPopover::ReanchoringSymbol {
                    navigation: symbol_navigation,
                    pending: false,
                }
            } else {
                BreadcrumbPopover::Symbol(symbol_navigation)
            }
        }),
{
}

/// Queueing behind a move and finishing one change nothing else about the session, and neither
/// changes a session that does not move.
pub proof fn law_a_move_is_queued_and_finished_in_place(
    popover: BreadcrumbPopover,
    navigation: BreadcrumbNavigation,
    symbol_navigation: BreadcrumbSymbolNavigation,
    was_pending: bool,
    pending: bool,
)
    ensures
        ({
            let moving = BreadcrumbPopover::ReanchoringDirectory {
                navigation,
                pending: was_pending,
            };
            let moving_symbol = BreadcrumbPopover::ReanchoringSymbol {
                navigation: symbol_navigation,
                pending: was_pending,
            };
            &&& moving.with_pending(pending) == (BreadcrumbPopover::ReanchoringDirectory {
                navigation,
                pending,
            })
            &&& moving_symbol.with_pending(pending) == (BreadcrumbPopover::ReanchoringSymbol {
                navigation: symbol_navigation,
                pending,
            })
            &&& moving.settled() == BreadcrumbPopover::Directory(navigation)
            &&& moving_symbol.settled() == BreadcrumbPopover::Symbol(symbol_navigation)
            &&& !(popover is ReanchoringDirectory) && !(popover is ReanchoringSymbol)
                ==> popover.with_pending(pending) == popover && popover.settled() == popover
        }),
{
}

/// An orphaned dropdown is dismissed exactly where it rests on the orphaned segment: on a directory
/// of that worktree and path, or in that buffer on the symbol of that range or on the file itself.
pub proof fn law_an_orphan_is_dismissed_where_it_rests<H, S>(
    state: BreadcrumbState<H, S>,
    target: SegmentTargetView,
)
    ensures
        orphan_dismissed(state, target) <==> match (target, state.popover) {
            (
                SegmentTargetView::Directory { worktree_id, path, .. },
                BreadcrumbPopover::Directory(navigation),
            ) => navigation.worktree_id == worktree_id && navigation.active_path@ == path,
            (
                SegmentTargetView::Symbol { buffer_id, item, .. },
                BreadcrumbPopover::Symbol(navigation),
            ) => navigation.buffer_id == buffer_id && match (item, navigation.active_item) {
                (Some(item), Some(active)) => item.range == active.range,
                (None, None) => true,
                _ => false,
            },
            _ => false,
        },
        handle_for(state, target) == if target is Directory {
            state.directory_popover_handle
        } else {
            state.symbol_popover_handle
        },
{
}

/// A dropdown rests on the symbol of a range where its session names a symbol of that range, and on
/// the file where it names none.
pub proof fn law_a_dropdown_rests_on_a_range(
    navigation: BreadcrumbSymbolNavigation,
    item: OutlineItem,
    other: OutlineItemView,
)
    ensures
        item_range(None) is None,
        item_range(Some(other)) == Some(other.range),
        navigation.active_item is None ==> BreadcrumbPopover::Symbol(navigation).rests_on_symbol(
            navigation.buffer_id,
            None,
        ) && !BreadcrumbPopover::Symbol(navigation).rests_on_symbol(
            navigation.buffer_id,
            Some(other.range),
        ),
        navigation.active_item == Some(item) ==> (BreadcrumbPopover::Symbol(
            navigation,
        ).rests_on_symbol(navigation.buffer_id, Some(other.range)) <==> item.range == other.range)
            && !BreadcrumbPopover::Symbol(navigation).rests_on_symbol(navigation.buffer_id, None),
{
}

/// Where there is a handle its dropdown is hidden; where there is none nothing changes.
pub proof fn law_only_a_dropdown_with_a_handle_is_hidden<H: ErasedBreadcrumbPopoverHandle>(
    handle: H,
    before: H::App,
    after: H::App,
)
    ensures
        optionally_hides(Some(handle), before, after) == handle.hides(before, after),
        optionally_hides(None::<H>, before, after) <==> before == after,
{
}

/// A trail is shown whole, each symbol converted and in its place, or not at all: the stored symbol
/// is shown alone exactly where the trail is empty or one of it could not be converted.
pub proof fn law_a_trail_is_shown_whole_or_not_at_all<
    C: Fn(&OutlineItem) -> Option<OutlineItem>,
>(
    convert: C,
    trail: Seq<OutlineItem>,
    outcomes: Seq<Option<OutlineItem>>,
    item: OutlineItemView,
)
    requires
        converts(convert, trail, outcomes),
    ensures
        ({
            let shown = trail_or_fallback(outcomes, item);
            ||| {
                &&& shown.len() == trail.len() > 0
                &&& forall|i: int|
                    0 <= i < trail.len() ==> #[trigger] outcomes[i] is Some && call_ensures(
                        convert,
                        (&trail[i],),
                        outcomes[i],
                    ) && shown[i] == outcomes[i]->0@
            }
            ||| {
                &&& shown == seq![item]
                &&& trail.len() == 0 || exists|i: int|
                    0 <= i < trail.len() && #[trigger] outcomes[i] is None && call_ensures(
                        convert,
                        (&trail[i],),
                        outcomes[i],
                    )
            }
        }),
{
    let shown = trail_or_fallback(outcomes, item);
    if outcomes.len() == 0 {
        assert(trail.len() == 0);
    } else if outcomes.last() is None {
        let i = outcomes.len() - 1;
        assert(outcomes[i] is None);
        assert(call_ensures(convert, (&trail[i],), outcomes[i]));
    } else {
        assert forall|i: int| 0 <= i < outcomes.len() implies #[trigger] outcomes[i] is Some by {
            if i == outcomes.len() - 1 {
                assert(outcomes[i] == outcomes.last());
            }
        }
        assert(shown.len() == trail.len());
    }
}

/// The trail of a symbol is the cached one where that was cached for the same buffer in the same
/// version and for the same range, and is looked up otherwise.
pub proof fn law_a_trail_is_looked_up_unless_it_is_cached<
    H,
    S,
    L: Fn(BufferId, &OutlineItem) -> Vec<OutlineItem>,
>(
    state: BreadcrumbState<H, S>,
    version: Option<Seq<u32>>,
    buffer_id: BufferId,
    item: OutlineItem,
    lookup: L,
    trail: Vec<OutlineItem>,
)
    requires
        buffer_trail_is(state, version, buffer_id, &item, lookup, trail),
    ensures
        ({
            let fresh = state.symbol_trail_cache is Some && version is Some
                && state.symbol_trail_cache->0.buffer_id == buffer_id
                && state.symbol_trail_cache->0.version.values@ == version->0
                && state.symbol_trail_cache->0.range == item.range;
            &&& fresh ==> trail.deep_view() == state.symbol_trail_cache->0.trail.deep_view()
            &&& !fresh ==> call_ensures(lookup, (buffer_id, &item), trail)
        }),
{
}

/// The parent of an outline entry is the nearest one before it that is shallower; an entry before
/// which none is shallower has none.
pub proof fn law_the_parent_is_the_nearest_shallower_entry(
    depths: Seq<usize>,
    index: int,
    parent: int,
)
    requires
        0 <= index < depths.len() <= usize::MAX,
        -1 <= parent < index,
        parent >= 0 ==> depths[parent] < depths[index],
        forall|k: int| parent < k < index ==> depths[k] >= depths[index],
    ensures
        outline_parent(depths, index) == if parent < 0 {
            None
        } else {
            Some(parent as usize)
        },
{
    lemma_outline_parent(depths, index);
    let known = if parent < 0 {
        None
    } else {
        Some(parent as usize)
    };
    assert(is_outline_parent(depths, index, known));
    lemma_parent_unique(depths, index, known, outline_parent(depths, index));
}

/// An entry is listed among the children of another exactly where that one stands before it, is
/// shallower, and nothing between the two is shallower than the entry; and among the top-level
/// entries exactly where nothing before it is shallower.
pub proof fn law_entries_are_listed_by_their_depths(
    depths: Seq<usize>,
    index: int,
    parent: usize,
)
    requires
        0 <= index < depths.len() <= usize::MAX,
    ensures
        indices_where(depths.len(), is_child_of(depths, parent)).contains(index as usize) <==> parent
            < index && depths[parent as int] < depths[index] && forall|k: int|
            parent < k < index ==> depths[k] >= depths[index],
        indices_where(depths.len(), is_top_level(depths)).contains(index as usize) <==> forall|k: int|
            0 <= k < index ==> depths[k] >= depths[index],
{
    let known = outline_parent(depths, index);
    lemma_outline_parent(depths, index);
    lemma_indices_where(depths.len(), is_child_of(depths, parent));
    lemma_indices_where(depths.len(), is_top_level(depths));
    assert(is_child_of(depths, parent)(index) == (known == Some(parent)));
    assert(is_top_level(depths)(index) == (known is None));
    if is_outline_parent(depths, index, Some(parent)) {
        lemma_parent_unique(depths, index, Some(parent), known);
    }
    if is_outline_parent(depths, index, None) {
        lemma_parent_unique(depths, index, None, known);
    }
}

/// Two entries are siblings exactly where they hang under the same entry, or both under none.
pub proof fn law_siblings_hang_under_the_same_entry(depths: Seq<usize>, target: int, index: int)
    requires
        0 <= target < depths.len() <= usize::MAX,
        0 <= index < depths.len(),
    ensures
        indices_where(depths.len(), are_siblings(depths, target)).contains(index as usize) <==> (
        forall|parent: usize|
            #![trigger is_outline_parent(depths, target, Some(parent))]
            is_outline_parent(depths, target, Some(parent)) <==> is_outline_parent(
                depths,
                index,
                Some(parent),
            )),
{
    lemma_indices_where(depths.len(), are_siblings(depths, target));
    lemma_outline_parent(depths, target);
    lemma_outline_parent(depths, index);
    let a = outline_parent(depths, target);
    let b = outline_parent(depths, index);
    assert(are_siblings(depths, target)(index) == (b == a));
    assert forall|parent: usize| #[trigger]
        is_outline_parent(depths, target, Some(parent)) implies a == Some(parent) by {
        lemma_parent_unique(depths, target, Some(parent), a);
    }
    assert forall|parent: usize| #[trigger]
        is_outline_parent(depths, index, Some(parent)) implies b == Some(parent) by {
        lemma_parent_unique(depths, index, Some(parent), b);
    }
    if b != a {
        if let Some(p) = a {
            assert(is_outline_parent(depths, target, Some(p)));
        } else if let Some(q) = b {
            assert(is_outline_parent(depths, index, Some(q)));
            assert(!is_outline_parent(depths, target, Some(q)));
        }
    }
}

/// A listing of an outline goes from its top down and names no entry twice.
pub proof fn law_outline_listings_go_down(
    count: nat,
    keep: spec_fn(int) -> bool,
    a: int,
    b: int,
)
    requires
        count <= usize::MAX,
        0 <= a < b < indices_where(count, keep).len(),
    ensures
        indices_where(count, keep)[a] < indices_where(count, keep)[b] < count,
{
    lemma_indices_where(count, keep);
    assert(indices_where(count, keep)[b] < count);
}

/// Errors show wherever diagnostics do, warnings only where all of them do and there is no error.
pub proof fn law_warnings_show_where_all_diagnostics_do(summary: DiagnosticSummary)
    ensures
        severity(summary, ShowDiagnostics::Errors) is Some <==> summary.error_count > 0,
        severity(summary, ShowDiagnostics::All) == Some(DiagnosticSeverity::Warning)
            <==> summary.error_count == 0 && summary.warning_count > 0,
        severity(summary, ShowDiagnostics::All) == Some(DiagnosticSeverity::Error)
            <==> summary.error_count > 0,
        file_icon_color(Some(summary), ShowDiagnostics::Off) is Muted,
        file_icon_color(Some(summary), ShowDiagnostics::Errors) == if summary.error_count > 0 {
            Color::Error
        } else {
            Color::Muted
        },
        file_icon_color(Some(summary), ShowDiagnostics::All) == if summary.error_count > 0 {
            Color::Error
        } else if summary.warning_count > 0 {
            Color::Warning
        } else {
            Color::Muted
        },
        forall|shown: ShowDiagnostics| #[trigger] file_icon_color(None, shown) is Muted,
        severity_color(None) is Muted,
        severity_color(Some(DiagnosticSeverity::Warning)) is Warning,
        severity_color(Some(DiagnosticSeverity::Error)) is Error,
{
}

/// Items are told apart by their ids, and no item from every item.
pub proof fn law_items_are_told_apart_by_their_ids<I>(item: PaneItem<I>, other: PaneItem<I>)
    ensures
        id_of(Some(item)) == id_of(Some(other)) <==> item.item_id == other.item_id,
        id_of(Some(item)) == Some(item.item_id),
        id_of(None::<PaneItem<I>>) is None,
{
}

} // verus!
