//! How a dropdown session follows the editor: which symbol it hangs under, and when it ends.

use vstd::prelude::*;

use crate::state::{
    cached_trail, item_range, optionally_hides, BreadcrumbNavigation, BreadcrumbPopover,
    BreadcrumbState, BreadcrumbSymbolNavigation, ErasedBreadcrumbPopoverHandle, Global,
    SymbolTrailCache,
};
use crate::target::{
    AnchorRange, BreadcrumbSegmentTarget, BufferId, OutlineItem, OutlineItemView,
    SegmentTargetView,
};

verus! {

/// What of the bar's state ends with the dropdown of a segment that the row no longer shows.
pub open spec fn orphan_dismissed<H, S>(
    state: BreadcrumbState<H, S>,
    target: SegmentTargetView,
) -> bool {
    match target {
        SegmentTargetView::Directory { worktree_id, path, .. } => state.popover.rests_on_directory(
            worktree_id,
            path,
        ),
        SegmentTargetView::Symbol { buffer_id, item, .. } => state.popover.rests_on_symbol(
            buffer_id,
            item_range(item),
        ),
    }
}

/// The handle of the dropdown that opens under a segment.
pub open spec fn handle_for<H, S>(
    state: BreadcrumbState<H, S>,
    target: SegmentTargetView,
) -> Option<H> {
    match target {
        SegmentTargetView::Directory { .. } => state.directory_popover_handle,
        SegmentTargetView::Symbol { .. } => state.symbol_popover_handle,
    }
}

/// Called when the layout drops the anchored segment: otherwise the dropdown stays deployed with
/// no trigger left to dismiss it. Tells whether a session ended.
pub fn dismiss_orphaned_breadcrumb_popover<H: ErasedBreadcrumbPopoverHandle, S>(
    state: &mut BreadcrumbState<H, S>,
    target: &BreadcrumbSegmentTarget,
    cx: &mut H::App,
) -> (cleared: bool)
    ensures
        optionally_hides(handle_for(*old(state), target@), *old(cx), *final(cx)),
        cleared == orphan_dismissed(*old(state), target@),
        *final(state) == if cleared {
            old(state).session_closed()
        } else {
            *old(state)
        },
{
    match target {
        BreadcrumbSegmentTarget::Directory { worktree_id, path, .. } => {
            if let Some(handle) = state.directory_popover_handle() {
                handle.hide_popover(cx);
            }
            state.clear_directory_navigation(*worktree_id, path)
        },
        BreadcrumbSegmentTarget::Symbol { buffer_id, item, .. } => {
            if let Some(handle) = state.symbol_popover_handle() {
                handle.hide_popover(cx);
            }
            state.clear_symbol_navigation(*buffer_id, item.as_ref())
        },
    }
}

/// The symbols around the cursor, outermost first, of the buffer they were found in.
pub struct CursorSymbols {
    pub buffer_id: BufferId,
    pub ancestors: Vec<OutlineItem>,
}

impl CursorSymbols {
    /// The symbols around the cursor, where they are the given buffer's.
    pub open spec fn of_buffer(symbols: Option<CursorSymbols>, buffer_id: BufferId) -> Seq<
        OutlineItemView,
    > {
        match symbols {
            Some(symbols) => if symbols.buffer_id == buffer_id {
                symbols.ancestors.deep_view()
            } else {
                Seq::empty()
            },
            None => Seq::empty(),
        }
    }
}

/// The trail's last segment, the one collapsing never drops: the deepest symbol at the cursor, or
/// the file segment when the buffer contributes none. Reads the same symbols that the bar turns
/// into symbol segments. There is none where the editor does not show a single buffer.
pub fn breadcrumb_leaf_navigation(
    buffer_id: Option<BufferId>,
    outline_symbols_at_cursor: &Option<CursorSymbols>,
) -> (navigation: Option<BreadcrumbSymbolNavigation>)
    ensures
        match (buffer_id, navigation) {
            (None, navigation) => navigation is None,
            (Some(buffer_id), None) => false,
            (Some(buffer_id), Some(navigation)) => {
                let ancestors = CursorSymbols::of_buffer(*outline_symbols_at_cursor, buffer_id);
                &&& navigation.buffer_id == buffer_id
                &&& navigation.active_item.deep_view() == if ancestors.len() == 0 {
                    None
                } else {
                    Some(ancestors.last())
                }
                &&& !navigation.navigated
            },
        },
{
    let buffer_id: BufferId = match buffer_id {
        Some(buffer_id) => buffer_id,
        None => {
            return None;
        },
    };
    let active_item: Option<OutlineItem> = match outline_symbols_at_cursor {
        Some(symbols) => if symbols.buffer_id == buffer_id && symbols.ancestors.len() > 0 {
            Some(symbols.ancestors[symbols.ancestors.len() - 1].clone())
        } else {
            None
        },
        None => None,
    };
    Some(BreadcrumbSymbolNavigation { buffer_id, active_item, navigated: false })
}

/// Every outcome is an item.
pub open spec fn all_converted(outcomes: Seq<Option<OutlineItem>>) -> bool {
    forall|i: int| 0 <= i < outcomes.len() ==> #[trigger] outcomes[i] is Some
}

/// What the outcomes of converting a trail leave to show: all of them, or else the stored item
/// alone. A partly converted trail would show with a silent hole.
pub open spec fn trail_or_fallback(
    outcomes: Seq<Option<OutlineItem>>,
    item: OutlineItemView,
) -> Seq<OutlineItemView> {
    if outcomes.len() > 0 && all_converted(outcomes) {
        Seq::new(outcomes.len(), |i: int| outcomes[i]->0@)
    } else {
        seq![item]
    }
}

/// `outcomes` are those of converting the items of `trail` in turn, up to the first that fails.
pub open spec fn converts<C: Fn(&OutlineItem) -> Option<OutlineItem>>(
    convert: C,
    trail: Seq<OutlineItem>,
    outcomes: Seq<Option<OutlineItem>>,
) -> bool {
    &&& outcomes.len() <= trail.len()
    &&& forall|i: int|
        0 <= i < outcomes.len() ==> call_ensures(convert, (&trail[i],), #[trigger] outcomes[i])
    &&& forall|i: int| 0 <= i < outcomes.len() - 1 ==> #[trigger] outcomes[i] is Some
    &&& outcomes.len() < trail.len() ==> outcomes.len() > 0 && outcomes.last() is None
}

/// The items of `trail` in the coordinates that `convert` takes them to, or the stored item alone
/// where one of them has none.
pub fn converted_trail<C: Fn(&OutlineItem) -> Option<OutlineItem>>(
    trail: &[OutlineItem],
    item: &OutlineItem,
    convert: C,
) -> (shown: Vec<OutlineItem>)
    requires
        forall|i: int| 0 <= i < trail@.len() ==> call_requires(convert, (&#[trigger] trail@[i],)),
    ensures
        exists|outcomes: Seq<Option<OutlineItem>>| #[trigger]
            converts(convert, trail@, outcomes) && shown.deep_view() == trail_or_fallback(
                outcomes,
                item@,
            ),
{
    let mut shown: Vec<OutlineItem> = Vec::new();
    let ghost mut outcomes: Seq<Option<OutlineItem>> = Seq::empty();
    let mut index: usize = 0;
    while index < trail.len()
        invariant
            forall|i: int|
                0 <= i < trail@.len() ==> call_requires(convert, (&#[trigger] trail@[i],)),
            index <= trail@.len(),
            outcomes.len() == index == shown@.len(),
            forall|i: int|
                0 <= i < index ==> call_ensures(convert, (&trail@[i],), #[trigger] outcomes[i]),
            forall|i: int| 0 <= i < index ==> outcomes[i] == Some(#[trigger] shown@[i]),
            forall|i: int| 0 <= i < index ==> #[trigger] outcomes[i] is Some,
        decreases trail@.len() - index,
    {
        let outcome: Option<OutlineItem> = convert(&trail[index]);
        proof {
            outcomes = outcomes.push(outcome);
        }
        match outcome {
            Some(converted) => {
                shown.push(converted);
                index = index + 1;
            },
            None => {
                let mut fallback: Vec<OutlineItem> = Vec::new();
                fallback.push(item.clone());
                proof {
                    assert(outcomes[index as int] is None);
                    assert(converts(convert, trail@, outcomes));
                    assert(fallback.deep_view() =~= trail_or_fallback(outcomes, item@));
                }
                return fallback;
            },
        }
    }
    assert(converts(convert, trail@, outcomes));
    if shown.len() == 0 {
        shown.push(item.clone());
    }
    assert(shown.deep_view() =~= trail_or_fallback(outcomes, item@));
    shown
}

/// The trail that the bar shows for a symbol session, in the buffer's coordinates: the cached one
/// as long as the outline is still that version, or else what looking it up gave.
pub open spec fn buffer_trail_is<H, S, L: Fn(BufferId, &OutlineItem) -> Vec<OutlineItem>>(
    state: BreadcrumbState<H, S>,
    version: Option<Seq<u32>>,
    buffer_id: BufferId,
    item: &OutlineItem,
    lookup: L,
    trail: Vec<OutlineItem>,
) -> bool {
    match cached_for(state.symbol_trail_cache, version, buffer_id, item@) {
        Some(cached) => trail.deep_view() == cached,
        None => call_ensures(lookup, (buffer_id, item), trail),
    }
}

/// The cached trail of `item`, where the outline has a version and it is the cached one.
pub open spec fn cached_for(
    cache: Option<SymbolTrailCache>,
    version: Option<Seq<u32>>,
    buffer_id: BufferId,
    item: OutlineItemView,
) -> Option<Seq<OutlineItemView>> {
    match version {
        Some(version) => cached_trail(cache, buffer_id, version, item.range),
        None => None,
    }
}

/// The values of an optional version.
pub open spec fn version_values(version: Option<&Global>) -> Option<Seq<u32>> {
    match version {
        Some(version) => Some(version.values@),
        None => None,
    }
}

/// An edit can rewrite the drilled symbol's region; the stored item keeps the anchored segment
/// alive until a fresh outline lands.
///
/// Reached on every bar render while a symbol session is live, so the trail is memoized against
/// the stored outline's version, in buffer coordinates: the multibuffer layout can change without
/// touching the cache key, and `convert` takes the trail to the layout of the moment.
pub fn symbol_trail_with_fallback<
    H,
    S,
    L: Fn(BufferId, &OutlineItem) -> Vec<OutlineItem>,
    C: Fn(&OutlineItem) -> Option<OutlineItem>,
>(
    state: &mut BreadcrumbState<H, S>,
    version: Option<&Global>,
    buffer_id: BufferId,
    item: &OutlineItem,
    lookup: L,
    convert: C,
) -> (shown: Vec<OutlineItem>)
    requires
        call_requires(lookup, (buffer_id, item)),
        forall|trail_item: &OutlineItem| #[trigger] call_requires(convert, (trail_item,)),
    ensures
        exists|trail: Vec<OutlineItem>, outcomes: Seq<Option<OutlineItem>>|
            {
                &&& #[trigger] buffer_trail_is(
                    *old(state),
                    version_values(version),
                    buffer_id,
                    item,
                    lookup,
                    trail,
                )
                &&& #[trigger] converts(convert, trail@, outcomes)
                &&& shown.deep_view() == trail_or_fallback(outcomes, item@)
                &&& version matches Some(version) ==> cached_trail(
                    final(state).symbol_trail_cache,
                    buffer_id,
                    version.values@,
                    item.range,
                ) == Some(trail.deep_view())
            },
        *final(state) == (BreadcrumbState {
            symbol_trail_cache: final(state).symbol_trail_cache,
            ..*old(state)
        }),
        version is None || cached_for(
            old(state).symbol_trail_cache,
            version_values(version),
            buffer_id,
            item@,
        ) is Some ==> *final(state) == *old(state),
{
    let cached: Option<Vec<OutlineItem>> = match version {
        Some(version) => state.cached_symbol_trail(buffer_id, version, &item.range),
        None => None,
    };
    let trail: Vec<OutlineItem> = match cached {
        Some(trail) => trail,
        None => {
            let trail: Vec<OutlineItem> = lookup(buffer_id, item);
            if let Some(version) = version {
                state.cache_symbol_trail(buffer_id, version.clone(), item.range, trail.as_slice());
            }
            trail
        },
    };
    assert(buffer_trail_is(*old(state), version_values(version), buffer_id, item, lookup, trail));
    converted_trail(trail.as_slice(), item, convert)
}

/// At most one dropdown session is live, and the bar is open exactly when one is.
pub proof fn law_one_session_at_a_time(popover: BreadcrumbPopover)
    ensures
        popover.directory() is None || popover.symbol() is None,
        popover !is Closed <==> popover.directory() is Some || popover.symbol() is Some,
        popover.is_pending() ==> popover.is_reanchoring(),
{
}

/// A dropdown that is moving stays so while the bar is told where it now hangs, with nothing
/// queued behind the move; one that rests stays at rest.
pub proof fn law_showing_a_dropdown_keeps_its_move(
    popover: BreadcrumbPopover,
    navigation: BreadcrumbNavigation,
    symbol_navigation: BreadcrumbSymbolNavigation,
)
    ensures
        popover.on_directory(navigation).directory() == Some(navigation),
        popover.on_directory(navigation).is_reanchoring() == popover.is_reanchoring(),
        !popover.on_directory(navigation).is_pending(),
        popover.on_symbol(symbol_navigation).symbol() == Some(symbol_navigation),
        popover.on_symbol(symbol_navigation).is_reanchoring() == popover.is_reanchoring(),
        !popover.on_symbol(symbol_navigation).is_pending(),
{
}

/// A move queued behind the one in flight is taken once; without one in flight nothing is queued.
pub proof fn law_a_queued_move_is_taken_once(popover: BreadcrumbPopover)
    ensures
        popover.with_pending(true).is_pending() == popover.is_reanchoring(),
        !popover.with_pending(true).with_pending(false).is_pending(),
        popover.with_pending(true).with_pending(false) == popover.with_pending(false),
        popover.with_pending(true).directory() == popover.directory(),
        popover.with_pending(true).symbol() == popover.symbol(),
{
}

/// Finishing a move leaves the session where it is and at rest; finishing again changes nothing.
pub proof fn law_finishing_a_move_keeps_the_session(popover: BreadcrumbPopover)
    ensures
        !popover.settled().is_reanchoring(),
        popover.settled().directory() == popover.directory(),
        popover.settled().symbol() == popover.symbol(),
        popover.settled().settled() == popover.settled(),
        !popover.is_reanchoring() ==> popover.settled() == popover,
{
}

/// A dropdown that is moving between segments is not cleared by the dismissal of where it was;
/// once the move has ended, the dismissal of where it is clears it.
pub proof fn law_a_moving_session_outlives_a_dismissal<H, S>(
    state: BreadcrumbState<H, S>,
    target: SegmentTargetView,
)
    ensures
        state.popover.is_reanchoring() ==> !orphan_dismissed(state, target),
        state.popover.directory() matches Some(navigation) ==> state.popover.settled()
            .rests_on_directory(navigation.worktree_id, navigation.active_path@),
        state.popover.symbol() matches Some(navigation) ==> state.popover.settled().rests_on_symbol(
            navigation.buffer_id,
            item_range(navigation.active_item.deep_view()),
        ),
{
}

/// A session that ends collapses the trail, unless the click that ended it was on the bar; the
/// handles, the subscription and the cached trail stay.
pub proof fn law_a_click_on_the_bar_keeps_the_trail_expanded<H, S>(state: BreadcrumbState<H, S>)
    ensures
        state.session_closed().popover is Closed,
        state.zone_mouse_down ==> state.session_closed().expanded == state.expanded,
        !state.zone_mouse_down ==> !state.session_closed().expanded,
        state.session_closed().zone_mouse_down == state.zone_mouse_down,
        state.session_closed().dismiss_subscription == state.dismiss_subscription,
        state.session_closed().directory_popover_handle == state.directory_popover_handle,
        state.session_closed().symbol_popover_handle == state.symbol_popover_handle,
        state.session_closed().symbol_trail_cache == state.symbol_trail_cache,
        state.session_closed().session_closed() == state.session_closed(),
{
}

/// A cached trail is found under the key it was cached with, and under no other.
pub proof fn law_a_cached_trail_is_found_under_its_key(
    cache: SymbolTrailCache,
    buffer_id: BufferId,
    version: Seq<u32>,
    range: AnchorRange,
)
    ensures
        cached_trail(Some(cache), cache.buffer_id, cache.version.values@, cache.range) == Some(
            cache.trail.deep_view(),
        ),
        buffer_id != cache.buffer_id || version != cache.version.values@ || range != cache.range
            ==> cached_trail(Some(cache), buffer_id, version, range) is None,
{
}

/// A symbol session always shows a trail: the stored symbol survives a lookup that no longer
/// finds it.
pub proof fn law_a_symbol_session_always_shows_a_trail(
    outcomes: Seq<Option<OutlineItem>>,
    item: OutlineItemView,
)
    ensures
        trail_or_fallback(outcomes, item).len() > 0,
        outcomes.len() == 0 ==> trail_or_fallback(outcomes, item) == seq![item],
        !all_converted(outcomes) ==> trail_or_fallback(outcomes, item) == seq![item],
        all_converted(outcomes) && outcomes.len() > 0 ==> trail_or_fallback(outcomes, item).len()
            == outcomes.len(),
{
}

} // verus!
