//! How wide a row is and which of its segments it gives up, told segment by segment.

use vstd::prelude::*;

use crate::layout::{
    item_count, nothing_dropped, planned_drops, BreadcrumbSegmentKind, BreadcrumbSegmentMetrics,
    RowPixels, SubPixels,
};
use crate::layout_laws::{
    law_drops_cheapest_first, law_plan_fits_or_nothing_is_left_to_drop, may_drop,
};
use crate::listing::lemma_first_where;
use crate::paint::{
    is_anchored, lemma_advance_bound, placement, row_items, AvailableSpace, RowItem,
};
use crate::row::RowView;
use crate::target::SegmentTargetView;

verus! {

proof fn lemma_prefix_agrees(
    metrics: BreadcrumbSegmentMetrics,
    dropped: Seq<bool>,
    longer: Seq<bool>,
    count: nat,
)
    requires
        count <= dropped.len() <= longer.len(),
        forall|i: int| 0 <= i < dropped.len() ==> #[trigger] dropped[i] == longer[i],
    ensures
        item_count(dropped, count) == item_count(longer, count),
        metrics.items_width(dropped, count) == metrics.items_width(longer, count),
        row_items(dropped, count) == row_items(longer, count),
        count > 0 ==> item_count(dropped, count) > 0,
    decreases count,
{
    if count > 0 {
        lemma_prefix_agrees(metrics, dropped, longer, (count - 1) as nat);
        assert(dropped[count - 1] == longer[count - 1]);
        if count > 1 {
            assert(dropped[count - 2] == longer[count - 2]);
        }
    }
}

/// The width of a row grows with each segment: by the segment's own width where it is kept, by that
/// of one ellipsis where it is the first of those left out, and by nothing where the one before it
/// is left out too; and by a separator before whatever is added behind something.
pub proof fn law_the_row_grows_by_what_each_segment_adds(
    metrics: BreadcrumbSegmentMetrics,
    dropped: Seq<bool>,
)
    ensures
        ({
            let count = dropped.len() as int;
            let before = metrics.total_width(dropped);
            let kept = metrics.total_width(dropped.push(false));
            let left_out = metrics.total_width(dropped.push(true));
            &&& count == 0 ==> before == 0 && kept == metrics.widths@[0] && left_out
                == metrics.ellipsis_width
            &&& count > 0 ==> kept == before + metrics.separator_width + metrics.widths@[count]
            &&& count > 0 && !dropped[count - 1] ==> left_out == before + metrics.separator_width
                + metrics.ellipsis_width
            &&& count > 0 && dropped[count - 1] ==> left_out == before
        }),
{
    let count = dropped.len();
    lemma_prefix_agrees(metrics, dropped, dropped.push(false), count);
    lemma_prefix_agrees(metrics, dropped, dropped.push(true), count);
    let items = item_count(dropped, count) as int;
    let separator = metrics.separator_width as int;
    if count > 0 {
        assert(dropped.push(true)[count - 1] == dropped[count - 1]);
        assert(separator * items == separator * (items - 1) + separator) by (nonlinear_arith);
    } else {
        assert(separator * 0 == 0);
    }
}

/// A row paints its kept segments from left to right and, for those left out between two of them,
/// before them or behind them, one ellipsis.
pub proof fn law_the_row_paints_from_left_to_right(dropped: Seq<bool>)
    requires
        dropped.len() < usize::MAX,
    ensures
        ({
            let count = dropped.len();
            let items = row_items(dropped, count);
            let kept = row_items(dropped.push(false), count + 1);
            let left_out = row_items(dropped.push(true), count + 1);
            &&& row_items(Seq::empty(), 0).len() == 0
            &&& kept == items.push(RowItem::Segment(count as usize))
            &&& (count == 0 || !dropped[count - 1]) ==> left_out == items.push(RowItem::Ellipsis)
            &&& count > 0 && dropped[count - 1] ==> left_out == items
        }),
{
    let count = dropped.len();
    let metrics = arbitrary::<BreadcrumbSegmentMetrics>();
    lemma_prefix_agrees(metrics, dropped, dropped.push(false), count);
    lemma_prefix_agrees(metrics, dropped, dropped.push(true), count);
    if count > 0 {
        assert(dropped.push(true)[count - 1] == dropped[count - 1]);
    }
}

/// The natural width of a row is the width that it has with every segment kept.
pub proof fn law_the_natural_width_keeps_every_segment(
    metrics: BreadcrumbSegmentMetrics,
    dropped: Seq<bool>,
)
    requires
        dropped.len() == metrics.widths@.len(),
        forall|i: int| 0 <= i < dropped.len() ==> !#[trigger] dropped[i],
    ensures
        metrics.spec_natural_width() == metrics.total_width(dropped),
{
    assert(dropped =~= nothing_dropped(metrics.widths@.len()));
}

/// Where a segment is left out, so is every other one that is given up before it: neither the last
/// nor the anchored one, and a directory before the root, the root before the file and the symbols,
/// the file before the symbols unless it outlives them, and of one kind the one further left.
pub proof fn law_segments_are_given_up_by_kind(
    metrics: BreadcrumbSegmentMetrics,
    kinds: Seq<BreadcrumbSegmentKind>,
    available_width: int,
    anchored_index: Option<usize>,
    file_outlives_symbols: bool,
    index: int,
    other: int,
)
    requires
        metrics.widths@.len() == kinds.len() <= usize::MAX,
        0 <= index < kinds.len(),
        0 <= other < kinds.len() - 1,
        anchored_index != Some(other as usize),
        planned_drops(metrics, kinds, available_width, anchored_index, file_outlives_symbols)[index],
        ({
            ||| kinds[other] is Middle && !(kinds[index] is Middle)
            ||| kinds[other] is Root && (kinds[index] is File || kinds[index] is Symbol)
            ||| kinds[other] is Symbol && kinds[index] is File && file_outlives_symbols
            ||| kinds[other] is File && kinds[index] is Symbol && !file_outlives_symbols
            ||| kinds[other] == kinds[index] && other < index
        }),
    ensures
        planned_drops(metrics, kinds, available_width, anchored_index, file_outlives_symbols)[other],
{
    law_drops_cheapest_first(
        metrics,
        kinds,
        available_width,
        anchored_index,
        file_outlives_symbols,
        index,
        other,
    );
}

/// A row that does not fit has given up all that it may: every segment but the last and the anchored
/// one.
pub proof fn law_a_row_that_does_not_fit_has_given_up_all_it_may(
    metrics: BreadcrumbSegmentMetrics,
    kinds: Seq<BreadcrumbSegmentKind>,
    available_width: int,
    anchored_index: Option<usize>,
    file_outlives_symbols: bool,
    i: int,
)
    requires
        metrics.widths@.len() == kinds.len() <= usize::MAX,
        0 <= i < kinds.len(),
        metrics.total_width(
            planned_drops(metrics, kinds, available_width, anchored_index, file_outlives_symbols),
        ) > available_width,
    ensures
        planned_drops(
            metrics,
            kinds,
            available_width,
            anchored_index,
            file_outlives_symbols,
        )[i] <==> i != kinds.len() - 1 && anchored_index != Some(i as usize),
{
    law_plan_fits_or_nothing_is_left_to_drop(
        metrics,
        kinds,
        available_width,
        anchored_index,
        file_outlives_symbols,
    );
    let dropped = planned_drops(
        metrics,
        kinds,
        available_width,
        anchored_index,
        file_outlives_symbols,
    );
    assert(dropped[i] == may_drop(kinds.len(), anchored_index, i));
}

/// The row is anchored at its first segment whose dropdown is open, and nowhere where none is.
pub proof fn law_the_row_is_anchored_at_its_first_open_dropdown(row: RowView)
    requires
        row.segments.len() <= usize::MAX,
    ensures
        ({
            let open = |i: int|
                match row.segments[i].target {
                    Some(SegmentTargetView::Symbol { is_active_segment, .. }) => is_active_segment,
                    Some(SegmentTargetView::Directory { is_active_segment, .. }) =>
                        is_active_segment,
                    None => false,
                };
            match row.anchored_index() {
                Some(anchored) => {
                    &&& anchored < row.segments.len()
                    &&& open(anchored as int)
                    &&& forall|i: int| 0 <= i < anchored ==> !#[trigger] open(i)
                },
                None => forall|i: int| 0 <= i < row.segments.len() ==> !#[trigger] open(i),
            }
        }),
{
    let anchored = is_anchored(row.segments);
    lemma_first_where(row.segments.len(), anchored, 0);
    assert forall|i: int|
        #![trigger row.segments[i]]
        anchored(i) == match row.segments[i].target {
            Some(SegmentTargetView::Symbol { is_active_segment, .. }) => is_active_segment,
            Some(SegmentTargetView::Directory { is_active_segment, .. }) => is_active_segment,
            None => false,
        } by {}
}

/// An expanded row leaves nothing out, whatever room it has.
pub proof fn law_an_expanded_row_leaves_nothing_out(
    row: RowView,
    metrics: BreadcrumbSegmentMetrics,
    available_width: int,
    i: int,
)
    requires
        row.expanded,
        0 <= i < row.segments.len(),
    ensures
        row.dropped(metrics, available_width).len() == row.segments.len(),
        !row.dropped(metrics, available_width)[i],
{
}

/// An open dropdown is orphaned exactly where the segment that it hangs under is left out.
pub proof fn law_a_dropdown_is_orphaned_with_its_segment(row: RowView, dropped: Seq<bool>)
    ensures
        row.anchored_index() is None ==> row.orphan(dropped) is None,
        row.anchored_index() matches Some(index) ==> row.orphan(dropped) == if dropped[index as int] {
            Some(index)
        } else {
            None
        },
{
}

/// An expanded row asks for its natural width and one whose width is known for that width. Else it
/// asks, at least, for its last segment or an ellipsis, whichever is wider, at most for its natural
/// width, and in a definite space for what its plan takes there, but for no more than the space.
pub proof fn law_the_row_asks_for_what_it_can_use(
    row: RowView,
    metrics: BreadcrumbSegmentMetrics,
    known_width: Option<RowPixels>,
    space: RowPixels,
)
    ensures
        ({
            let definite = row.requested_width(
                metrics,
                known_width,
                AvailableSpace::Definite(space),
            );
            let least = row.requested_width(metrics, known_width, AvailableSpace::MinContent);
            let most = row.requested_width(metrics, known_width, AvailableSpace::MaxContent);
            let natural = metrics.spec_natural_width();
            let planned = metrics.total_width(row.dropped(metrics, space as int));
            &&& row.expanded ==> definite == natural && least == natural && most == natural
            &&& !row.expanded && known_width is Some ==> definite == known_width->0 && least
                == known_width->0 && most == known_width->0
            &&& !row.expanded && known_width is None ==> {
                &&& most == natural
                &&& definite <= space && definite <= planned && (definite == space || definite
                    == planned)
                &&& least >= metrics.ellipsis_width
                &&& metrics.widths@.len() > 0 ==> least >= metrics.widths@[metrics.widths@.len()
                    - 1]
                &&& least == metrics.ellipsis_width || metrics.widths@.len() > 0 && least
                    == metrics.widths@[metrics.widths@.len() - 1]
            }
        }),
{
}

/// The items of a row are placed one behind the other: the first at the row's left edge and each
/// other one a gap behind the end of the one before it. A last item that is to be truncated gets what
/// is left of the row up to its right edge, and never less than nothing.
pub proof fn law_items_are_placed_one_behind_the_other(
    widths: Seq<SubPixels>,
    gap: SubPixels,
    origin_x: i64,
    row_width: i64,
    truncate_last: bool,
    position: int,
    count: nat,
)
    requires
        0 <= position < count <= widths.len() <= usize::MAX,
    ensures
        ({
            let item = placement(
                widths,
                gap,
                origin_x,
                row_width,
                truncate_last,
                position,
                count,
            );
            let next = placement(
                widths,
                gap,
                origin_x,
                row_width,
                truncate_last,
                position + 1,
                count,
            );
            let left = origin_x + row_width - item.x;
            &&& position == 0 ==> item.x == origin_x
            &&& position + 1 < count ==> next.x == item.x + widths[position] + gap
            &&& position + 1 < count || !truncate_last ==> item.max_width is None
            &&& position + 1 == count && truncate_last ==> item.max_width is Some
                && item.max_width->0 >= 0 && item.max_width->0 >= left && (item.max_width->0 == left
                || item.max_width->0 == 0)
        }),
{
    lemma_advance_bound(widths, gap, position as nat);
    if position + 1 < count {
        lemma_advance_bound(widths, gap, (position + 1) as nat);
    }
}

} // verus!
