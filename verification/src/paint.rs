//! How the row is laid out in the width it is given, and where its items are painted.

use std::ops::Range;

use vstd::prelude::*;

use crate::layout::{
    breadcrumb_layout_plan_width, dropped_runs, is_covered, is_kept, item_count, nothing_dropped,
    plan_breadcrumb_layout, planned_drops, starts_run, BreadcrumbLayoutPlan,
    BreadcrumbSegmentKind, BreadcrumbSegmentMetrics, RowPixels, RowSubPixels, SubPixels,
    SUBPIXELS_PER_PIXEL,
};
use crate::layout_laws::{
    is_maximal_run, law_last_and_anchored_segments_stay, law_narrower_fit_drops_the_same,
    law_plan_partitions_the_row, law_plan_stays_in_the_row, law_plan_width_is_the_row_width,
    law_runs_are_maximal,
};
use crate::listing::{first_where, indices_where, lemma_first_where};
use crate::row::{BreadcrumbsRow, PreparedSegmentView, RowView};
use crate::session::{dismiss_orphaned_breadcrumb_popover, handle_for, orphan_dismissed};
use crate::state::{optionally_hides, BreadcrumbState, ErasedBreadcrumbPopoverHandle};

verus! {

/// The condition of standing under an open dropdown.
pub open spec fn is_anchored(segments: Seq<PreparedSegmentView>) -> spec_fn(int) -> bool {
    |i: int| segments[i].target is Some && segments[i].target->0.is_active()
}

impl RowView {
    /// The kinds of the segments.
    pub open spec fn kinds(self) -> Seq<BreadcrumbSegmentKind> {
        Seq::new(self.segments.len(), |i: int| self.segments[i].kind)
    }

    /// The segment that a dropdown is open under.
    pub open spec fn anchored_index(self) -> Option<usize> {
        first_where(self.segments.len(), is_anchored(self.segments), 0)
    }

    /// The segments that the row leaves out in that width.
    pub open spec fn dropped(
        self,
        metrics: BreadcrumbSegmentMetrics,
        available_width: int,
    ) -> Seq<bool> {
        if self.expanded {
            nothing_dropped(self.segments.len())
        } else {
            planned_drops(
                metrics,
                self.kinds(),
                available_width,
                self.anchored_index(),
                self.file_outlives_symbols,
            )
        }
    }
}

impl BreadcrumbsRow {
    /// The kinds of the segments.
    pub fn kinds(&self) -> (kinds: Vec<BreadcrumbSegmentKind>)
        ensures
            kinds@ == self@.kinds(),
    {
        let mut kinds: Vec<BreadcrumbSegmentKind> = Vec::new();
        let mut index: usize = 0;
        while index < self.segments.len()
            invariant
                index <= self.segments@.len(),
                kinds@.len() == index,
                forall|i: int| 0 <= i < index ==> #[trigger] kinds@[i] == self.segments@[i].kind,
            decreases self.segments@.len() - index,
        {
            kinds.push(self.segments[index].kind);
            index = index + 1;
        }
        assert(kinds@ =~= self@.kinds());
        kinds
    }

    /// The segment a popover is currently open under, if any: the layout must never collapse it.
    pub fn anchored_segment_index(&self) -> (anchored: Option<usize>)
        ensures
            anchored == self@.anchored_index(),
    {
        let mut index: usize = 0;
        while index < self.segments.len()
            invariant
                index <= self.segments@.len(),
                self@.anchored_index() == first_where(
                    self@.segments.len(),
                    is_anchored(self@.segments),
                    index as int,
                ),
            decreases self.segments@.len() - index,
        {
            assert(self@.segments[index as int] == self.segments@[index as int]@);
            let anchored: bool = match &self.segments[index].target {
                Some(target) => target.is_active(),
                None => false,
            };
            if anchored {
                return Some(index);
            }
            index = index + 1;
        }
        None
    }

    /// The segments that the row shows in that width, and the ellipses in place of the others.
    pub fn plan(&self, metrics: &BreadcrumbSegmentMetrics, available_width: RowPixels) -> (plan:
        BreadcrumbLayoutPlan)
        requires
            metrics.widths@.len() == self.segments@.len(),
        ensures
            plan.shows(self@.dropped(*metrics, available_width as int)),
    {
        let kinds: Vec<BreadcrumbSegmentKind> = self.kinds();
        if self.expanded {
            let mut visible: Vec<usize> = Vec::new();
            let mut index: usize = 0;
            let ghost dropped = nothing_dropped(self.segments@.len());
            while index < kinds.len()
                invariant
                    index <= kinds@.len() == self.segments@.len(),
                    dropped == nothing_dropped(self.segments@.len()),
                    visible@ == indices_where(index as nat, is_kept(dropped)),
                    dropped_runs(dropped, index as nat) == Seq::<
                        Range<usize>,
                    >::empty(),
                decreases kinds@.len() - index,
            {
                visible.push(index);
                index = index + 1;
            }
            return BreadcrumbLayoutPlan { visible, ellipses: Vec::new() };
        }
        let anchored_index: Option<usize> = self.anchored_segment_index();
        plan_breadcrumb_layout(
            metrics,
            kinds.as_slice(),
            available_width,
            anchored_index,
            self.file_outlives_symbols,
        )
    }
}

/// An item of the painted row.
#[derive(Clone, Copy, Debug, PartialEq, Eq, Structural)]
pub enum RowItem {
    Segment(usize),
    Ellipsis,
}

/// What the first `count` segments paint: each kept one, and one ellipsis for each run of dropped
/// ones.
pub open spec fn row_items(dropped: Seq<bool>, count: nat) -> Seq<RowItem>
    decreases count,
{
    if count == 0 {
        Seq::empty()
    } else {
        let last = (count - 1) as nat;
        let items = row_items(dropped, last);
        if !dropped[last as int] {
            items.push(RowItem::Segment(last as usize))
        } else if starts_run(dropped, last as int) {
            items.push(RowItem::Ellipsis)
        } else {
            items
        }
    }
}

/// A row paints the segments that it keeps, all of them and no other.
pub proof fn law_the_row_paints_what_it_keeps(dropped: Seq<bool>, count: nat)
    requires
        count <= usize::MAX,
    ensures
        forall|p: int|
            0 <= p < row_items(dropped, count).len() ==> (#[trigger] row_items(
                dropped,
                count,
            )[p] matches RowItem::Segment(index) ==> index < count && !dropped[index as int]),
        forall|i: int|
            0 <= i < count && !#[trigger] dropped[i] ==> row_items(dropped, count).contains(
                RowItem::Segment(i as usize),
            ),
    decreases count,
{
    if count > 0 {
        let last = (count - 1) as nat;
        let shorter = row_items(dropped, last);
        let items = row_items(dropped, count);
        law_the_row_paints_what_it_keeps(dropped, last);
        assert forall|p: int| 0 <= p < items.len() implies (#[trigger] items[p] matches RowItem::Segment(
            index,
        ) ==> index < count && !dropped[index as int]) by {
            if p < shorter.len() {
                assert(items[p] == shorter[p]);
            }
        }
        assert forall|i: int| 0 <= i < count && !#[trigger] dropped[i] implies items.contains(
            RowItem::Segment(i as usize),
        ) by {
            if i < last {
                assert(shorter.contains(RowItem::Segment(i as usize)));
                let p = choose|p: int|
                    0 <= p < shorter.len() && shorter[p] == RowItem::Segment(i as usize);
                assert(items[p] == shorter[p]);
            } else {
                assert(items[shorter.len() as int] == RowItem::Segment(i as usize));
            }
        }
    }
}

/// The whole of a run paints one ellipsis.
proof fn lemma_run_paints_one_ellipsis(dropped: Seq<bool>, start: int, end: int)
    requires
        0 <= start < end <= dropped.len(),
        starts_run(dropped, start),
        forall|i: int| start <= i < end ==> #[trigger] dropped[i],
    ensures
        row_items(dropped, end as nat) == row_items(dropped, start as nat).push(RowItem::Ellipsis),
    decreases end - start,
{
    assert(dropped[end - 1]);
    if end > start + 1 {
        assert(dropped[end - 2]);
        lemma_run_paints_one_ellipsis(dropped, start, end - 1);
    }
}

/// The items of a plan, from left to right.
fn plan_items(
    plan: &BreadcrumbLayoutPlan,
    segment_count: usize,
    Ghost(dropped): Ghost<Seq<bool>>,
) -> (items: Vec<RowItem>)
    requires
        plan.shows(dropped),
        dropped.len() == segment_count,
    ensures
        items@ == row_items(dropped, segment_count as nat),
{
    let mut items: Vec<RowItem> = Vec::new();
    let mut index: usize = 0;
    proof {
        law_runs_are_maximal(dropped, dropped.len());
    }
    while index < segment_count
        invariant
            index <= segment_count == dropped.len(),
            plan.ellipses@ == dropped_runs(dropped, dropped.len()),
            forall|a: int|
                0 <= a < plan.ellipses@.len() ==> is_maximal_run(
                    dropped,
                    dropped.len(),
                    #[trigger] plan.ellipses@[a],
                ),
            forall|i: int|
                0 <= i < dropped.len() ==> #[trigger] is_covered(plan.ellipses@, i) == dropped[i],
            index == 0 || index == segment_count || !dropped[index - 1] || !dropped[index as int],
            items@ == row_items(dropped, index as nat),
        decreases segment_count - index,
    {
        let mut found: Option<usize> = None;
        let mut r: usize = 0;
        while r < plan.ellipses.len()
            invariant_except_break
                r <= plan.ellipses@.len(),
                found is None,
                forall|q: int| 0 <= q < r ==> (#[trigger] plan.ellipses@[q]).start != index,
            ensures
                match found {
                    Some(end) => exists|q: int|
                        0 <= q < plan.ellipses@.len() && (#[trigger] plan.ellipses@[q]).start
                            == index && plan.ellipses@[q].end == end,
                    None => forall|q: int|
                        0 <= q < plan.ellipses@.len() ==> (#[trigger] plan.ellipses@[q]).start
                            != index,
                },
            decreases plan.ellipses@.len() - r,
        {
            if plan.ellipses[r].start == index {
                found = Some(plan.ellipses[r].end);
                break;
            }
            r = r + 1;
        }
        match found {
            Some(end) => {
                proof {
                    let q = choose|q: int|
                        0 <= q < plan.ellipses@.len() && (#[trigger] plan.ellipses@[q]).start
                            == index && plan.ellipses@[q].end == end;
                    assert(is_maximal_run(dropped, dropped.len(), plan.ellipses@[q]));
                    lemma_run_paints_one_ellipsis(dropped, index as int, end as int);
                }
                items.push(RowItem::Ellipsis);
                index = end;
            },
            None => {
                assert(!dropped[index as int]) by {
                    if dropped[index as int] {
                        assert(is_covered(plan.ellipses@, index as int));
                        let q = choose|q: int|
                            0 <= q < plan.ellipses@.len() && (#[trigger] plan.ellipses@[q]).start
                                <= index < plan.ellipses@[q].end;
                        assert(is_maximal_run(dropped, dropped.len(), plan.ellipses@[q]));
                        assert(dropped[index - 1]);
                    }
                }
                items.push(RowItem::Segment(index));
                index = index + 1;
            },
        }
    }
    items
}

/// How the row is laid out in the width it was given.
#[derive(Debug, PartialEq, Eq)]
pub struct RowLayout {
    pub plan: BreadcrumbLayoutPlan,
    /// What is painted, from left to right.
    pub items: Vec<RowItem>,
    /// Nothing is left to drop and the row is still too wide: the last label must ellipsize
    /// itself.
    pub truncate_last: bool,
    /// The segment of an open dropdown, where the row no longer shows it.
    pub orphan: Option<usize>,
}

impl RowView {
    /// The segment of an open dropdown, where `dropped` leaves it out.
    pub open spec fn orphan(self, dropped: Seq<bool>) -> Option<usize> {
        match self.anchored_index() {
            Some(index) => if dropped[index as int] {
                Some(index)
            } else {
                None
            },
            None => None,
        }
    }
}

impl BreadcrumbsRow {
    /// Lays the row out in the width it is given.
    pub fn lay_out(&self, metrics: &BreadcrumbSegmentMetrics, available_width: RowPixels) -> (layout:
        RowLayout)
        requires
            metrics.widths@.len() == self.segments@.len(),
        ensures
            ({
                let dropped = self@.dropped(*metrics, available_width as int);
                &&& layout.plan.shows(dropped)
                &&& layout.items@ == row_items(dropped, self.segments@.len())
                &&& layout.truncate_last == (!self.expanded && metrics.total_width(dropped)
                    > available_width)
                &&& layout.orphan == self@.orphan(dropped)
            }),
            forall|p: int|
                0 <= p < layout.items@.len() ==> (#[trigger] layout.items@[p] matches RowItem::Segment(
                    index,
                ) ==> index < self.segments@.len()),
    {
        let ghost dropped = self@.dropped(*metrics, available_width as int);
        let plan: BreadcrumbLayoutPlan = self.plan(metrics, available_width);
        let segment_count: usize = self.segments.len();
        assert(dropped.len() == segment_count);
        let items: Vec<RowItem> = plan_items(&plan, segment_count, Ghost(dropped));
        proof {
            law_the_row_paints_what_it_keeps(dropped, dropped.len());
            law_plan_stays_in_the_row(plan, dropped);
            law_plan_width_is_the_row_width(*metrics, plan, dropped);
            lemma_first_where(self@.segments.len(), is_anchored(self@.segments), 0);
        }
        let truncate_last: bool = !self.expanded && breadcrumb_layout_plan_width(metrics, &plan)
            > available_width;
        let orphan: Option<usize> = match self.anchored_segment_index() {
            Some(anchored) => {
                proof {
                    law_plan_partitions_the_row(plan, dropped, anchored as int);
                }
                if contains(&plan.visible, anchored) {
                    None
                } else {
                    Some(anchored)
                }
            },
            None => None,
        };
        RowLayout { plan, items, truncate_last, orphan }
    }
}

/// Whether the list holds the position.
fn contains(positions: &Vec<usize>, position: usize) -> (held: bool)
    ensures
        held == positions@.contains(position),
{
    let mut index: usize = 0;
    while index < positions.len()
        invariant
            index <= positions@.len(),
            forall|i: int| 0 <= i < index ==> #[trigger] positions@[i] != position,
        decreases positions@.len() - index,
    {
        if positions[index] == position {
            return true;
        }
        index = index + 1;
    }
    false
}

/// The width that the row's parent offers it.
#[derive(Clone, Copy, Debug, PartialEq, Eq, Structural)]
pub enum AvailableSpace {
    Definite(RowPixels),
    MinContent,
    MaxContent,
}

impl RowView {
    /// The width that the row asks for. An expanded row ignores what it is offered, including a
    /// resolved width: the whole point is to outgrow the container so it can be scrolled.
    pub open spec fn requested_width(
        self,
        metrics: BreadcrumbSegmentMetrics,
        known_width: Option<RowPixels>,
        available: AvailableSpace,
    ) -> int {
        if self.expanded {
            metrics.spec_natural_width()
        } else if known_width is Some {
            known_width->0 as int
        } else {
            match available {
                AvailableSpace::Definite(width) => {
                    let planned = metrics.total_width(self.dropped(metrics, width as int));
                    if planned <= width {
                        planned
                    } else {
                        width as int
                    }
                },
                AvailableSpace::MinContent => {
                    if metrics.widths@.len() > 0 && metrics.widths@.last()
                        > metrics.ellipsis_width {
                        metrics.widths@.last() as int
                    } else {
                        metrics.ellipsis_width as int
                    }
                },
                AvailableSpace::MaxContent => metrics.spec_natural_width(),
            }
        }
    }
}

impl BreadcrumbsRow {
    /// The width that the row asks for. Answering `MinContent` with the whole trail would stop the
    /// parent offering less. Even the minimal plan can overflow; the last label is then truncated.
    pub fn requested_width(
        &self,
        metrics: &BreadcrumbSegmentMetrics,
        known_width: Option<RowPixels>,
        available: AvailableSpace,
    ) -> (width: RowPixels)
        requires
            metrics.widths@.len() == self.segments@.len(),
        ensures
            width == self@.requested_width(*metrics, known_width, available),
    {
        if self.expanded {
            return metrics.natural_width();
        }
        if let Some(width) = known_width {
            return width;
        }
        match available {
            AvailableSpace::Definite(available_width) => {
                let segment_count: usize = self.segments.len();
                let ghost dropped = self@.dropped(*metrics, available_width as int);
                let plan: BreadcrumbLayoutPlan = self.plan(metrics, available_width);
                proof {
                    assert(dropped.len() == segment_count);
                    law_plan_stays_in_the_row(plan, dropped);
                    law_plan_width_is_the_row_width(*metrics, plan, dropped);
                }
                let planned: RowPixels = breadcrumb_layout_plan_width(metrics, &plan);
                if planned <= available_width {
                    planned
                } else {
                    available_width
                }
            },
            AvailableSpace::MinContent => {
                let count: usize = metrics.widths.len();
                if count > 0 && metrics.widths[count - 1] > metrics.ellipsis_width {
                    metrics.widths[count - 1] as RowPixels
                } else {
                    metrics.ellipsis_width as RowPixels
                }
            },
            AvailableSpace::MaxContent => metrics.natural_width(),
        }
    }
}

/// Where an item of the row is painted, and how wide it may get.
#[derive(Clone, Copy, Debug, PartialEq, Eq, Structural)]
pub struct Placement {
    pub x: RowSubPixels,
    pub max_width: Option<RowSubPixels>,
}

/// How far the first `count` items reach, with a gap behind each.
pub open spec fn advance(widths: Seq<SubPixels>, gap: SubPixels, count: nat) -> int
    decreases count,
{
    if count == 0 {
        0
    } else {
        advance(widths, gap, (count - 1) as nat) + widths[count - 1] + gap
    }
}

/// Where the item at `position` is painted: behind those before it. The last one may be as wide as
/// what is left of the row, where it is to be truncated.
pub open spec fn placement(
    widths: Seq<SubPixels>,
    gap: SubPixels,
    origin_x: i64,
    row_width: i64,
    truncate_last: bool,
    position: int,
    count: nat,
) -> Placement {
    let x = origin_x + advance(widths, gap, position as nat);
    let left = origin_x + row_width - x;
    Placement {
        x: x as RowSubPixels,
        max_width: if truncate_last && position == count - 1 {
            Some(
                (if left >= 0 {
                    left
                } else {
                    0
                }) as RowSubPixels,
            )
        } else {
            None
        },
    }
}

/// A truncated last item ends where the row does, or shrinks to nothing where the row is already
/// full; no other item is clamped.
pub proof fn law_only_a_truncated_last_item_is_clamped(
    widths: Seq<SubPixels>,
    gap: SubPixels,
    origin_x: i64,
    row_width: i64,
    truncate_last: bool,
    position: int,
    count: nat,
)
    requires
        0 <= position < count <= widths.len() <= usize::MAX,
    ensures
        ({
            let item = placement(
                widths,
                gap,
                origin_x,
                row_width,
                truncate_last,
                position,
                count,
            );
            &&& item.max_width is Some <==> truncate_last && position == count - 1
            &&& item.max_width matches Some(width) ==> {
                &&& width >= 0
                &&& item.x <= origin_x + row_width ==> item.x + width == origin_x + row_width
                &&& item.x > origin_x + row_width ==> width == 0
            }
        }),
{
    lemma_advance_bound(widths, gap, position as nat);
}

/// However many items there are, their positions stay far from the limits of a row.
pub proof fn lemma_advance_bound(widths: Seq<SubPixels>, gap: SubPixels, count: nat)
    requires
        count <= widths.len(),
    ensures
        -0x1_0000_0000 * count <= advance(widths, gap, count) <= 0x1_0000_0000 * count,
    decreases count,
{
    if count > 0 {
        lemma_advance_bound(widths, gap, (count - 1) as nat);
    }
}

/// The first `count` items reach as far in either list.
pub proof fn lemma_advance_agree(widths: Seq<SubPixels>, other: Seq<SubPixels>, gap: SubPixels, count: nat)
    requires
        count <= widths.len(),
        count <= other.len(),
        forall|i: int| 0 <= i < count ==> #[trigger] widths[i] == other[i],
    ensures
        advance(widths, gap, count) == advance(other, gap, count),
    decreases count,
{
    if count > 0 {
        lemma_advance_agree(widths, other, gap, (count - 1) as nat);
        assert(widths[count - 1] == other[count - 1]);
    }
}

/// What a plan reserves for an item, without the separator behind it.
pub open spec fn reserved(metrics: BreadcrumbSegmentMetrics, item: RowItem) -> int {
    match item {
        RowItem::Segment(index) => metrics.widths@[index as int] as int,
        RowItem::Ellipsis => metrics.ellipsis_width as int,
    }
}

/// What a plan reserves for the first `count` items, without separators.
pub open spec fn all_reserved(
    metrics: BreadcrumbSegmentMetrics,
    items: Seq<RowItem>,
    count: nat,
) -> int
    decreases count,
{
    if count == 0 {
        0
    } else {
        all_reserved(metrics, items, (count - 1) as nat) + reserved(metrics, items[count - 1])
    }
}

proof fn lemma_all_reserved_agree(
    metrics: BreadcrumbSegmentMetrics,
    items: Seq<RowItem>,
    longer: Seq<RowItem>,
    count: nat,
)
    requires
        count <= items.len() <= longer.len(),
        forall|i: int| 0 <= i < count ==> #[trigger] items[i] == longer[i],
    ensures
        all_reserved(metrics, items, count) == all_reserved(metrics, longer, count),
    decreases count,
{
    if count > 0 {
        lemma_all_reserved_agree(metrics, items, longer, (count - 1) as nat);
        assert(items[count - 1] == longer[count - 1]);
    }
}

/// The items of a row are what its width is made of.
proof fn lemma_items_make_up_the_width(
    metrics: BreadcrumbSegmentMetrics,
    dropped: Seq<bool>,
    count: nat,
)
    requires
        count <= usize::MAX,
    ensures
        row_items(dropped, count).len() == item_count(dropped, count),
        all_reserved(metrics, row_items(dropped, count), row_items(dropped, count).len())
            == metrics.items_width(dropped, count),
    decreases count,
{
    if count > 0 {
        let last = (count - 1) as nat;
        lemma_items_make_up_the_width(metrics, dropped, last);
        let items = row_items(dropped, last);
        lemma_all_reserved_agree(metrics, items, row_items(dropped, count), items.len());
    }
}

/// The item at `position`, painted `width` wide, takes what is reserved for it and for the separator
/// behind it; the last item has none.
pub open spec fn takes_what_is_reserved(
    metrics: BreadcrumbSegmentMetrics,
    items: Seq<RowItem>,
    width: SubPixels,
    gap: SubPixels,
    position: int,
) -> bool {
    if position == items.len() - 1 {
        width == reserved(metrics, items[position]) * SUBPIXELS_PER_PIXEL
    } else {
        width + gap == (reserved(metrics, items[position]) + metrics.separator_width)
            * SUBPIXELS_PER_PIXEL
    }
}

proof fn lemma_advance_is_reserved(
    metrics: BreadcrumbSegmentMetrics,
    items: Seq<RowItem>,
    widths: Seq<SubPixels>,
    gap: SubPixels,
    count: nat,
)
    requires
        count < items.len() == widths.len(),
        forall|p: int|
            0 <= p < items.len() ==> takes_what_is_reserved(
                metrics,
                items,
                #[trigger] widths[p],
                gap,
                p,
            ),
    ensures
        advance(widths, gap, count) == (all_reserved(metrics, items, count)
            + metrics.separator_width * count) * SUBPIXELS_PER_PIXEL,
    decreases count,
{
    if count > 0 {
        let fewer = (count - 1) as nat;
        let separator = metrics.separator_width as int;
        lemma_advance_is_reserved(metrics, items, widths, gap, fewer);
        assert(takes_what_is_reserved(metrics, items, widths[fewer as int], gap, fewer as int));
        assert(separator * count == separator * fewer + separator) by (nonlinear_arith)
            requires
                count == fewer + 1,
        ;
    } else {
        assert(metrics.separator_width * count == 0) by (nonlinear_arith)
            requires
                count == 0,
        ;
    }
}

/// The row reserves what it paints: where each item comes out as wide as it was measured, the whole
/// row comes out as wide as its plan.
pub proof fn law_the_row_reserves_what_it_paints(
    metrics: BreadcrumbSegmentMetrics,
    dropped: Seq<bool>,
    widths: Seq<SubPixels>,
    gap: SubPixels,
)
    requires
        dropped.len() <= usize::MAX,
        widths.len() == row_items(dropped, dropped.len()).len() > 0,
        forall|p: int|
            0 <= p < widths.len() ==> takes_what_is_reserved(
                metrics,
                row_items(dropped, dropped.len()),
                #[trigger] widths[p],
                gap,
                p,
            ),
    ensures
        advance(widths, gap, widths.len()) - gap == metrics.total_width(dropped)
            * SUBPIXELS_PER_PIXEL,
{
    let items = row_items(dropped, dropped.len());
    let last = (items.len() - 1) as nat;
    lemma_items_make_up_the_width(metrics, dropped, dropped.len());
    lemma_advance_is_reserved(metrics, items, widths, gap, last);
    assert(takes_what_is_reserved(metrics, items, widths[last as int], gap, last as int));
}

/// Ends the session of a dropdown whose segment the row no longer shows. A dropdown that is moving
/// is left alone: the move drops and re-shows it itself. Tells whether a session ended.
pub fn dismiss_orphan<H: ErasedBreadcrumbPopoverHandle, S>(
    row: &BreadcrumbsRow,
    layout: &RowLayout,
    state: &mut BreadcrumbState<H, S>,
    cx: &mut H::App,
) -> (cleared: bool)
    requires
        layout.orphan matches Some(index) ==> index < row.segments@.len(),
    ensures
        match layout.orphan {
            Some(index) => {
                let target = row@.segments[index as int].target;
                if target is Some && !old(state).popover.is_reanchoring() {
                    &&& optionally_hides(handle_for(*old(state), target->0), *old(cx), *final(cx))
                    &&& cleared == orphan_dismissed(*old(state), target->0)
                    &&& *final(state) == if cleared {
                        old(state).session_closed()
                    } else {
                        *old(state)
                    }
                } else {
                    !cleared && *final(state) == *old(state) && *final(cx) == *old(cx)
                }
            },
            None => !cleared && *final(state) == *old(state) && *final(cx) == *old(cx),
        },
{
    match layout.orphan {
        Some(index) => {
            assert(row@.segments[index as int] == row.segments@[index as int]@);
            match &row.segments[index].target {
                Some(target) => if state.reanchoring() {
                    false
                } else {
                    dismiss_orphaned_breadcrumb_popover(state, target, cx)
                },
                None => false,
            }
        },
        None => false,
    }
}

/// The segment of an open dropdown is on screen at any width, so no dropdown is ever orphaned.
pub proof fn law_no_dropdown_is_orphaned(
    row: RowView,
    metrics: BreadcrumbSegmentMetrics,
    available_width: int,
)
    requires
        metrics.widths@.len() == row.segments.len() <= usize::MAX,
    ensures
        row.orphan(row.dropped(metrics, available_width)) is None,
{
    lemma_first_where(row.segments.len(), is_anchored(row.segments), 0);
    if let Some(index) = row.anchored_index() {
        if !row.expanded {
            law_last_and_anchored_segments_stay(
                metrics,
                row.kinds(),
                available_width,
                row.anchored_index(),
                row.file_outlives_symbols,
                index as int,
            );
        }
    }
}

/// An expanded row paints every segment and no ellipsis, asks for its natural width and truncates
/// nothing.
pub proof fn law_expansion_reveals_every_segment(
    row: RowView,
    metrics: BreadcrumbSegmentMetrics,
    available_width: int,
    known_width: Option<RowPixels>,
    available: AvailableSpace,
)
    requires
        row.expanded,
        metrics.widths@.len() == row.segments.len() <= usize::MAX,
    ensures
        row_items(row.dropped(metrics, available_width), row.segments.len()) == Seq::new(
            row.segments.len(),
            |i: int| RowItem::Segment(i as usize),
        ),
        row.requested_width(metrics, known_width, available) == metrics.spec_natural_width(),
{
    lemma_all_kept_items(row.segments.len(), row.segments.len());
}

proof fn lemma_all_kept_items(count: nat, total: nat)
    requires
        count <= total <= usize::MAX,
    ensures
        row_items(nothing_dropped(total), count) == Seq::new(
            count,
            |i: int| RowItem::Segment(i as usize),
        ),
    decreases count,
{
    if count > 0 {
        lemma_all_kept_items((count - 1) as nat, total);
    }
    assert(row_items(nothing_dropped(total), count) =~= Seq::new(
        count,
        |i: int| RowItem::Segment(i as usize),
    ));
}

/// A collapsed row never asks for more than it is offered, and paints something whenever it has
/// segments: the last segment is always its last item.
pub proof fn law_collapsed_row_stays_in_its_container(
    row: RowView,
    metrics: BreadcrumbSegmentMetrics,
    width: RowPixels,
)
    requires
        !row.expanded,
        metrics.widths@.len() == row.segments.len() <= usize::MAX,
    ensures
        row.requested_width(metrics, None, AvailableSpace::Definite(width)) <= width,
        row.segments.len() > 0 ==> row_items(
            row.dropped(metrics, width as int),
            row.segments.len(),
        ).last() == RowItem::Segment((row.segments.len() - 1) as usize),
{
    if row.segments.len() > 0 {
        law_last_and_anchored_segments_stay(
            metrics,
            row.kinds(),
            width as int,
            row.anchored_index(),
            row.file_outlives_symbols,
            row.segments.len() - 1,
        );
    }
}

/// A row that is given the width it asked for lays out as it did when it asked: nothing more is
/// dropped.
pub proof fn law_requested_width_is_enough(
    row: RowView,
    metrics: BreadcrumbSegmentMetrics,
    width: RowPixels,
)
    requires
        metrics.widths@.len() == row.segments.len() <= usize::MAX,
    ensures
        row.dropped(
            metrics,
            row.requested_width(metrics, None, AvailableSpace::Definite(width)),
        ) == row.dropped(metrics, width as int),
{
    if !row.expanded && metrics.total_width(row.dropped(metrics, width as int)) <= width {
        law_narrower_fit_drops_the_same(
            metrics,
            row.kinds(),
            width as int,
            metrics.total_width(row.dropped(metrics, width as int)),
            row.anchored_index(),
            row.file_outlives_symbols,
        );
    }
}

} // verus!
