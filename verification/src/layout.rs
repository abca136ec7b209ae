//! Which segments of the bar stay visible when its row is too narrow for all of them.

use std::ops::Range;

use vstd::prelude::*;

use crate::listing::{indices_where, lemma_indices_where};

verus! {

/// The width of one painted item, in device pixels: every painted box is sized on the device
/// grid.
pub type Pixels = i32;

/// The width of a whole row, in device pixels; wide enough for any number of items.
pub type RowPixels = i128;

/// A length that need not lie on the device grid, in parts of a device pixel.
pub type SubPixels = i32;

/// How many parts a device pixel has.
pub const SUBPIXELS_PER_PIXEL: i64 = 256;

/// A length along a whole row, in parts of a device pixel.
pub type RowSubPixels = i128;

/// Where a segment sits in [`plan_breadcrumb_layout`]'s drop order when the bar can't fit
/// everything.
#[derive(Clone, Copy, Debug, PartialEq, Eq, Structural)]
pub enum BreadcrumbSegmentKind {
    Root,
    Middle,
    File,
    Symbol,
}

/// The measured width of every segment. Widths are per item: the separator between two of them
/// is counted by [`breadcrumb_layout_plan_width`].
#[derive(Debug)]
pub struct BreadcrumbSegmentMetrics {
    pub widths: Vec<Pixels>,
    pub ellipsis_width: Pixels,
    pub separator_width: Pixels,
}

/// Position `index` opens a run of dropped segments.
pub open spec fn starts_run(dropped: Seq<bool>, index: int) -> bool {
    dropped[index] && (index == 0 || !dropped[index - 1])
}

/// How many items the first `count` segments paint: one for each kept segment and one ellipsis
/// for each run of dropped ones.
pub open spec fn item_count(dropped: Seq<bool>, count: nat) -> nat
    decreases count,
{
    if count == 0 {
        0
    } else {
        let last = (count - 1) as nat;
        item_count(dropped, last) + if !dropped[last as int] || starts_run(dropped, last as int) {
            1nat
        } else {
            0nat
        }
    }
}

impl BreadcrumbSegmentMetrics {
    /// The widths of the items that the first `count` segments paint, without separators.
    pub open spec fn items_width(&self, dropped: Seq<bool>, count: nat) -> int
        decreases count,
    {
        if count == 0 {
            0
        } else {
            let last = (count - 1) as nat;
            self.items_width(dropped, last) + if !dropped[last as int] {
                self.widths@[last as int] as int
            } else if starts_run(dropped, last as int) {
                self.ellipsis_width as int
            } else {
                0
            }
        }
    }

    /// The width of the row that leaves out the `dropped` segments: its items, and a separator
    /// between each two of them.
    pub open spec fn total_width(&self, dropped: Seq<bool>) -> int {
        let items = item_count(dropped, dropped.len());
        self.items_width(dropped, dropped.len()) + self.separator_width * (if items == 0 {
            0
        } else {
            items - 1
        })
    }

    /// The width of the row that shows every segment.
    pub open spec fn spec_natural_width(&self) -> int {
        self.total_width(nothing_dropped(self.widths@.len()))
    }
}

/// A row of `count` segments none of which is dropped.
pub open spec fn nothing_dropped(count: nat) -> Seq<bool> {
    Seq::new(count, |i: int| false)
}

proof fn lemma_separators_bound(separator: int, separators: int)
    requires
        -0x8000_0000 <= separator < 0x8000_0000,
        0 <= separators <= 0xffff_ffff_ffff_ffff,
    ensures
        -0x8000_0000 * 0x1_0000_0000_0000_0000 <= separator * separators <= 0x8000_0000
            * 0x1_0000_0000_0000_0000,
{
    assert(-0x8000_0000 * 0x1_0000_0000_0000_0000 <= separator * separators <= 0x8000_0000
        * 0x1_0000_0000_0000_0000) by (nonlinear_arith)
        requires
            -0x8000_0000 <= separator < 0x8000_0000,
            0 <= separators <= 0xffff_ffff_ffff_ffff,
    ;
}

/// The width of the row that leaves out the `dropped` segments.
pub fn total_breadcrumb_layout_width(
    metrics: &BreadcrumbSegmentMetrics,
    dropped: &[bool],
) -> (width: RowPixels)
    requires
        forall|i: int| metrics.widths@.len() <= i < dropped@.len() ==> #[trigger] dropped@[i],
    ensures
        width == metrics.total_width(dropped@),
{
    let mut total: i128 = 0;
    let mut items: usize = 0;
    let mut in_dropped_run: bool = false;
    let mut index: usize = 0;
    while index < dropped.len()
        invariant
            index <= dropped@.len(),
            forall|i: int| metrics.widths@.len() <= i < dropped@.len() ==> #[trigger] dropped@[i],
            total == metrics.items_width(dropped@, index as nat),
            items == item_count(dropped@, index as nat),
            items <= index,
            in_dropped_run == (index > 0 && dropped@[index - 1]),
            -0x8000_0000 * index <= total <= 0x8000_0000 * index,
        decreases dropped@.len() - index,
    {
        if dropped[index] {
            if !in_dropped_run {
                total = total + metrics.ellipsis_width as i128;
                items = items + 1;
                in_dropped_run = true;
            }
        } else {
            total = total + metrics.widths[index] as i128;
            items = items + 1;
            in_dropped_run = false;
        }
        index = index + 1;
    }
    // The trailing item paints no separator.
    let separators: usize = if items == 0 {
        0
    } else {
        items - 1
    };
    proof {
        lemma_separators_bound(metrics.separator_width as int, separators as int);
    }
    total + metrics.separator_width as i128 * separators as i128
}

impl BreadcrumbSegmentMetrics {
    /// The width of the row that shows every segment.
    pub fn natural_width(&self) -> (width: RowPixels)
        ensures
            width == self.spec_natural_width(),
    {
        let mut total: i128 = 0;
        let mut index: usize = 0;
        let ghost dropped = nothing_dropped(self.widths@.len());
        while index < self.widths.len()
            invariant
                index <= self.widths@.len(),
                dropped == nothing_dropped(self.widths@.len()),
                total == self.items_width(dropped, index as nat),
                item_count(dropped, index as nat) == index,
                -0x8000_0000 * index <= total <= 0x8000_0000 * index,
            decreases self.widths@.len() - index,
        {
            total = total + self.widths[index] as i128;
            index = index + 1;
        }
        let separators: usize = if self.widths.len() == 0 {
            0
        } else {
            self.widths.len() - 1
        };
        proof {
            lemma_separators_bound(self.separator_width as int, separators as int);
        }
        total + self.separator_width as i128 * separators as i128
    }
}

/// `visible` and `ellipses` together partition the positions of the segments.
#[derive(Debug, PartialEq, Eq)]
pub struct BreadcrumbLayoutPlan {
    pub visible: Vec<usize>,
    pub ellipses: Vec<Range<usize>>,
}

/// The condition of not being dropped.
pub open spec fn is_kept(dropped: Seq<bool>) -> spec_fn(int) -> bool {
    |i: int| !dropped[i]
}

/// The maximal runs of dropped segments among the first `count`, from left to right.
pub open spec fn dropped_runs(dropped: Seq<bool>, count: nat) -> Seq<Range<usize>>
    decreases count,
{
    if count == 0 {
        Seq::empty()
    } else {
        let last = (count - 1) as nat;
        let runs = dropped_runs(dropped, last);
        if !dropped[last as int] {
            runs
        } else if starts_run(dropped, last as int) {
            runs.push(Range { start: last as usize, end: count as usize })
        } else {
            runs.drop_last().push(Range { start: runs.last().start, end: count as usize })
        }
    }
}

impl BreadcrumbLayoutPlan {
    /// The plan shows the kept segments and puts one ellipsis for each run of dropped ones.
    pub open spec fn shows(&self, dropped: Seq<bool>) -> bool {
        &&& self.visible@ == indices_where(dropped.len(), is_kept(dropped))
        &&& self.ellipses@ == dropped_runs(dropped, dropped.len())
    }
}

/// The plan that leaves out the `dropped` segments.
pub fn breadcrumb_layout_plan_from_dropped(dropped: &[bool]) -> (plan: BreadcrumbLayoutPlan)
    ensures
        plan.shows(dropped@),
{
    let mut visible: Vec<usize> = Vec::new();
    let mut ellipses: Vec<Range<usize>> = Vec::new();
    let mut run_start: Option<usize> = None;
    let mut index: usize = 0;
    while index < dropped.len()
        invariant
            index <= dropped@.len(),
            visible@ == indices_where(index as nat, is_kept(dropped@)),
            run_start is Some == (index > 0 && dropped@[index - 1]),
            match run_start {
                Some(start) => ellipses@.push(Range { start, end: index }) == dropped_runs(
                    dropped@,
                    index as nat,
                ),
                None => ellipses@ == dropped_runs(dropped@, index as nat),
            },
        decreases dropped@.len() - index,
    {
        let ghost runs = dropped_runs(dropped@, index as nat);
        if dropped[index] {
            match run_start {
                None => {
                    run_start = Some(index);
                },
                Some(start) => {
                    assert(runs.drop_last() == ellipses@);
                    assert(runs.last() == (Range { start, end: index }));
                },
            }
        } else {
            if let Some(start) = run_start {
                ellipses.push(start..index);
                run_start = None;
            }
            visible.push(index);
        }
        index = index + 1;
    }
    if let Some(start) = run_start {
        ellipses.push(start..dropped.len());
    }
    BreadcrumbLayoutPlan { visible, ellipses }
}

/// The segments of one kind that may be dropped, left to right: never the last segment, nor the
/// anchored one.
pub open spec fn is_droppable(
    kinds: Seq<BreadcrumbSegmentKind>,
    anchored_index: Option<usize>,
    kind: BreadcrumbSegmentKind,
) -> spec_fn(int) -> bool {
    |i: int| i != kinds.len() - 1 && anchored_index != Some(i as usize) && kinds[i] == kind
}

/// The kinds in the order in which their segments are dropped.
pub open spec fn kinds_cheapest_first(file_outlives_symbols: bool) -> Seq<BreadcrumbSegmentKind> {
    if file_outlives_symbols {
        seq![
            BreadcrumbSegmentKind::Middle,
            BreadcrumbSegmentKind::Root,
            BreadcrumbSegmentKind::Symbol,
            BreadcrumbSegmentKind::File,
        ]
    } else {
        seq![
            BreadcrumbSegmentKind::Middle,
            BreadcrumbSegmentKind::Root,
            BreadcrumbSegmentKind::File,
            BreadcrumbSegmentKind::Symbol,
        ]
    }
}

/// The droppable segments of the `rounds` cheapest kinds, in the order in which they are dropped.
pub open spec fn drop_order(
    kinds: Seq<BreadcrumbSegmentKind>,
    anchored_index: Option<usize>,
    file_outlives_symbols: bool,
    rounds: nat,
) -> Seq<usize>
    decreases rounds,
{
    if rounds == 0 {
        Seq::empty()
    } else {
        drop_order(kinds, anchored_index, file_outlives_symbols, (rounds - 1) as nat)
            + indices_where(
            kinds.len(),
            is_droppable(
                kinds,
                anchored_index,
                kinds_cheapest_first(file_outlives_symbols)[rounds - 1],
            ),
        )
    }
}

/// The row of `count` segments after the first `steps` drops of `order`.
pub open spec fn dropped_after(count: nat, order: Seq<usize>, steps: int) -> Seq<bool> {
    Seq::new(count, |i: int| order.take(steps).contains(i as usize))
}

/// How many drops of `order` are made, `steps` of them already: as few as make the row fit, or
/// all of them.
pub open spec fn drops_needed(
    metrics: BreadcrumbSegmentMetrics,
    order: Seq<usize>,
    available_width: int,
    steps: int,
) -> int
    decreases order.len() - steps,
{
    if steps >= order.len() || metrics.total_width(
        dropped_after(metrics.widths@.len(), order, steps),
    ) <= available_width {
        steps
    } else {
        drops_needed(metrics, order, available_width, steps + 1)
    }
}

/// The segments that a row of `available_width` leaves out.
pub open spec fn planned_drops(
    metrics: BreadcrumbSegmentMetrics,
    kinds: Seq<BreadcrumbSegmentKind>,
    available_width: int,
    anchored_index: Option<usize>,
    file_outlives_symbols: bool,
) -> Seq<bool> {
    let order = drop_order(kinds, anchored_index, file_outlives_symbols, 4);
    dropped_after(
        metrics.widths@.len(),
        order,
        drops_needed(metrics, order, available_width, 0),
    )
}

/// Appends the droppable segments of one kind to `order`.
fn extend_drop_order(
    order: &mut Vec<usize>,
    kinds: &[BreadcrumbSegmentKind],
    anchored_index: Option<usize>,
    kind: BreadcrumbSegmentKind,
)
    requires
        kinds@.len() > 0,
    ensures
        final(order)@ == old(order)@ + indices_where(
            kinds@.len(),
            is_droppable(kinds@, anchored_index, kind),
        ),
{
    let last_index: usize = kinds.len() - 1;
    let mut index: usize = 0;
    let ghost before = order@;
    while index < kinds.len()
        invariant
            index <= kinds@.len(),
            last_index == kinds@.len() - 1,
            order@ == before + indices_where(
                index as nat,
                is_droppable(kinds@, anchored_index, kind),
            ),
        decreases kinds@.len() - index,
    {
        let anchored: bool = match anchored_index {
            Some(anchor) => anchor == index,
            None => false,
        };
        if index != last_index && !anchored && kinds[index] == kind {
            order.push(index);
        }
        index = index + 1;
    }
}

proof fn lemma_drop_order_in_range(
    kinds: Seq<BreadcrumbSegmentKind>,
    anchored_index: Option<usize>,
    file_outlives_symbols: bool,
    rounds: nat,
)
    requires
        rounds <= 4,
        kinds.len() <= usize::MAX,
    ensures
        forall|a: int|
            0 <= a < drop_order(kinds, anchored_index, file_outlives_symbols, rounds).len() ==> {
                let index = #[trigger] drop_order(
                    kinds,
                    anchored_index,
                    file_outlives_symbols,
                    rounds,
                )[a];
                &&& index + 1 < kinds.len()
                &&& anchored_index != Some(index)
            },
    decreases rounds,
{
    if rounds > 0 {
        let kind = kinds_cheapest_first(file_outlives_symbols)[rounds - 1];
        lemma_drop_order_in_range(kinds, anchored_index, file_outlives_symbols, (rounds - 1) as nat);
        lemma_indices_where(kinds.len(), is_droppable(kinds, anchored_index, kind));
        let shorter = drop_order(
            kinds,
            anchored_index,
            file_outlives_symbols,
            (rounds - 1) as nat,
        );
        let listing = indices_where(kinds.len(), is_droppable(kinds, anchored_index, kind));
        assert forall|a: int|
            0 <= a < drop_order(
                kinds,
                anchored_index,
                file_outlives_symbols,
                rounds,
            ).len() implies {
            let index = #[trigger] drop_order(kinds, anchored_index, file_outlives_symbols, rounds)[a];
            &&& index + 1 < kinds.len()
            &&& anchored_index != Some(index)
        } by {
            if a < shorter.len() {
                assert(drop_order(kinds, anchored_index, file_outlives_symbols, rounds)[a]
                    == shorter[a]);
            } else {
                let b = a - shorter.len();
                assert(drop_order(kinds, anchored_index, file_outlives_symbols, rounds)[a]
                    == listing[b]);
                assert(is_droppable(kinds, anchored_index, kind)(listing[b] as int));
            }
        }
    }
}

/// Drops segments cheapest first (`Middle`, `Root`, then `File` and `Symbol` in the order that
/// `file_outlives_symbols` picks) until the row fits; the last one and `anchored_index` never
/// drop.
pub fn plan_breadcrumb_layout(
    metrics: &BreadcrumbSegmentMetrics,
    kinds: &[BreadcrumbSegmentKind],
    available_width: RowPixels,
    anchored_index: Option<usize>,
    file_outlives_symbols: bool,
) -> (plan: BreadcrumbLayoutPlan)
    requires
        metrics.widths@.len() == kinds@.len(),
    ensures
        plan.shows(
            planned_drops(
                *metrics,
                kinds@,
                available_width as int,
                anchored_index,
                file_outlives_symbols,
            ),
        ),
{
    let segment_count: usize = metrics.widths.len();
    let ghost order = drop_order(kinds@, anchored_index, file_outlives_symbols, 4);
    let ghost count = metrics.widths@.len();
    let mut dropped: Vec<bool> = Vec::with_capacity(segment_count);
    while dropped.len() < segment_count
        invariant
            dropped@.len() <= segment_count,
            forall|i: int| 0 <= i < dropped@.len() ==> !#[trigger] dropped@[i],
        decreases segment_count - dropped@.len(),
    {
        dropped.push(false);
    }
    assert(dropped@ == dropped_after(count, order, 0));
    if segment_count == 0 {
        proof {
            lemma_drop_order_in_range(kinds@, anchored_index, file_outlives_symbols, 4);
            assert(dropped@ == planned_drops(
                *metrics,
                kinds@,
                available_width as int,
                anchored_index,
                file_outlives_symbols,
            ));
        }
        return BreadcrumbLayoutPlan { visible: Vec::new(), ellipses: Vec::new() };
    }
    if total_breadcrumb_layout_width(metrics, dropped.as_slice()) <= available_width {
        return breadcrumb_layout_plan_from_dropped(dropped.as_slice());
    }
    let mut drops: Vec<usize> = Vec::with_capacity(segment_count - 1);
    extend_drop_order(&mut drops, kinds, anchored_index, BreadcrumbSegmentKind::Middle);
    extend_drop_order(&mut drops, kinds, anchored_index, BreadcrumbSegmentKind::Root);
    if file_outlives_symbols {
        extend_drop_order(&mut drops, kinds, anchored_index, BreadcrumbSegmentKind::Symbol);
        extend_drop_order(&mut drops, kinds, anchored_index, BreadcrumbSegmentKind::File);
    } else {
        extend_drop_order(&mut drops, kinds, anchored_index, BreadcrumbSegmentKind::File);
        extend_drop_order(&mut drops, kinds, anchored_index, BreadcrumbSegmentKind::Symbol);
    }
    proof {
        reveal_with_fuel(drop_order, 5);
        assert(drops@ == order);
        lemma_drop_order_in_range(kinds@, anchored_index, file_outlives_symbols, 4);
    }
    let mut step: usize = 0;
    while step < drops.len()
        invariant_except_break
            step <= drops@.len(),
            dropped@ == dropped_after(count, order, step as int),
            drops_needed(*metrics, order, available_width as int, 0) == drops_needed(
                *metrics,
                order,
                available_width as int,
                step as int,
            ),
            step == drops@.len() || metrics.total_width(dropped@) > available_width,
        invariant
            drops@ == order,
            count == metrics.widths@.len(),
            count <= usize::MAX,
            dropped@.len() == count,
            forall|a: int| 0 <= a < order.len() ==> #[trigger] order[a] < count,
        ensures
            dropped@ == dropped_after(
                count,
                order,
                drops_needed(*metrics, order, available_width as int, 0),
            ),
        decreases drops@.len() - step,
    {
        let index: usize = drops[step];
        let ghost before = dropped@;
        dropped.set(index, true);
        proof {
            let next = dropped_after(count, order, step + 1);
            let earlier = order.take(step as int);
            let now = order.take(step + 1);
            assert(now == earlier.push(index));
            assert forall|i: int| 0 <= i < count implies #[trigger] dropped@[i] == next[i] by {
                if i == index {
                    assert(now[step as int] == index);
                } else if before[i] {
                    let a = choose|a: int| 0 <= a < earlier.len() && earlier[a] == i as usize;
                    assert(now[a] == i as usize);
                } else if now.contains(i as usize) {
                    let a = choose|a: int| 0 <= a < now.len() && now[a] == i as usize;
                    assert(earlier[a] == i as usize);
                }
            }
            assert(dropped@ == next);
            assert(drops_needed(*metrics, order, available_width as int, step as int)
                == drops_needed(*metrics, order, available_width as int, step + 1));
        }
        step = step + 1;
        if total_breadcrumb_layout_width(metrics, dropped.as_slice()) <= available_width {
            break;
        }
    }
    breadcrumb_layout_plan_from_dropped(dropped.as_slice())
}

/// Some range of `ranges` holds position `index`.
pub open spec fn is_covered(ranges: Seq<Range<usize>>, index: int) -> bool {
    exists|r: int| 0 <= r < ranges.len() && (#[trigger] ranges[r]).start <= index < ranges[r].end
}

/// The row of `count` segments that leaves out those that an ellipsis of `ranges` stands for.
pub open spec fn dropped_by(ranges: Seq<Range<usize>>, count: nat) -> Seq<bool> {
    Seq::new(count, |i: int| is_covered(ranges, i))
}

/// The width of the row that follows `plan`.
pub fn breadcrumb_layout_plan_width(
    metrics: &BreadcrumbSegmentMetrics,
    plan: &BreadcrumbLayoutPlan,
) -> (width: RowPixels)
    requires
        forall|r: int|
            0 <= r < plan.ellipses@.len() && (#[trigger] plan.ellipses@[r]).start
                < plan.ellipses@[r].end ==> plan.ellipses@[r].end <= metrics.widths@.len(),
    ensures
        width == metrics.total_width(dropped_by(plan.ellipses@, metrics.widths@.len())),
{
    let segment_count: usize = metrics.widths.len();
    let mut dropped: Vec<bool> = Vec::with_capacity(segment_count);
    while dropped.len() < segment_count
        invariant
            dropped@.len() <= segment_count,
            forall|i: int| 0 <= i < dropped@.len() ==> !#[trigger] dropped@[i],
        decreases segment_count - dropped@.len(),
    {
        dropped.push(false);
    }
    let mut r: usize = 0;
    while r < plan.ellipses.len()
        invariant
            r <= plan.ellipses@.len(),
            dropped@.len() == segment_count == metrics.widths@.len(),
            forall|r: int|
                0 <= r < plan.ellipses@.len() && (#[trigger] plan.ellipses@[r]).start
                    < plan.ellipses@[r].end ==> plan.ellipses@[r].end <= metrics.widths@.len(),
            forall|i: int|
                0 <= i < segment_count ==> #[trigger] dropped@[i] == is_covered(
                    plan.ellipses@.take(r as int),
                    i,
                ),
        decreases plan.ellipses@.len() - r,
    {
        let start: usize = plan.ellipses[r].start;
        let end: usize = plan.ellipses[r].end;
        let ghost before = dropped@;
        let mut index: usize = start;
        while index < end
            invariant
                start <= index,
                start < end ==> index <= end <= segment_count,
                start >= end ==> index == start,
                before.len() == segment_count,
                dropped@.len() == segment_count,
                forall|i: int|
                    0 <= i < segment_count ==> #[trigger] dropped@[i] == (before[i] || start <= i
                        < index),
            decreases end - index,
        {
            dropped.set(index, true);
            index = index + 1;
        }
        proof {
            let shorter = plan.ellipses@.take(r as int);
            let longer = plan.ellipses@.take(r + 1);
            assert(longer == shorter.push(plan.ellipses@[r as int]));
            assert forall|i: int| 0 <= i < segment_count implies #[trigger] dropped@[i]
                == is_covered(longer, i) by {
                if before[i] {
                    assert(is_covered(shorter, i));
                    let q = choose|q: int|
                        0 <= q < shorter.len() && (#[trigger] shorter[q]).start <= i
                            < shorter[q].end;
                    assert(longer[q] == shorter[q]);
                }
                if start <= i < end {
                    assert(longer[r as int].start <= i < longer[r as int].end);
                }
                if is_covered(longer, i) && !(start <= i < end) {
                    let q = choose|q: int|
                        0 <= q < longer.len() && (#[trigger] longer[q]).start <= i < longer[q].end;
                    assert(shorter[q] == longer[q]);
                }
            }
        }
        r = r + 1;
    }
    proof {
        assert(plan.ellipses@.take(r as int) == plan.ellipses@);
        assert(dropped@ == dropped_by(plan.ellipses@, metrics.widths@.len()));
    }
    total_breadcrumb_layout_width(metrics, dropped.as_slice())
}

} // verus!
