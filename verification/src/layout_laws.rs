//! What holds of every layout plan.

use std::ops::Range;

use vstd::prelude::*;

use crate::layout::{
    dropped_after, dropped_by, dropped_runs, drop_order, drops_needed, is_covered, is_droppable,
    is_kept, kinds_cheapest_first, nothing_dropped, planned_drops, starts_run,
    BreadcrumbLayoutPlan, BreadcrumbSegmentKind, BreadcrumbSegmentMetrics,
};
use crate::listing::{indices_where, lemma_indices_where};

verus! {

/// `run` is a maximal run of dropped segments among the first `count`.
pub open spec fn is_maximal_run(dropped: Seq<bool>, count: nat, run: Range<usize>) -> bool {
    &&& run.start < run.end <= count
    &&& starts_run(dropped, run.start as int)
    &&& run.end == count || !dropped[run.end as int]
    &&& forall|i: int| run.start <= i < run.end ==> #[trigger] dropped[i]
}

/// The ellipses of a row are its maximal runs of dropped segments, from left to right, with a
/// kept segment between each two, and every dropped segment lies in one of them.
pub proof fn law_runs_are_maximal(dropped: Seq<bool>, count: nat)
    requires
        count <= dropped.len() <= usize::MAX,
    ensures
        forall|a: int|
            0 <= a < dropped_runs(dropped, count).len() ==> is_maximal_run(
                dropped,
                count,
                #[trigger] dropped_runs(dropped, count)[a],
            ),
        forall|a: int, b: int|
            0 <= a < b < dropped_runs(dropped, count).len() ==> (#[trigger] dropped_runs(
                dropped,
                count,
            )[a]).end < (#[trigger] dropped_runs(dropped, count)[b]).start,
        forall|i: int|
            0 <= i < count ==> #[trigger] is_covered(dropped_runs(dropped, count), i) == dropped[i],
    decreases count,
{
    let runs = dropped_runs(dropped, count);
    if count > 0 {
        let last = (count - 1) as nat;
        let shorter = dropped_runs(dropped, last);
        law_runs_are_maximal(dropped, last);
        if dropped[last as int] && !starts_run(dropped, last as int) {
            assert(is_covered(shorter, last - 1));
            let q = choose|q: int|
                0 <= q < shorter.len() && (#[trigger] shorter[q]).start <= last - 1
                    < shorter[q].end;
            assert(is_maximal_run(dropped, last, shorter[q]));
            assert(q == shorter.len() - 1) by {
                if q < shorter.len() - 1 {
                    assert(shorter[q].end < shorter[shorter.len() - 1].start);
                    assert(is_maximal_run(dropped, last, shorter[shorter.len() - 1]));
                }
            }
        }
        assert forall|a: int| 0 <= a < runs.len() implies is_maximal_run(
            dropped,
            count,
            #[trigger] runs[a],
        ) by {
            if a < shorter.len() {
                assert(is_maximal_run(dropped, last, shorter[a]));
                if runs[a] == shorter[a] && shorter[a].end == last && dropped[last as int] {
                    assert(a == shorter.len() - 1) by {
                        if a < shorter.len() - 1 {
                            assert(shorter[a].end < shorter[shorter.len() - 1].start);
                            assert(is_maximal_run(dropped, last, shorter[shorter.len() - 1]));
                        }
                    }
                    assert(dropped[last - 1]);
                }
            }
        }
        assert forall|i: int| 0 <= i < count implies #[trigger] is_covered(runs, i) == dropped[i] by {
            if dropped[i] {
                if i < last {
                    assert(is_covered(shorter, i));
                    let q = choose|q: int|
                        0 <= q < shorter.len() && (#[trigger] shorter[q]).start <= i
                            < shorter[q].end;
                    assert(runs[q].start <= i < runs[q].end);
                } else {
                    assert(runs[runs.len() - 1].start <= i < runs[runs.len() - 1].end);
                }
            } else if is_covered(runs, i) {
                let q = choose|q: int|
                    0 <= q < runs.len() && (#[trigger] runs[q]).start <= i < runs[q].end;
                assert(is_maximal_run(dropped, count, runs[q]));
            }
        }
    }
}

/// The visible segments and the ellipses of a plan partition the row: each position is visible
/// or stands behind an ellipsis, never both.
pub proof fn law_plan_partitions_the_row(plan: BreadcrumbLayoutPlan, dropped: Seq<bool>, index: int)
    requires
        plan.shows(dropped),
        0 <= index < dropped.len() <= usize::MAX,
    ensures
        plan.visible@.contains(index as usize) <==> !is_covered(plan.ellipses@, index),
        plan.visible@.contains(index as usize) <==> !dropped[index],
{
    lemma_indices_where(dropped.len(), is_kept(dropped));
    law_runs_are_maximal(dropped, dropped.len());
    assert(is_kept(dropped)(index) == !dropped[index]);
}

/// The plan holds nothing but positions of the row, the visible ones in ascending order.
pub proof fn law_plan_stays_in_the_row(plan: BreadcrumbLayoutPlan, dropped: Seq<bool>)
    requires
        plan.shows(dropped),
        dropped.len() <= usize::MAX,
    ensures
        forall|a: int|
            0 <= a < plan.visible@.len() ==> #[trigger] plan.visible@[a] < dropped.len(),
        forall|a: int, b: int|
            0 <= a < b < plan.visible@.len() ==> plan.visible@[a] < plan.visible@[b],
        forall|r: int|
            0 <= r < plan.ellipses@.len() ==> (#[trigger] plan.ellipses@[r]).start
                < plan.ellipses@[r].end <= dropped.len(),
{
    lemma_indices_where(dropped.len(), is_kept(dropped));
    law_runs_are_maximal(dropped, dropped.len());
    assert forall|r: int| 0 <= r < plan.ellipses@.len() implies (#[trigger] plan.ellipses@[r]).start
        < plan.ellipses@[r].end <= dropped.len() by {
        assert(is_maximal_run(dropped, dropped.len(), plan.ellipses@[r]));
    }
}

/// The width of a plan is the width of the row that it was made for.
pub proof fn law_plan_width_is_the_row_width(
    metrics: BreadcrumbSegmentMetrics,
    plan: BreadcrumbLayoutPlan,
    dropped: Seq<bool>,
)
    requires
        plan.shows(dropped),
        dropped.len() == metrics.widths@.len() <= usize::MAX,
    ensures
        dropped_by(plan.ellipses@, metrics.widths@.len()) == dropped,
        metrics.total_width(dropped_by(plan.ellipses@, metrics.widths@.len()))
            == metrics.total_width(dropped),
{
    law_runs_are_maximal(dropped, dropped.len());
    assert forall|i: int| 0 <= i < dropped.len() implies dropped_by(
        plan.ellipses@,
        metrics.widths@.len(),
    )[i] == dropped[i] by {
        assert(is_covered(plan.ellipses@, i) == dropped[i]);
    }
    assert(dropped_by(plan.ellipses@, metrics.widths@.len()) =~= dropped);
}

proof fn lemma_drops_needed(
    metrics: BreadcrumbSegmentMetrics,
    order: Seq<usize>,
    available_width: int,
    steps: int,
)
    requires
        0 <= steps <= order.len(),
    ensures
        ({
            let needed = drops_needed(metrics, order, available_width, steps);
            let count = metrics.widths@.len();
            &&& steps <= needed <= order.len()
            &&& needed == order.len() || metrics.total_width(dropped_after(count, order, needed))
                <= available_width
            &&& forall|j: int|
                steps <= j < needed ==> #[trigger] metrics.total_width(
                    dropped_after(count, order, j),
                ) > available_width
        }),
    decreases order.len() - steps,
{
    if steps < order.len() && metrics.total_width(
        dropped_after(metrics.widths@.len(), order, steps),
    ) > available_width {
        lemma_drops_needed(metrics, order, available_width, steps + 1);
    }
}

/// The place of a kind in the drop order.
pub open spec fn drop_rank(kind: BreadcrumbSegmentKind, file_outlives_symbols: bool) -> nat {
    match kind {
        BreadcrumbSegmentKind::Middle => 0,
        BreadcrumbSegmentKind::Root => 1,
        BreadcrumbSegmentKind::File => if file_outlives_symbols {
            3
        } else {
            2
        },
        BreadcrumbSegmentKind::Symbol => if file_outlives_symbols {
            2
        } else {
            3
        },
    }
}

/// Segment `index` may be dropped: it is neither the last nor the anchored one.
pub open spec fn may_drop(count: nat, anchored_index: Option<usize>, index: int) -> bool {
    0 <= index < count - 1 && anchored_index != Some(index as usize)
}

proof fn lemma_drop_order_members(
    kinds: Seq<BreadcrumbSegmentKind>,
    anchored_index: Option<usize>,
    file_outlives_symbols: bool,
    rounds: nat,
)
    requires
        rounds <= 4,
        kinds.len() <= usize::MAX,
    ensures
        forall|i: int|
            0 <= i < kinds.len() ==> (#[trigger] drop_order(
                kinds,
                anchored_index,
                file_outlives_symbols,
                rounds,
            ).contains(i as usize) <==> may_drop(kinds.len(), anchored_index, i) && drop_rank(
                kinds[i],
                file_outlives_symbols,
            ) < rounds),
    decreases rounds,
{
    if rounds > 0 {
        let order = drop_order(kinds, anchored_index, file_outlives_symbols, rounds);
        let shorter = drop_order(
            kinds,
            anchored_index,
            file_outlives_symbols,
            (rounds - 1) as nat,
        );
        let kind = kinds_cheapest_first(file_outlives_symbols)[rounds - 1];
        let keep = is_droppable(kinds, anchored_index, kind);
        let listing = indices_where(kinds.len(), keep);
        lemma_drop_order_members(kinds, anchored_index, file_outlives_symbols, (rounds - 1) as nat);
        lemma_indices_where(kinds.len(), keep);
        assert forall|i: int| 0 <= i < kinds.len() implies (#[trigger] order.contains(i as usize)
            <==> may_drop(kinds.len(), anchored_index, i) && drop_rank(
            kinds[i],
            file_outlives_symbols,
        ) < rounds) by {
            assert(shorter.contains(i as usize) <==> may_drop(kinds.len(), anchored_index, i)
                && drop_rank(kinds[i], file_outlives_symbols) < rounds - 1);
            assert(keep(i) <==> may_drop(kinds.len(), anchored_index, i) && drop_rank(
                kinds[i],
                file_outlives_symbols,
            ) == rounds - 1);
            if shorter.contains(i as usize) {
                let a = choose|a: int| 0 <= a < shorter.len() && shorter[a] == i as usize;
                assert(order[a] == i as usize);
            } else if listing.contains(i as usize) {
                let a = choose|a: int| 0 <= a < listing.len() && listing[a] == i as usize;
                assert(order[shorter.len() + a] == i as usize);
            } else if order.contains(i as usize) {
                let a = choose|a: int| 0 <= a < order.len() && order[a] == i as usize;
                if a < shorter.len() {
                    assert(shorter[a] == i as usize);
                } else {
                    assert(listing[a - shorter.len()] == i as usize);
                }
            }
        }
    }
}

/// A cheaper segment, or one further left of the same kind, comes earlier in the drop order.
proof fn lemma_drop_order_sorted(
    kinds: Seq<BreadcrumbSegmentKind>,
    anchored_index: Option<usize>,
    file_outlives_symbols: bool,
    rounds: nat,
    at: int,
    cheaper: int,
) -> (before: int)
    requires
        rounds <= 4,
        kinds.len() <= usize::MAX,
        0 <= at < drop_order(kinds, anchored_index, file_outlives_symbols, rounds).len(),
        may_drop(kinds.len(), anchored_index, cheaper),
        ({
            let i = drop_order(kinds, anchored_index, file_outlives_symbols, rounds)[at] as int;
            ||| drop_rank(kinds[cheaper], file_outlives_symbols) < drop_rank(
                kinds[i],
                file_outlives_symbols,
            )
            ||| kinds[cheaper] == kinds[i] && cheaper < i
        }),
    ensures
        0 <= before < at,
        drop_order(kinds, anchored_index, file_outlives_symbols, rounds)[before] == cheaper,
    decreases rounds,
{
    let order = drop_order(kinds, anchored_index, file_outlives_symbols, rounds);
    let shorter = drop_order(kinds, anchored_index, file_outlives_symbols, (rounds - 1) as nat);
    let kind = kinds_cheapest_first(file_outlives_symbols)[rounds - 1];
    let keep = is_droppable(kinds, anchored_index, kind);
    let listing = indices_where(kinds.len(), keep);
    if at < shorter.len() {
        assert(order[at] == shorter[at]);
        let before = lemma_drop_order_sorted(
            kinds,
            anchored_index,
            file_outlives_symbols,
            (rounds - 1) as nat,
            at,
            cheaper,
        );
        assert(order[before] == shorter[before]);
        before
    } else {
        lemma_indices_where(kinds.len(), keep);
        assert(order[at] == listing[at - shorter.len()]);
        let i = listing[at - shorter.len()] as int;
        assert(keep(i));
        if kinds[cheaper] == kinds[i] {
            assert(keep(cheaper));
            let b = choose|b: int| 0 <= b < listing.len() && listing[b] == cheaper as usize;
            assert(order[shorter.len() + b] == listing[b]);
            assert(b < at - shorter.len()) by {
                if b > at - shorter.len() {
                    assert(listing[at - shorter.len()] < listing[b]);
                }
            }
            shorter.len() + b
        } else {
            lemma_drop_order_members(
                kinds,
                anchored_index,
                file_outlives_symbols,
                (rounds - 1) as nat,
            );
            assert(shorter.contains(cheaper as usize));
            let b = choose|b: int| 0 <= b < shorter.len() && shorter[b] == cheaper as usize;
            assert(order[b] == shorter[b]);
            b
        }
    }
}

/// A planned row drops only segments that may be dropped: the last segment and the anchored one
/// are on screen at any width.
pub proof fn law_last_and_anchored_segments_stay(
    metrics: BreadcrumbSegmentMetrics,
    kinds: Seq<BreadcrumbSegmentKind>,
    available_width: int,
    anchored_index: Option<usize>,
    file_outlives_symbols: bool,
    index: int,
)
    requires
        metrics.widths@.len() == kinds.len() <= usize::MAX,
        0 <= index < kinds.len(),
        index == kinds.len() - 1 || anchored_index == Some(index as usize),
    ensures
        !planned_drops(
            metrics,
            kinds,
            available_width,
            anchored_index,
            file_outlives_symbols,
        )[index],
{
    let order = drop_order(kinds, anchored_index, file_outlives_symbols, 4);
    let needed = drops_needed(metrics, order, available_width, 0);
    lemma_drop_order_members(kinds, anchored_index, file_outlives_symbols, 4);
    lemma_drops_needed(metrics, order, available_width, 0);
    if order.take(needed).contains(index as usize) {
        let a = choose|a: int|
            0 <= a < order.take(needed).len() && #[trigger] order.take(needed)[a] == index as usize;
        assert(order[a] == index as usize);
        assert(order.contains(index as usize));
    }
}

/// A planned row fits the width it was planned for, or keeps nothing but the last segment and
/// the anchored one.
pub proof fn law_plan_fits_or_nothing_is_left_to_drop(
    metrics: BreadcrumbSegmentMetrics,
    kinds: Seq<BreadcrumbSegmentKind>,
    available_width: int,
    anchored_index: Option<usize>,
    file_outlives_symbols: bool,
)
    requires
        metrics.widths@.len() == kinds.len() <= usize::MAX,
    ensures
        ({
            let dropped = planned_drops(
                metrics,
                kinds,
                available_width,
                anchored_index,
                file_outlives_symbols,
            );
            ||| metrics.total_width(dropped) <= available_width
            ||| forall|i: int|
                0 <= i < kinds.len() ==> #[trigger] dropped[i] == may_drop(
                    kinds.len(),
                    anchored_index,
                    i,
                )
        }),
{
    let order = drop_order(kinds, anchored_index, file_outlives_symbols, 4);
    let needed = drops_needed(metrics, order, available_width, 0);
    lemma_drop_order_members(kinds, anchored_index, file_outlives_symbols, 4);
    lemma_drops_needed(metrics, order, available_width, 0);
    let dropped = planned_drops(
        metrics,
        kinds,
        available_width,
        anchored_index,
        file_outlives_symbols,
    );
    if metrics.total_width(dropped) > available_width {
        assert(order.take(needed) =~= order);
        assert forall|i: int| 0 <= i < kinds.len() implies #[trigger] dropped[i] == may_drop(
            kinds.len(),
            anchored_index,
            i,
        ) by {
            assert(order.contains(i as usize) == may_drop(kinds.len(), anchored_index, i));
        }
    }
}

/// A row as wide as the whole trail, or wider, keeps every segment.
pub proof fn law_row_that_fits_keeps_every_segment(
    metrics: BreadcrumbSegmentMetrics,
    kinds: Seq<BreadcrumbSegmentKind>,
    available_width: int,
    anchored_index: Option<usize>,
    file_outlives_symbols: bool,
)
    requires
        metrics.widths@.len() == kinds.len() <= usize::MAX,
        metrics.spec_natural_width() <= available_width,
    ensures
        planned_drops(metrics, kinds, available_width, anchored_index, file_outlives_symbols)
            == nothing_dropped(kinds.len()),
{
    let order = drop_order(kinds, anchored_index, file_outlives_symbols, 4);
    let count = metrics.widths@.len();
    assert(dropped_after(count, order, 0) =~= nothing_dropped(count));
}

/// No segment is dropped that the row could have kept: with any of the drops left out that were
/// made last, the row does not fit.
pub proof fn law_drops_no_more_than_needed(
    metrics: BreadcrumbSegmentMetrics,
    kinds: Seq<BreadcrumbSegmentKind>,
    available_width: int,
    anchored_index: Option<usize>,
    file_outlives_symbols: bool,
)
    ensures
        ({
            let order = drop_order(kinds, anchored_index, file_outlives_symbols, 4);
            let needed = drops_needed(metrics, order, available_width, 0);
            forall|fewer: int|
                0 <= fewer < needed ==> #[trigger] metrics.total_width(
                    dropped_after(metrics.widths@.len(), order, fewer),
                ) > available_width
        }),
{
    lemma_drops_needed(
        metrics,
        drop_order(kinds, anchored_index, file_outlives_symbols, 4),
        available_width,
        0,
    );
}

/// Where a segment is dropped, every droppable segment of a cheaper kind is dropped too, and
/// every droppable one of its own kind further left.
pub proof fn law_drops_cheapest_first(
    metrics: BreadcrumbSegmentMetrics,
    kinds: Seq<BreadcrumbSegmentKind>,
    available_width: int,
    anchored_index: Option<usize>,
    file_outlives_symbols: bool,
    index: int,
    cheaper: int,
)
    requires
        metrics.widths@.len() == kinds.len() <= usize::MAX,
        0 <= index < kinds.len(),
        planned_drops(metrics, kinds, available_width, anchored_index, file_outlives_symbols)[index],
        may_drop(kinds.len(), anchored_index, cheaper),
        drop_rank(kinds[cheaper], file_outlives_symbols) < drop_rank(
            kinds[index],
            file_outlives_symbols,
        ) || kinds[cheaper] == kinds[index] && cheaper < index,
    ensures
        planned_drops(metrics, kinds, available_width, anchored_index, file_outlives_symbols)[cheaper],
{
    let order = drop_order(kinds, anchored_index, file_outlives_symbols, 4);
    let needed = drops_needed(metrics, order, available_width, 0);
    lemma_drops_needed(metrics, order, available_width, 0);
    let made = order.take(needed);
    let a = choose|a: int| 0 <= a < made.len() && made[a] == index as usize;
    assert(order[a] == index as usize);
    let before = lemma_drop_order_sorted(
        kinds,
        anchored_index,
        file_outlives_symbols,
        4,
        a,
        cheaper,
    );
    assert(made[before] == cheaper as usize);
}

/// A row drops the same segments in any narrower width that what it dropped still fits in.
pub proof fn law_narrower_fit_drops_the_same(
    metrics: BreadcrumbSegmentMetrics,
    kinds: Seq<BreadcrumbSegmentKind>,
    available_width: int,
    narrower_width: int,
    anchored_index: Option<usize>,
    file_outlives_symbols: bool,
)
    requires
        metrics.total_width(
            planned_drops(metrics, kinds, available_width, anchored_index, file_outlives_symbols),
        ) <= narrower_width <= available_width,
    ensures
        planned_drops(metrics, kinds, narrower_width, anchored_index, file_outlives_symbols)
            == planned_drops(metrics, kinds, available_width, anchored_index, file_outlives_symbols),
{
    let order = drop_order(kinds, anchored_index, file_outlives_symbols, 4);
    lemma_narrower_fit(metrics, order, available_width, narrower_width, 0);
}

proof fn lemma_narrower_fit(
    metrics: BreadcrumbSegmentMetrics,
    order: Seq<usize>,
    available_width: int,
    narrower_width: int,
    steps: int,
)
    requires
        0 <= steps <= order.len(),
        narrower_width <= available_width,
        metrics.total_width(
            dropped_after(
                metrics.widths@.len(),
                order,
                drops_needed(metrics, order, available_width, steps),
            ),
        ) <= narrower_width,
    ensures
        drops_needed(metrics, order, narrower_width, steps) == drops_needed(
            metrics,
            order,
            available_width,
            steps,
        ),
    decreases order.len() - steps,
{
    let count = metrics.widths@.len();
    if steps < order.len() && metrics.total_width(dropped_after(count, order, steps))
        > available_width {
        lemma_narrower_fit(metrics, order, available_width, narrower_width, steps + 1);
    }
}

/// More room never hides a segment: what a wider row drops, a narrower one drops too.
pub proof fn law_more_room_never_hides_a_segment(
    metrics: BreadcrumbSegmentMetrics,
    kinds: Seq<BreadcrumbSegmentKind>,
    available_width: int,
    wider_width: int,
    anchored_index: Option<usize>,
    file_outlives_symbols: bool,
    index: int,
)
    requires
        metrics.widths@.len() == kinds.len() <= usize::MAX,
        available_width <= wider_width,
        0 <= index < kinds.len(),
        planned_drops(metrics, kinds, wider_width, anchored_index, file_outlives_symbols)[index],
    ensures
        planned_drops(metrics, kinds, available_width, anchored_index, file_outlives_symbols)[index],
{
    let order = drop_order(kinds, anchored_index, file_outlives_symbols, 4);
    let fewer = drops_needed(metrics, order, wider_width, 0);
    let needed = drops_needed(metrics, order, available_width, 0);
    lemma_drops_needed(metrics, order, wider_width, 0);
    lemma_drops_needed(metrics, order, available_width, 0);
    assert(fewer <= needed) by {
        if needed < fewer {
            assert(metrics.total_width(dropped_after(metrics.widths@.len(), order, needed))
                > wider_width);
        }
    }
    let a = choose|a: int|
        0 <= a < order.take(fewer).len() && #[trigger] order.take(fewer)[a] == index as usize;
    assert(order.take(needed)[a] == index as usize);
}

/// The drop order names segments of the row.
proof fn lemma_drop_order_in_row(
    kinds: Seq<BreadcrumbSegmentKind>,
    anchored_index: Option<usize>,
    file_outlives_symbols: bool,
    rounds: nat,
    at: int,
)
    requires
        rounds <= 4,
        kinds.len() <= usize::MAX,
        0 <= at < drop_order(kinds, anchored_index, file_outlives_symbols, rounds).len(),
    ensures
        drop_order(kinds, anchored_index, file_outlives_symbols, rounds)[at] < kinds.len(),
    decreases rounds,
{
    let shorter = drop_order(kinds, anchored_index, file_outlives_symbols, (rounds - 1) as nat);
    if at < shorter.len() {
        lemma_drop_order_in_row(
            kinds,
            anchored_index,
            file_outlives_symbols,
            (rounds - 1) as nat,
            at,
        );
    } else {
        let keep = is_droppable(
            kinds,
            anchored_index,
            kinds_cheapest_first(file_outlives_symbols)[rounds - 1],
        );
        lemma_indices_where(kinds.len(), keep);
        assert(indices_where(kinds.len(), keep)[at - shorter.len()] < kinds.len());
    }
}

/// The drop order names no segment twice.
proof fn lemma_drop_order_unique(
    kinds: Seq<BreadcrumbSegmentKind>,
    anchored_index: Option<usize>,
    file_outlives_symbols: bool,
    rounds: nat,
    a: int,
    b: int,
)
    requires
        rounds <= 4,
        kinds.len() <= usize::MAX,
        0 <= a < b < drop_order(kinds, anchored_index, file_outlives_symbols, rounds).len(),
    ensures
        drop_order(kinds, anchored_index, file_outlives_symbols, rounds)[a] != drop_order(
            kinds,
            anchored_index,
            file_outlives_symbols,
            rounds,
        )[b],
    decreases rounds,
{
    let order = drop_order(kinds, anchored_index, file_outlives_symbols, rounds);
    let shorter = drop_order(kinds, anchored_index, file_outlives_symbols, (rounds - 1) as nat);
    let kind = kinds_cheapest_first(file_outlives_symbols)[rounds - 1];
    let keep = is_droppable(kinds, anchored_index, kind);
    let listing = indices_where(kinds.len(), keep);
    lemma_indices_where(kinds.len(), keep);
    if b < shorter.len() {
        lemma_drop_order_unique(
            kinds,
            anchored_index,
            file_outlives_symbols,
            (rounds - 1) as nat,
            a,
            b,
        );
    } else if a >= shorter.len() {
        assert(listing[a - shorter.len()] < listing[b - shorter.len()]);
    } else {
        let i = listing[b - shorter.len()] as int;
        assert(order[b] == listing[b - shorter.len()]);
        assert(keep(i));
        lemma_drop_order_members(
            kinds,
            anchored_index,
            file_outlives_symbols,
            (rounds - 1) as nat,
        );
        assert(drop_rank(kinds[i], file_outlives_symbols) == rounds - 1);
        assert(!shorter.contains(i as usize));
        assert(order[a] == shorter[a]);
        assert(shorter.contains(shorter[a]));
    }
}

/// The segment that was given up last, before which all the others left out are given up, was needed:
/// with it put back the row does not fit.
pub proof fn law_the_segment_given_up_last_was_needed(
    metrics: BreadcrumbSegmentMetrics,
    kinds: Seq<BreadcrumbSegmentKind>,
    available_width: int,
    anchored_index: Option<usize>,
    file_outlives_symbols: bool,
    last: int,
)
    requires
        metrics.widths@.len() == kinds.len() <= usize::MAX,
        0 <= last < kinds.len(),
        ({
            let dropped = planned_drops(
                metrics,
                kinds,
                available_width,
                anchored_index,
                file_outlives_symbols,
            );
            &&& dropped[last]
            &&& forall|i: int|
                0 <= i < kinds.len() && i != last && #[trigger] dropped[i] ==> drop_rank(
                    kinds[i],
                    file_outlives_symbols,
                ) < drop_rank(kinds[last], file_outlives_symbols) || kinds[i] == kinds[last] && i
                    < last
        }),
    ensures
        metrics.total_width(
            planned_drops(
                metrics,
                kinds,
                available_width,
                anchored_index,
                file_outlives_symbols,
            ).update(last, false),
        ) > available_width,
{
    let order = drop_order(kinds, anchored_index, file_outlives_symbols, 4);
    let needed = drops_needed(metrics, order, available_width, 0);
    let count = metrics.widths@.len();
    let dropped = dropped_after(count, order, needed);
    lemma_drops_needed(metrics, order, available_width, 0);
    lemma_drop_order_members(kinds, anchored_index, file_outlives_symbols, 4);
    let made = order.take(needed);
    let a = choose|a: int| 0 <= a < made.len() && made[a] == last as usize;
    assert(order[a] == last as usize);
    let fewer = dropped_after(count, order, needed - 1);
    assert(metrics.total_width(fewer) > available_width);
    // Whatever else was given up stands before it in the order, so it stands last in what was made.
    let latest = order[needed - 1] as int;
    assert(order.contains(order[needed - 1]));
    lemma_drop_order_in_row(kinds, anchored_index, file_outlives_symbols, 4, needed - 1);
    assert(made[needed - 1] == order[needed - 1]);
    assert(made.contains(latest as usize));
    assert(dropped[latest]);
    if latest != last {
        assert(order.contains(last as usize));
        assert(may_drop(kinds.len(), anchored_index, latest)) by {
            assert(order.contains(latest as usize));
        }
        let before = lemma_drop_order_sorted(
            kinds,
            anchored_index,
            file_outlives_symbols,
            4,
            a,
            latest,
        );
        lemma_drop_order_unique(
            kinds,
            anchored_index,
            file_outlives_symbols,
            4,
            before,
            needed - 1,
        );
    }
    assert(fewer =~= dropped.update(last, false)) by {
        assert forall|i: int| 0 <= i < count implies fewer[i] == dropped.update(last, false)[i] by {
            let short = order.take(needed - 1);
            if short.contains(i as usize) {
                let b = choose|b: int| 0 <= b < short.len() && short[b] == i as usize;
                assert(made[b] == i as usize);
                if i == last {
                    lemma_drop_order_unique(
                        kinds,
                        anchored_index,
                        file_outlives_symbols,
                        4,
                        b,
                        needed - 1,
                    );
                }
            } else if i != last && made.contains(i as usize) {
                let b = choose|b: int| 0 <= b < made.len() && made[b] == i as usize;
                assert(b < needed - 1);
                assert(short[b] == i as usize);
            }
        }
    }
}

} // verus!
