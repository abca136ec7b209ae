//! What the row is made of: the kind of each segment, the dropdown behind it, and the cap on how
//! many directories a row ever holds.

use vstd::prelude::*;

use crate::layout::BreadcrumbSegmentKind;
use crate::listing::{first_where, last_where, lemma_first_where, lemma_last_where};
use crate::target::{BreadcrumbSegmentTarget, SegmentTargetView};
use crate::text::{bare_text, HighlightedText};

verus! {

/// The kind of the segment at `index` of a row whose file stands at `file_segment_index`.
pub open spec fn segment_kind(
    index: int,
    file_segment_index: int,
    has_root_segment: bool,
) -> BreadcrumbSegmentKind {
    if index > file_segment_index {
        BreadcrumbSegmentKind::Symbol
    } else if index == file_segment_index {
        BreadcrumbSegmentKind::File
    } else if has_root_segment && index == 0 {
        BreadcrumbSegmentKind::Root
    } else {
        BreadcrumbSegmentKind::Middle
    }
}

/// The kinds of a row of `segment_count` segments.
pub open spec fn segment_kinds(
    segment_count: nat,
    file_segment_index: int,
    has_root_segment: bool,
) -> Seq<BreadcrumbSegmentKind> {
    Seq::new(segment_count, |i: int| segment_kind(i, file_segment_index, has_root_segment))
}

pub fn classify_breadcrumb_segment_kinds(
    segment_count: usize,
    file_segment_index: usize,
    has_root_segment: bool,
) -> (kinds: Vec<BreadcrumbSegmentKind>)
    ensures
        kinds@ == segment_kinds(
            segment_count as nat,
            file_segment_index as int,
            has_root_segment,
        ),
{
    let mut kinds: Vec<BreadcrumbSegmentKind> = Vec::with_capacity(segment_count);
    let mut index: usize = 0;
    while index < segment_count
        invariant
            index <= segment_count,
            kinds@ == segment_kinds(index as nat, file_segment_index as int, has_root_segment),
        decreases segment_count - index,
    {
        let kind: BreadcrumbSegmentKind = if index > file_segment_index {
            BreadcrumbSegmentKind::Symbol
        } else if index == file_segment_index {
            BreadcrumbSegmentKind::File
        } else if has_root_segment && index == 0 {
            BreadcrumbSegmentKind::Root
        } else {
            BreadcrumbSegmentKind::Middle
        };
        kinds.push(kind);
        index = index + 1;
    }
    kinds
}

/// A row of `count` segments none of which opens a dropdown.
pub open spec fn no_targets(count: nat) -> Seq<Option<SegmentTargetView>> {
    Seq::new(count, |i: int| None)
}

/// The targets of a row of `count` segments: those given, where there is one for each segment.
pub open spec fn aligned_targets(
    count: nat,
    targets: Seq<Option<SegmentTargetView>>,
) -> Seq<Option<SegmentTargetView>> {
    if targets.len() == count {
        targets
    } else {
        no_targets(count)
    }
}

/// Replaces `symbol_segments` wholesale if its length disagrees with `segments`: later steps
/// assume equal length.
pub fn align_symbol_segments(
    segments: &[HighlightedText],
    symbol_segments: Vec<Option<BreadcrumbSegmentTarget>>,
) -> (aligned: Vec<Option<BreadcrumbSegmentTarget>>)
    ensures
        symbol_segments@.len() == segments@.len() ==> aligned == symbol_segments,
        aligned.deep_view() == aligned_targets(segments@.len(), symbol_segments.deep_view()),
{
    if symbol_segments.len() == segments.len() {
        return symbol_segments;
    }
    let mut aligned: Vec<Option<BreadcrumbSegmentTarget>> = Vec::with_capacity(segments.len());
    while aligned.len() < segments.len()
        invariant
            aligned@.len() <= segments@.len(),
            forall|i: int| 0 <= i < aligned@.len() ==> #[trigger] aligned@[i] is None,
        decreases segments@.len() - aligned@.len(),
    {
        aligned.push(None);
    }
    assert(aligned.deep_view() =~= no_targets(segments@.len()));
    aligned
}

/// How many directories between the root and the file a row shows before it cuts some out.
pub const MAX_BREADCRUMB_SEGMENTS_HARD_CAP: usize = 64;

/// The condition of being a `Middle` segment.
pub open spec fn is_middle(kinds: Seq<BreadcrumbSegmentKind>) -> spec_fn(int) -> bool {
    |i: int| kinds[i] == BreadcrumbSegmentKind::Middle
}

/// From the first `Middle` segment to just past the last one.
pub open spec fn middle_span(kinds: Seq<BreadcrumbSegmentKind>) -> Option<(int, int)> {
    match (first_where(kinds.len(), is_middle(kinds), 0), last_where(kinds.len(), is_middle(kinds))) {
        (Some(first), Some(last)) => Some((first as int, last + 1)),
        _ => None,
    }
}

/// The segments that the cap cuts out: all but as many at either end of the span as half the cap.
pub open spec fn capped_range(kinds: Seq<BreadcrumbSegmentKind>, expanded: bool) -> Option<
    (int, int),
> {
    match middle_span(kinds) {
        Some((start, end)) => if expanded || end - start <= MAX_BREADCRUMB_SEGMENTS_HARD_CAP {
            None
        } else {
            Some(
                (
                    start + MAX_BREADCRUMB_SEGMENTS_HARD_CAP as int / 2,
                    end - MAX_BREADCRUMB_SEGMENTS_HARD_CAP as int / 2,
                ),
            )
        },
        None => None,
    }
}

/// The sequence with one item in place of those from `start` to just before `end`.
pub open spec fn spliced<T>(items: Seq<T>, start: int, end: int, item: T) -> Seq<T> {
    items.take(start).push(item) + items.skip(end)
}

/// The text of the segment that stands for the directories that the cap cuts out.
pub open spec fn ellipsis_text() -> Seq<char> {
    "⋯"@
}

/// Puts one item in place of those from `start` to just before `end`.
fn splice_one<T>(items: &mut Vec<T>, start: usize, end: usize, item: T)
    requires
        start <= end <= old(items)@.len(),
    ensures
        final(items)@ == spliced(old(items)@, start as int, end as int, item),
{
    let ghost before = items@;
    let mut tail: Vec<T> = items.split_off(end);
    items.truncate(start);
    items.push(item);
    items.append(&mut tail);
    assert(items@ =~= spliced(before, start as int, end as int, item));
}

proof fn lemma_spliced_deep_view<T: DeepView>(items: Vec<T>, other: Vec<T>, start: int, end: int, item: T)
    requires
        0 <= start <= end <= items@.len(),
        other@ == spliced(items@, start, end, item),
    ensures
        other.deep_view() == spliced(items.deep_view(), start, end, item.deep_view()),
{
    assert(other.deep_view() =~= spliced(items.deep_view(), start, end, item.deep_view()));
}

/// The first `Middle` segment.
fn first_middle(kinds: &[BreadcrumbSegmentKind]) -> (first: Option<usize>)
    ensures
        first == first_where(kinds@.len(), is_middle(kinds@), 0),
{
    let mut index: usize = 0;
    while index < kinds.len()
        invariant
            index <= kinds@.len(),
            first_where(kinds@.len(), is_middle(kinds@), 0) == first_where(
                kinds@.len(),
                is_middle(kinds@),
                index as int,
            ),
        decreases kinds@.len() - index,
    {
        if kinds[index] == BreadcrumbSegmentKind::Middle {
            return Some(index);
        }
        index = index + 1;
    }
    None
}

/// The last `Middle` segment.
fn last_middle(kinds: &[BreadcrumbSegmentKind]) -> (last: Option<usize>)
    ensures
        last == last_where(kinds@.len(), is_middle(kinds@)),
{
    let mut count: usize = kinds.len();
    while count > 0
        invariant
            count <= kinds@.len(),
            last_where(kinds@.len(), is_middle(kinds@)) == last_where(
                count as nat,
                is_middle(kinds@),
            ),
        decreases count,
    {
        if kinds[count - 1] == BreadcrumbSegmentKind::Middle {
            return Some(count - 1);
        }
        count = count - 1;
    }
    None
}

/// The cap is display-only, so an expanded row bypasses it: expansion must reveal every segment.
pub fn hard_cap_breadcrumb_middle_segments(
    segments: Vec<HighlightedText>,
    symbol_segments: Vec<Option<BreadcrumbSegmentTarget>>,
    kinds: Vec<BreadcrumbSegmentKind>,
    file_segment_index: usize,
    expanded: bool,
) -> (capped: (
    Vec<HighlightedText>,
    Vec<Option<BreadcrumbSegmentTarget>>,
    Vec<BreadcrumbSegmentKind>,
    usize,
    Option<usize>,
))
    requires
        capped_range(kinds@, expanded) matches Some((start, end)) ==> {
            &&& end <= segments@.len()
            &&& end <= symbol_segments@.len()
            &&& end - start - 1 <= file_segment_index
        },
    ensures
        match capped_range(kinds@, expanded) {
            None => capped == (segments, symbol_segments, kinds, file_segment_index, None::<usize>),
            Some((start, end)) => {
                &&& capped.0.deep_view() == spliced(
                    segments.deep_view(),
                    start,
                    end,
                    bare_text(ellipsis_text()),
                )
                &&& capped.1.deep_view() == spliced(symbol_segments.deep_view(), start, end, None)
                &&& capped.2@ == spliced(kinds@, start, end, BreadcrumbSegmentKind::Middle)
                &&& capped.3 == file_segment_index - (end - start - 1)
                &&& capped.4 == Some(start as usize)
            },
        },
{
    let mut segments = segments;
    let mut symbol_segments = symbol_segments;
    let mut kinds = kinds;
    let segment_count: usize = kinds.len();
    proof {
        assert(kinds@.len() == segment_count);
        lemma_first_where(kinds@.len(), is_middle(kinds@), 0);
        lemma_last_where(kinds@.len(), is_middle(kinds@));
    }
    let middle_start: usize = match first_middle(kinds.as_slice()) {
        Some(index) => index,
        None => {
            return (segments, symbol_segments, kinds, file_segment_index, None);
        },
    };
    let middle_last: usize = match last_middle(kinds.as_slice()) {
        Some(index) => index,
        None => {
            return (segments, symbol_segments, kinds, file_segment_index, None);
        },
    };
    assert(middle_start <= middle_last) by {
        if middle_last < middle_start {
            assert(!is_middle(kinds@)(middle_last as int));
        }
    }
    let middle_end: usize = middle_last + 1;
    if expanded || middle_end - middle_start <= MAX_BREADCRUMB_SEGMENTS_HARD_CAP {
        return (segments, symbol_segments, kinds, file_segment_index, None);
    }
    let half: usize = MAX_BREADCRUMB_SEGMENTS_HARD_CAP / 2;
    let splice_start: usize = middle_start + half;
    let splice_end: usize = middle_end - half;
    let ghost segments_before = segments;
    let ghost targets_before = symbol_segments;
    let ellipsis = HighlightedText::bare("⋯".to_string());
    let ghost ellipsis_view = ellipsis;
    splice_one(&mut segments, splice_start, splice_end, ellipsis);
    splice_one(&mut symbol_segments, splice_start, splice_end, None);
    splice_one(&mut kinds, splice_start, splice_end, BreadcrumbSegmentKind::Middle);
    proof {
        lemma_spliced_deep_view(
            segments_before,
            segments,
            splice_start as int,
            splice_end as int,
            ellipsis_view,
        );
        lemma_spliced_deep_view(
            targets_before,
            symbol_segments,
            splice_start as int,
            splice_end as int,
            None,
        );
    }
    // `File` always follows every `Middle` segment, so the cut can only shift its index left.
    (
        segments,
        symbol_segments,
        kinds,
        file_segment_index - (splice_end - splice_start - 1),
        Some(splice_start),
    )
}

/// The middle span of a classified row: what lies between its root, if any, and its file.
proof fn lemma_middle_span(segment_count: nat, file_segment_index: int, has_root_segment: bool)
    requires
        0 <= file_segment_index < segment_count <= usize::MAX,
    ensures
        ({
            let root = if has_root_segment {
                1int
            } else {
                0int
            };
            middle_span(segment_kinds(segment_count, file_segment_index, has_root_segment))
                == if root < file_segment_index {
                Some((root, file_segment_index))
            } else {
                None
            }
        }),
{
    let kinds = segment_kinds(segment_count, file_segment_index, has_root_segment);
    let keep = is_middle(kinds);
    let root = if has_root_segment {
        1int
    } else {
        0int
    };
    lemma_first_where(kinds.len(), keep, 0);
    lemma_last_where(kinds.len(), keep);
    if root < file_segment_index {
        assert(keep(root));
        assert(keep(file_segment_index - 1));
        assert(!keep(root - 1) || root == 0);
    }
}

/// The cap cuts only directories out of a classified row, never its root, its file or a symbol:
/// what is left is classified as if the row had been built without them.
pub proof fn law_hard_cap_keeps_the_classification(
    segment_count: nat,
    file_segment_index: int,
    has_root_segment: bool,
    expanded: bool,
)
    requires
        0 <= file_segment_index < segment_count <= usize::MAX,
    ensures
        capped_range(
            segment_kinds(segment_count, file_segment_index, has_root_segment),
            expanded,
        ) matches Some((start, end)) ==> {
            let kinds = segment_kinds(segment_count, file_segment_index, has_root_segment);
            let cut = end - start - 1;
            &&& 0 < start < end < file_segment_index
            &&& spliced(kinds, start, end, BreadcrumbSegmentKind::Middle) == segment_kinds(
                (segment_count - cut) as nat,
                file_segment_index - cut,
                has_root_segment,
            )
        },
{
    lemma_middle_span(segment_count, file_segment_index, has_root_segment);
    let kinds = segment_kinds(segment_count, file_segment_index, has_root_segment);
    if let Some((start, end)) = capped_range(kinds, expanded) {
        let cut = end - start - 1;
        assert(spliced(kinds, start, end, BreadcrumbSegmentKind::Middle) =~= segment_kinds(
            (segment_count - cut) as nat,
            file_segment_index - cut,
            has_root_segment,
        ));
    }
}

/// A capped row shows as many directories as the cap, and the ellipsis that stands for the rest.
pub proof fn law_hard_cap_bounds_the_directories(
    segment_count: nat,
    file_segment_index: int,
    has_root_segment: bool,
)
    requires
        0 <= file_segment_index < segment_count <= usize::MAX,
    ensures
        ({
            let kinds = segment_kinds(segment_count, file_segment_index, has_root_segment);
            match capped_range(kinds, false) {
                None => middle_span(kinds) matches Some((first, past)) ==> past - first
                    <= MAX_BREADCRUMB_SEGMENTS_HARD_CAP,
                Some((start, end)) => middle_span(
                    spliced(kinds, start, end, BreadcrumbSegmentKind::Middle),
                ) matches Some((first, past)) && past - first == MAX_BREADCRUMB_SEGMENTS_HARD_CAP
                    + 1,
            }
        }),
{
    lemma_middle_span(segment_count, file_segment_index, has_root_segment);
    law_hard_cap_keeps_the_classification(
        segment_count,
        file_segment_index,
        has_root_segment,
        false,
    );
    let kinds = segment_kinds(segment_count, file_segment_index, has_root_segment);
    if let Some((start, end)) = capped_range(kinds, false) {
        let cut = end - start - 1;
        lemma_middle_span(
            (segment_count - cut) as nat,
            file_segment_index - cut,
            has_root_segment,
        );
    }
}

/// An expanded row is never capped.
pub proof fn law_expansion_bypasses_the_hard_cap(kinds: Seq<BreadcrumbSegmentKind>)
    ensures
        capped_range(kinds, true) is None,
{
}

/// Capping a capped row changes nothing: the cap finds the ellipsis in the middle, and puts the same
/// one in its place. `items` are what the row shows of its segments, such as their labels, and `item`
/// is what the cap puts in.
pub proof fn law_hard_cap_is_idempotent<T>(
    kinds: Seq<BreadcrumbSegmentKind>,
    items: Seq<T>,
    item: T,
)
    requires
        items.len() == kinds.len() <= usize::MAX,
    ensures
        capped_range(kinds, false) matches Some((start, end)) ==> {
            let capped_kinds = spliced(kinds, start, end, BreadcrumbSegmentKind::Middle);
            let capped = spliced(items, start, end, item);
            &&& capped_range(capped_kinds, false) == Some((start, start + 1))
            &&& spliced(capped_kinds, start, start + 1, BreadcrumbSegmentKind::Middle)
                == capped_kinds
            &&& spliced(capped, start, start + 1, item) == capped
        },
{
    lemma_first_where(kinds.len(), is_middle(kinds), 0);
    lemma_last_where(kinds.len(), is_middle(kinds));
    if let Some((start, end)) = capped_range(kinds, false) {
        let half = MAX_BREADCRUMB_SEGMENTS_HARD_CAP as int / 2;
        let capped_kinds = spliced(kinds, start, end, BreadcrumbSegmentKind::Middle);
        let capped = spliced(items, start, end, item);
        let keep = is_middle(kinds);
        let capped_keep = is_middle(capped_kinds);
        let first = start - half;
        let cut = end - start - 1;
        let last = end + half - 1 - cut;
        lemma_first_where(capped_kinds.len(), capped_keep, 0);
        lemma_last_where(capped_kinds.len(), capped_keep);
        assert(keep(first) && keep(last + cut));
        assert(capped_keep(first));
        assert(capped_keep(last)) by {
            assert(capped_kinds[last] == kinds[last + cut]);
        }
        assert forall|i: int| 0 <= i < first implies !#[trigger] capped_keep(i) by {
            assert(!keep(i));
        }
        assert forall|i: int| last < i < capped_kinds.len() implies !#[trigger] capped_keep(i) by {
            assert(capped_kinds[i] == kinds[i + cut]);
            assert(!keep(i + cut));
        }
        assert(spliced(capped_kinds, start, start + 1, BreadcrumbSegmentKind::Middle)
            =~= capped_kinds);
        assert(spliced(capped, start, start + 1, item) =~= capped);
    }
}

} // verus!
