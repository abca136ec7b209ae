//! What holds of every bar.

use vstd::prelude::*;

use crate::layout::BreadcrumbSegmentKind;
use crate::listing::{lemma_first_where, lemma_last_where};
use crate::segments::{
    aligned_targets, capped_range, ellipsis_text, is_middle, no_targets, segment_kinds, spliced,
};
use crate::session::CursorSymbols;
use crate::status::Color;
use crate::target::{BufferId, OutlineItemView};
use crate::text::{bare_text, HighlightedTextView};
use crate::trail::{BarContext, EditorContext};

verus! {

/// A classified row has its only file segment at `file_segment_index`.
proof fn lemma_one_file_kind(
    segment_count: nat,
    file_segment_index: int,
    has_root_segment: bool,
    i: int,
)
    requires
        0 <= i < segment_count,
        segment_kinds(segment_count, file_segment_index, has_root_segment)[i]
            == BreadcrumbSegmentKind::File,
    ensures
        i == file_segment_index,
{
}

/// A capped row has its only file segment where the cut moves it.
proof fn lemma_one_capped_file_kind(
    segment_count: nat,
    file_segment_index: int,
    has_root_segment: bool,
    expanded: bool,
    start: int,
    end: int,
    i: int,
)
    requires
        segment_count <= usize::MAX,
        0 <= file_segment_index,
        capped_range(
            segment_kinds(segment_count, file_segment_index, has_root_segment),
            expanded,
        ) == Some((start, end)),
        0 <= i < spliced(
            segment_kinds(segment_count, file_segment_index, has_root_segment),
            start,
            end,
            BreadcrumbSegmentKind::Middle,
        ).len(),
        spliced(
            segment_kinds(segment_count, file_segment_index, has_root_segment),
            start,
            end,
            BreadcrumbSegmentKind::Middle,
        )[i] == BreadcrumbSegmentKind::File,
    ensures
        i == file_segment_index - (end - start - 1),
{
    let kinds = segment_kinds(segment_count, file_segment_index, has_root_segment);
    let shown = spliced(kinds, start, end, BreadcrumbSegmentKind::Middle);
    lemma_first_where(kinds.len(), is_middle(kinds), 0);
    lemma_last_where(kinds.len(), is_middle(kinds));
    if i < start {
        assert(shown[i] == kinds[i]);
    } else if i > start {
        assert(shown[i] == kinds[i - start - 1 + end]);
    }
}

/// At most one segment of a bar shows the file: only it has an icon, a dirty mark, a tint or the
/// color of a git status.
pub proof fn law_only_the_file_segment_is_marked(
    context: BarContext,
    labels: Seq<HighlightedTextView>,
    trail: Seq<OutlineItemView>,
    i: int,
    j: int,
)
    requires
        context.segments(labels, trail).labels.len() <= usize::MAX,
        0 <= i < context.row(labels, trail).segments.len(),
        0 <= j < context.row(labels, trail).segments.len(),
    ensures
        ({
            let row = context.row(labels, trail);
            let segment = row.segments[i];
            let is_marked = segment.icon is Some || segment.dirty_filename_style
                || segment.icon_color != Color::Muted || segment.label_color != Color::Muted;
            &&& is_marked ==> segment.kind == BreadcrumbSegmentKind::File && segment.target is Some
                && segment.target->0.is_file()
            &&& segment.kind == BreadcrumbSegmentKind::File && row.segments[j].kind
                == BreadcrumbSegmentKind::File ==> i == j
            &&& context.has_prefix ==> segment.icon is None
            &&& segment.dirty_filename_style ==> !context.tab_bar_shown && context.is_dirty
        }),
{
    let shown = context.segments(labels, trail);
    assert(shown.file_segment_index >= 0) by {
        if let Some((editor, buffer_id)) = context.shown_buffer() {
            let part = context.path_part(editor, buffer_id, labels);
            assert(part.file_segment_index >= 0);
        }
    }
    let count = shown.labels.len();
    let file = shown.file_segment_index;
    let root = shown.has_root_segment;
    let kinds = segment_kinds(count, file, root);
    let expanded = context.is_expanded();
    let row = context.row(labels, trail);
    match capped_range(kinds, expanded) {
        None => {
            if row.segments[i].kind == BreadcrumbSegmentKind::File {
                lemma_one_file_kind(count, file, root, i);
            }
            if row.segments[j].kind == BreadcrumbSegmentKind::File {
                lemma_one_file_kind(count, file, root, j);
            }
        },
        Some((start, end)) => {
            lemma_first_where(kinds.len(), is_middle(kinds), 0);
            lemma_last_where(kinds.len(), is_middle(kinds));
            if row.segments[i].kind == BreadcrumbSegmentKind::File {
                lemma_one_capped_file_kind(count, file, root, expanded, start, end, i);
            }
            if row.segments[j].kind == BreadcrumbSegmentKind::File {
                lemma_one_capped_file_kind(count, file, root, expanded, start, end, j);
            }
        },
    }
}

/// A bar that belongs to no editor, or heads an excerpt, shows the item's own labels and opens
/// nothing.
pub proof fn law_a_bar_without_a_buffer_only_shows_its_labels(
    context: BarContext,
    labels: Seq<HighlightedTextView>,
    trail: Seq<OutlineItemView>,
    i: int,
)
    requires
        context.shown_buffer() is None,
        0 <= i < labels.len() <= usize::MAX,
    ensures
        context.row(labels, trail).segments.len() == labels.len(),
        context.row(labels, trail).segments[i].label == labels[i],
        context.row(labels, trail).segments[i].target is None,
        !context.row(labels, trail).segments[i].hard_cap_ellipsis,
{
    let kinds = segment_kinds(labels.len(), 0, false);
    lemma_first_where(kinds.len(), is_middle(kinds), 0);
    assert(capped_range(kinds, context.is_expanded()) is None);
    assert(aligned_targets(labels.len(), Seq::empty()) =~= no_targets(labels.len()));
}

/// The symbol that the last segment of the bar shows, where it shows those at the cursor: the
/// deepest one, or none for the file itself.
pub open spec fn leaf_item(editor: EditorContext, buffer_id: BufferId) -> Option<OutlineItemView> {
    let ancestors = CursorSymbols::of_buffer(editor.outline_symbols_at_cursor, buffer_id);
    if ancestors.len() == 0 {
        None
    } else {
        Some(ancestors.last())
    }
}

/// As long as no dropdown has moved, the last segment of the bar stands for the deepest symbol at
/// the cursor, or for the file where there is none; and a dropdown opened for that leaf is open
/// under that last segment.
pub proof fn law_the_leaf_is_the_last_segment(
    context: BarContext,
    editor: EditorContext,
    buffer_id: BufferId,
    labels: Seq<HighlightedTextView>,
    trail: Seq<OutlineItemView>,
)
    requires
        context.shown_buffer() == Some((editor, buffer_id)),
        !editor.navigated(),
        !editor.symbol_navigated(buffer_id),
        context.path_split(editor, buffer_id, labels.len()) is Some ==> (context.file matches Some(
            file,
        ) ==> file.path@.len() > 0),
        context.segments(labels, trail).labels.len() <= usize::MAX,
    ensures
        ({
            let shown = context.segments(labels, trail);
            let targets = shown.targets;
            let leaf = leaf_item(editor, buffer_id);
            &&& targets.len() > 0
            &&& targets.last() is Some
            &&& targets.last()->0 is Symbol
            &&& targets.last()->0->buffer_id == buffer_id
            &&& targets.last()->0->item == leaf
            &&& (editor.symbol_navigation matches Some(navigation) && navigation.buffer_id
                == buffer_id && navigation.active_item.deep_view() == leaf)
                ==> targets.last()->0.is_active()
            &&& targets.len() == shown.labels.len() ==> {
                let row = context.row(labels, trail);
                &&& row.segments.len() > 0
                &&& row.segments.last().label == shown.labels.last()
                &&& row.segments.last().target == targets.last()
            }
        }),
{
    let ancestors = CursorSymbols::of_buffer(editor.outline_symbols_at_cursor, buffer_id);
    let part = context.path_part(editor, buffer_id, labels);
    let shown = context.segments(labels, trail);
    let targets = shown.targets;
    if ancestors.len() == 0 {
        assert(targets =~= part.targets);
    }
    if targets.len() == shown.labels.len() {
        let count = shown.labels.len();
        let kinds = segment_kinds(count, shown.file_segment_index, shown.has_root_segment);
        let row = context.row(labels, trail);
        if let Some((start, end)) = capped_range(kinds, context.is_expanded()) {
            lemma_first_where(kinds.len(), is_middle(kinds), 0);
            lemma_last_where(kinds.len(), is_middle(kinds));
            assert(0 <= start < end < count);
            let capped = spliced(targets, start, end, None);
            assert(capped.len() == start + 1 + (count - end));
            assert(capped.last() == targets.last());
            let capped_labels = spliced(shown.labels, start, end, bare_text(ellipsis_text()));
            assert(capped_labels.last() == shown.labels.last());
            assert(row.segments.last().target == targets.last());
        }
    }
}

/// An expanded bar shows every segment as it is: the cap on directories does not apply to it.
pub proof fn law_an_expanded_bar_shows_every_segment(
    context: BarContext,
    labels: Seq<HighlightedTextView>,
    trail: Seq<OutlineItemView>,
    i: int,
)
    requires
        context.is_expanded(),
        0 <= i < context.segments(labels, trail).labels.len(),
    ensures
        ({
            let shown = context.segments(labels, trail);
            let row = context.row(labels, trail);
            &&& row.expanded
            &&& row.segments.len() == shown.labels.len()
            &&& row.segments[i].label == shown.labels[i]
            &&& row.segments[i].target == aligned_targets(shown.labels.len(), shown.targets)[i]
            &&& !row.segments[i].hard_cap_ellipsis
        }),
{
}

/// While a directory dropdown has moved through the tree, the bar shows the path to where it went
/// and no symbol.
pub proof fn law_a_moved_directory_dropdown_replaces_the_bar(
    context: BarContext,
    editor: EditorContext,
    buffer_id: BufferId,
    labels: Seq<HighlightedTextView>,
    trail: Seq<OutlineItemView>,
    i: int,
)
    requires
        context.shown_buffer() == Some((editor, buffer_id)),
        editor.navigated(),
        context.path_split(editor, buffer_id, labels.len()) is Some,
        0 <= i < context.segments(labels, trail).labels.len(),
    ensures
        ({
            let shown = context.segments(labels, trail);
            let path = editor.navigation->0.active_path@;
            &&& shown.labels.len() == path.len() + 1
            &&& shown.targets.len() == shown.labels.len()
            &&& shown.file_segment_index == path.len()
            &&& shown.targets[i] is Some && shown.targets[i]->0 is Directory
            &&& shown.targets[i]->0->path == path.take(i)
            &&& shown.targets[i]->0.is_active() <==> i == path.len()
        }),
{
    let path = editor.navigation->0.active_path@;
    assert(path.take(path.len() as int) =~= path);
    if i < path.len() {
        assert(path.take(i).len() != path.len());
    }
}

} // verus!
