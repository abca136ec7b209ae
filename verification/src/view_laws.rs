//! Nothing that a value holds is left out of what is said of it.

use vstd::prelude::*;

use crate::directory::{DirectoryAction, DirectoryActionView};
use crate::entries::BreadcrumbDirectoryEntry;
use crate::picker::{StringMatch, StringMatchCandidate};
use crate::render::{SegmentElement, SegmentTrigger};
use crate::row::{BreadcrumbsRow, PreparedBreadcrumbSegment};
use crate::segments::ellipsis_text;
use crate::session::version_values;
use crate::state::Global;
use crate::target::{BreadcrumbSegmentTarget, OutlineItem};
use crate::text::{bold_highlight, plain_highlight, FontWeight, HighlightedText, StyledText};
use crate::trail::Trail;

verus! {

/// A symbol and a text are all that their fields hold; a symbol's label is its text and highlights.
pub proof fn law_symbols_and_texts_are_whole(
    item: OutlineItem,
    text: HighlightedText,
    styled: StyledText,
)
    ensures
        item@.depth == item.depth,
        item@.range == item.range,
        item@.selection_range == item.selection_range,
        item@.text == item.text@,
        item@.highlight_ranges == item.highlight_ranges@,
        item@.label().text == item.text@,
        item@.label().highlights == item.highlight_ranges@,
        text@.text == text.text@,
        text@.highlights == text.highlights@,
        styled@.text == styled.text@,
        styled@.style == styled.style,
        styled@.highlights == styled.highlights@,
{
}

/// A target is all that its fields hold; it is active where it says so, and the file's where it is of
/// no symbol.
pub proof fn law_targets_are_whole(target: BreadcrumbSegmentTarget)
    ensures
        match target {
            BreadcrumbSegmentTarget::Symbol { buffer_id, item, is_active_segment } => {
                &&& target@ is Symbol
                &&& target@->buffer_id == buffer_id
                &&& target@->item is Some <==> item is Some
                &&& item is Some ==> target@->item->0 == item->0@
                &&& target@->Symbol_is_active_segment == is_active_segment
                &&& target@.is_active() == is_active_segment
                &&& target@.is_file() <==> item is None
            },
            BreadcrumbSegmentTarget::Directory {
                worktree_id,
                path,
                active_path,
                is_active_segment,
            } => {
                &&& target@ is Directory
                &&& target@->Directory_worktree_id == worktree_id
                &&& target@->path == path@
                &&& target@->active_path is Some <==> active_path is Some
                &&& active_path is Some ==> target@->active_path->0 == active_path->0@
                &&& target@->Directory_is_active_segment == is_active_segment
                &&& target@.is_active() == is_active_segment
                &&& !target@.is_file()
            },
        },
{
}

/// A row of a dropdown is all that its fields hold.
pub proof fn law_rows_of_a_dropdown_are_whole(
    candidate: StringMatchCandidate,
    string_match: StringMatch,
    entry: BreadcrumbDirectoryEntry,
    action: DirectoryAction,
)
    ensures
        candidate@.id == candidate.id,
        candidate@.string == candidate.string@,
        string_match@.candidate_id == string_match.candidate_id,
        string_match@.string == string_match.string@,
        string_match@.positions == string_match.positions@,
        entry@.name == entry.name@,
        entry@.path == entry.path@,
        entry@.is_dir == entry.is_dir,
        entry@.is_ignored == entry.is_ignored,
        entry@.git_summary == entry.git_summary,
        match action {
            DirectoryAction::Nothing => action@ is Nothing,
            DirectoryAction::OpenFile { worktree_id, path } => action@ == (
            DirectoryActionView::OpenFile { worktree_id, path: path@ }),
            DirectoryAction::Navigate { worktree_id, path } => action@ == (
            DirectoryActionView::Navigate { worktree_id, path: path@ }),
        },
{
}

/// A segment of the row is all that its fields hold.
pub proof fn law_segments_are_whole(segment: PreparedBreadcrumbSegment)
    ensures
        segment@.kind == segment.kind,
        segment@.label == segment.label@,
        segment@.target is Some <==> segment.target is Some,
        segment.target is Some ==> segment@.target->0 == segment.target->0@,
        segment@.dirty_filename_style == segment.dirty_filename_style,
        segment@.icon is Some <==> segment.icon is Some,
        segment.icon is Some ==> segment@.icon->0 == segment.icon->0@,
        segment@.icon_color == segment.icon_color,
        segment@.label_color == segment.label_color,
        segment@.hard_cap_ellipsis == segment.hard_cap_ellipsis,
{
}

/// A row and what the bar shows are all that their fields hold, item by item.
pub proof fn law_rows_are_whole(row: BreadcrumbsRow, trail: Trail, i: int)
    ensures
        row@.segments.len() == row.segments@.len(),
        0 <= i < row.segments@.len() ==> row@.segments[i] == row.segments@[i]@,
        row@.has_editor == row.has_editor,
        row@.expanded == row.expanded,
        row@.file_outlives_symbols == row.file_outlives_symbols,
        row@.multibuffer_header == row.multibuffer_header,
        row@.path_style == row.path_style,
        trail@.labels.len() == trail.labels@.len(),
        0 <= i < trail.labels@.len() ==> trail@.labels[i] == trail.labels@[i]@,
        trail@.targets.len() == trail.targets@.len(),
        0 <= i < trail.targets@.len() ==> (trail@.targets[i] is Some <==> trail.targets@[i] is Some)
            && (trail.targets@[i] is Some ==> trail@.targets[i]->0 == trail.targets@[i]->0@),
        trail@.file_segment_index == trail.file_segment_index,
        trail@.has_root_segment == trail.has_root_segment,
{
    if 0 <= i < row.segments@.len() {
        assert(row.segments.deep_view()[i] == row.segments@[i].deep_view());
    }
    if 0 <= i < trail.labels@.len() {
        assert(trail.labels.deep_view()[i] == trail.labels@[i].deep_view());
    }
    if 0 <= i < trail.targets@.len() {
        assert(trail.targets.deep_view()[i] == trail.targets@[i].deep_view());
    }
}

/// A painted segment and the dropdown that it opens are all that their fields hold.
pub proof fn law_painted_segments_are_whole(element: SegmentElement, trigger: SegmentTrigger)
    ensures
        element@.text == element.text@,
        element@.label_width == element.label_width,
        element@.icon is Some <==> element.icon is Some,
        element.icon is Some ==> element@.icon->0 == element.icon->0@,
        element@.icon_color == element.icon_color,
        element@.copies_path == element.copies_path,
        element@.interactive == element.interactive,
        element@.separator == element.separator,
        element@.trigger is Some <==> element.trigger is Some,
        element.trigger is Some ==> element@.trigger->0 == element.trigger->0@,
        match trigger {
            SegmentTrigger::Symbol { buffer_id, item, parent_dir, is_active_segment } => {
                &&& trigger@ is Symbol
                &&& trigger@->buffer_id == buffer_id
                &&& trigger@->item is Some <==> item is Some
                &&& item is Some ==> trigger@->item->0 == item->0@
                &&& trigger@->parent_dir is Some <==> parent_dir is Some
                &&& parent_dir matches Some(place) ==> trigger@->parent_dir->0 == (
                    place.0,
                    place.1@,
                )
                &&& trigger@->Symbol_is_active_segment == is_active_segment
            },
            SegmentTrigger::Directory { worktree_id, path, active_path, is_active_segment } => {
                &&& trigger@ is Directory
                &&& trigger@->worktree_id == worktree_id
                &&& trigger@->path == path@
                &&& trigger@->active_path is Some <==> active_path is Some
                &&& active_path is Some ==> trigger@->active_path->0 == active_path->0@
                &&& trigger@->Directory_is_active_segment == is_active_segment
            },
        },
{
}

/// The ellipsis is one character; a highlight changes nothing unless it says so, and a bold one changes
/// the weight alone.
pub proof fn law_what_highlights_change()
    ensures
        ellipsis_text() == "⋯"@,
        plain_highlight().color is None,
        plain_highlight().font_weight is None,
        plain_highlight().rest == 0,
        bold_highlight().color is None,
        bold_highlight().font_weight == Some(FontWeight::Bold),
        bold_highlight().rest == 0,
{
}

/// The version of a buffer is all its values.
pub proof fn law_versions_are_whole(version: &Global)
    ensures
        version_values(Some(version)) == Some(version.values@),
        version_values(None) is None,
{
}

} // verus!
