//! How the segments of a row are measured and painted, told from the segments themselves.

use vstd::prelude::*;
use vstd::utf8::encode_utf8;

use crate::layout::{Pixels, RowSubPixels, SubPixels};
use crate::measure::{
    device_ceil, measured_ellipsis, measured_segment, text_runs, RowLengths, ShapedText,
};
use crate::paint::{placement, RowItem, RowLayout};
use crate::path_style::PathStyle;
use crate::render::{
    renders_item, segment_text, PaintContext, PlacedElement, RowElement, SegmentTriggerView,
};
use crate::row::{BreadcrumbsRow, PreparedSegmentView, RowView};
use crate::segments::ellipsis_text;
use crate::status::Color;
use crate::text::{
    dirty_styled, flattened, path_filename_offset, FontWeight, HighlightedTextView, Rgba,
    TextStyle,
};

verus! {

/// A length is rounded up to the next whole number of device pixels, of two hundred and fifty-six
/// parts each.
pub proof fn law_lengths_are_rounded_up(width: int)
    ensures
        width <= device_ceil(width) * 256 < width + 256,
{
}

/// Around its label a segment has the label's padding on either side, its icon and the gap behind it
/// where it has one, and the padding of its dropdown where it can open one.
pub proof fn law_what_surrounds_a_label(row: RowView, index: int, lengths: RowLengths, label: SubPixels)
    ensures
        ({
            let segment = row.segments[index];
            let icon = if segment.icon is Some {
                lengths.icon_size + lengths.gap
            } else {
                0
            };
            let opens = segment.target is Some && row.has_editor && !segment.hard_cap_ellipsis
                && lengths.segment_padding is Some;
            let dropdown = if opens {
                lengths.segment_padding->0 as int
            } else {
                0
            };
            let around = lengths.label_padding + lengths.label_padding + icon + dropdown;
            &&& row.padding(index, lengths.segment_padding) == dropdown
            &&& row.around_label(index, lengths) == around
            &&& label + around <= row.segment_width(index, label, lengths) * 256 < label + around
                + 256
        }),
{
}

/// A label keeps what its segment may take but for what surrounds it, and never less than nothing;
/// one whose segment may take what it likes is not limited.
pub proof fn law_a_label_gets_what_its_segment_leaves(
    row: RowView,
    index: int,
    max_width: RowSubPixels,
    lengths: RowLengths,
)
    requires
        max_width - row.around_label(index, lengths) <= 0x3fff_ffff_ffff_ffff_ffff_ffff_ffff_ffff,
    ensures
        row.label_width(index, None, lengths) is None,
        row.label_width(index, Some(max_width), lengths) matches Some(width) && width >= 0 && width
            >= max_width - row.around_label(index, lengths) && (width == 0 || width == max_width
            - row.around_label(index, lengths)),
{
}

/// A label is measured in one piece, unless it is of a dirty file and its file name does not stand
/// first: then the file name, from its first byte to the end, is measured in bold. Where it does
/// stand first the whole label is.
pub proof fn law_the_file_name_of_a_dirty_file_is_measured_bold(
    path_style: PathStyle,
    segment: PreparedSegmentView,
    text_len: nat,
    style: TextStyle,
)
    requires
        text_len <= usize::MAX,
        path_filename_offset(path_style, segment.label.text) matches Some(offset) ==> offset
            <= text_len,
    ensures
        ({
            let runs = text_runs(path_style, segment, text_len, style);
            let bold = TextStyle { font_weight: FontWeight::Bold, ..style };
            let found = path_filename_offset(path_style, segment.label.text);
            &&& !segment.dirty_filename_style || found is None ==> runs.len() == 1 && runs[0].len
                == text_len && runs[0].style == style
            &&& segment.dirty_filename_style && found == Some(0nat) ==> runs.len() == 1
                && runs[0].len == text_len && runs[0].style == bold
            &&& segment.dirty_filename_style && found is Some && found->0 > 0 ==> runs.len() == 2
                && runs[0].len == found->0 && runs[0].style == style && runs[0].len + runs[1].len
                == text_len && runs[1].style == bold
        }),
{
}

/// What is measured is the label on one line, or the ellipsis in the row's own style.
pub proof fn law_what_is_measured_is_the_label_on_one_line(
    shape: ShapedText,
    path_style: PathStyle,
    segment: PreparedSegmentView,
    style: TextStyle,
    at: int,
)
    ensures
        shape.is_of(path_style, segment, style) ==> {
            &&& shape.text@.len() == segment.label.text.len()
            &&& 0 <= at < shape.text@.len() ==> shape.text@[at] == if segment.label.text[at]
                == '\n' {
                ' '
            } else {
                segment.label.text[at]
            }
            &&& shape.runs@ == text_runs(
                path_style,
                segment,
                encode_utf8(shape.text@).len(),
                style,
            )
        },
        shape.is_ellipsis(style) ==> shape.text@ == ellipsis_text() && shape.runs@.len() == 1
            && shape.runs@[0].style == style && shape.runs@[0].len == encode_utf8(
            ellipsis_text(),
        ).len() as usize,
{
}

/// A segment is as wide as its label and what surrounds it, rounded up, and the ellipsis as its text
/// and the padding of a label on either side.
pub proof fn law_widths_are_measured_from_the_text<W: Fn(&ShapedText) -> SubPixels>(
    row: RowView,
    index: int,
    lengths: RowLengths,
    style: TextStyle,
    line_width: W,
    width: Pixels,
)
    ensures
        measured_segment(row, index, lengths, style, line_width, width) ==> exists|
            shape: ShapedText,
            label: SubPixels,
        |
            #![trigger call_ensures(line_width, (&shape,), label)]
            call_ensures(line_width, (&shape,), label) && shape.is_of(
                row.path_style,
                row.segments[index],
                style,
            ) && label + row.around_label(index, lengths) <= width * 256 < label
                + row.around_label(index, lengths) + 256,
        measured_ellipsis(lengths, style, line_width, width) ==> exists|
            shape: ShapedText,
            label: SubPixels,
        |
            #![trigger call_ensures(line_width, (&shape,), label)]
            call_ensures(line_width, (&shape,), label) && shape.is_ellipsis(style) && label
                + lengths.label_padding + lengths.label_padding <= width * 256 < label
                + lengths.label_padding + lengths.label_padding + 256,
{
}

/// The label of a dirty file is painted bold from its file name to its end, and all of it where the
/// file name stands first; without a file name nothing is painted bold.
pub proof fn law_the_file_name_of_a_dirty_file_is_painted_bold(
    path_style: PathStyle,
    label: HighlightedTextView,
    style: TextStyle,
    at: int,
)
    requires
        encode_utf8(flattened(label.text)).len() <= usize::MAX,
        path_filename_offset(path_style, label.text) matches Some(offset) ==> offset
            <= encode_utf8(flattened(label.text)).len(),
    ensures
        ({
            let found = path_filename_offset(path_style, label.text);
            let painted = dirty_styled(path_style, label, style);
            let text = painted->0;
            &&& painted is Some <==> found is Some
            &&& painted is Some ==> text.text.len() == label.text.len()
            &&& painted is Some && 0 <= at < label.text.len() ==> text.text[at] == if label.text[at]
                == '\n' {
                ' '
            } else {
                label.text[at]
            }
            &&& found == Some(0nat) ==> text.highlights.len() == 0 && text.style == (TextStyle {
                font_weight: FontWeight::Bold,
                ..style
            })
            &&& found is Some && found->0 > 0 ==> {
                &&& text.style == style
                &&& text.highlights.len() == 1
                &&& text.highlights[0].start == found->0
                &&& text.highlights[0].end == encode_utf8(text.text).len()
                &&& text.highlights[0].style.font_weight == Some(FontWeight::Bold)
                &&& text.highlights[0].style.color is None
                &&& text.highlights[0].style.rest == 0
            }
        }),
{
}

/// A segment's label is painted on one line with its own highlights, unless it is marked dirty and
/// has a file name: then it is painted as a dirty file's.
pub proof fn law_a_label_keeps_its_own_highlights(
    path_style: PathStyle,
    segment: PreparedSegmentView,
    style: TextStyle,
    at: int,
)
    ensures
        ({
            let painted = segment_text(path_style, segment, style);
            let named = path_filename_offset(path_style, segment.label.text) is Some;
            &&& painted.text.len() == segment.label.text.len()
            &&& 0 <= at < painted.text.len() ==> painted.text[at] == if segment.label.text[at]
                == '\n' {
                ' '
            } else {
                segment.label.text[at]
            }
            &&& !segment.dirty_filename_style || !named ==> painted.style == style
                && painted.highlights == segment.label.highlights
            &&& segment.dirty_filename_style && named ==> Some(painted) == dirty_styled(
                path_style,
                segment.label,
                style,
            )
        }),
{
}

/// The directory above a segment is that of the nearest segment to its left that opens one.
pub proof fn law_the_directory_above_is_the_nearest_to_the_left(row: RowView, index: nat, near: int)
    requires
        -1 <= near < index <= row.segments.len(),
        near >= 0 ==> row.segments[near].target is Some && row.segments[near].target->0
            is Directory,
        forall|i: int|
            near < i < index ==> !((#[trigger] row.segments[i]).target is Some
                && row.segments[i].target->0 is Directory),
    ensures
        row.parent_dir(index) == if near < 0 {
            None
        } else {
            Some(
                (
                    row.segments[near].target->0->Directory_worktree_id,
                    row.segments[near].target->0->path,
                ),
            )
        },
    decreases index,
{
    if near < index - 1 {
        assert(!(row.segments[index - 1].target is Some && row.segments[index - 1].target->0
            is Directory));
        law_the_directory_above_is_the_nearest_to_the_left(row, (index - 1) as nat, near);
    }
}

/// An ellipsis has a separator behind it unless it stands last, and expands the row of an editor; the
/// header of a multibuffer does not react.
pub proof fn law_an_ellipsis_expands_its_row(row: RowView, position: int, last_position: int)
    ensures
        ({
            let ellipsis = row.ellipsis(position, last_position);
            &&& ellipsis.separator <==> position != last_position
            &&& ellipsis.interactive <==> !row.multibuffer_header
            &&& ellipsis.expands <==> !row.multibuffer_header && row.has_editor
        }),
{
}

/// A segment opens the dropdown of its target, with the directory above it where that is a symbol's,
/// as long as its editor lives, the dropdowns have registered and there is a handle for its kind; a
/// directory's needs a workspace too.
pub proof fn law_a_segment_opens_its_targets_dropdown(row: RowView, index: int, context: PaintContext)
    requires
        index >= 0,
    ensures
        ({
            let trigger = row.trigger(index, context);
            let target = row.segments[index].target;
            let ready = context.lengths.segment_padding is Some && row.has_editor
                && context.editor_alive;
            &&& trigger is Some <==> ready && target is Some && (target->0 is Symbol
                && context.has_symbol_handle || target->0 is Directory && context.has_workspace
                && context.has_directory_handle)
            &&& trigger is Some && target->0 is Symbol ==> trigger->0 == (
            SegmentTriggerView::Symbol {
                buffer_id: target->0->buffer_id,
                item: target->0->item,
                parent_dir: row.parent_dir(index as nat),
                is_active_segment: target->0->Symbol_is_active_segment,
            })
            &&& trigger is Some && target->0 is Directory ==> trigger->0 == (
            SegmentTriggerView::Directory {
                worktree_id: target->0->Directory_worktree_id,
                path: target->0->path,
                active_path: target->0->active_path,
                is_active_segment: target->0->Directory_is_active_segment,
            })
        }),
{
}

/// A segment is painted with its own icon and tint, reacts and copies its path where it has a target
/// and an editor, and has a separator behind it unless it stands last.
pub proof fn law_a_segment_is_painted_with_its_own_marks(
    row: RowView,
    index: int,
    position: int,
    last_position: int,
    max_width: Option<RowSubPixels>,
    context: PaintContext,
    style: TextStyle,
)
    ensures
        ({
            let element = row.segment_element(
                index,
                position,
                last_position,
                max_width,
                context,
                style,
            );
            let segment = row.segments[index];
            &&& element.icon == segment.icon
            &&& element.icon_color == segment.icon_color
            &&& element.copies_path <==> segment.target is Some && row.has_editor
            &&& element.interactive <==> segment.target is Some && row.has_editor
            &&& element.separator <==> position != last_position
            &&& element.label_width == row.label_width(index, max_width, context.lengths)
            &&& element.trigger == row.trigger(index, context)
            &&& element.text == segment_text(row.path_style, segment, style)
        }),
{
}

/// An item of the row is painted as what it is: an ellipsis, the row's own or the cap's, as an
/// ellipsis, and a segment as itself, its label in the color that the theme gives for it.
pub proof fn law_items_are_painted_as_what_they_are<T: Fn(Color) -> Rgba>(
    row: RowView,
    item: RowItem,
    position: int,
    last_position: int,
    max_width: Option<RowSubPixels>,
    context: PaintContext,
    style: TextStyle,
    theme: T,
    element: RowElement,
)
    requires
        renders_item(
            row,
            item,
            position,
            last_position,
            max_width,
            context,
            style,
            theme,
            element,
        ),
    ensures
        item is Ellipsis || row.segments[item->Segment_0 as int].hard_cap_ellipsis ==> element
            is Ellipsis && element->Ellipsis_0 == row.ellipsis(position, last_position),
        item is Segment && !row.segments[item->Segment_0 as int].hard_cap_ellipsis ==> element
            is Segment && exists|color: Rgba| #[trigger]
            call_ensures(theme, (row.segments[item->Segment_0 as int].label_color,), color)
                && element->Segment_0@ == row.segment_element(
                item->Segment_0 as int,
                position,
                last_position,
                max_width,
                context,
                TextStyle { color, ..style },
            ),
{
}

/// An item is placed by the widths of the items before it, painted within the width that its place
/// leaves it, and measured as it is painted.
pub proof fn law_items_are_painted_where_they_are_placed<
    T: Fn(Color) -> Rgba,
    M: Fn(&RowElement) -> SubPixels,
>(
    row: BreadcrumbsRow,
    layout: RowLayout,
    origin_x: i64,
    row_width: i64,
    context: PaintContext,
    style: TextStyle,
    theme: T,
    measure: M,
    widths: Seq<SubPixels>,
    position: int,
    placed: PlacedElement,
)
    requires
        row.places_item(
            layout,
            origin_x,
            row_width,
            context,
            style,
            theme,
            measure,
            widths,
            position,
            placed,
        ),
    ensures
        placed.placement == placement(
            widths,
            context.lengths.gap,
            origin_x,
            row_width,
            layout.truncate_last,
            position,
            layout.items@.len(),
        ),
        renders_item(
            row@,
            layout.items@[position],
            position,
            layout.items@.len() - 1,
            placed.placement.max_width,
            context,
            style,
            theme,
            placed.element,
        ),
        call_ensures(measure, (&placed.element,), widths[position]),
{
}

} // verus!
