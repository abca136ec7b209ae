//! How wide the segments of a row come out.

use vstd::prelude::*;
use vstd::utf8::encode_utf8;

use crate::layout::{
    BreadcrumbSegmentMetrics, Pixels, RowSubPixels, SubPixels, SUBPIXELS_PER_PIXEL,
};
use crate::path_style::PathStyle;
use crate::row::{BreadcrumbsRow, PreparedBreadcrumbSegment, PreparedSegmentView, RowView};
use crate::segments::ellipsis_text;
use crate::text::{
    byte_length, dirty_filename_offset, dirty_filename_text_style,
    flatten_text_for_single_line_display, flattened, law_flattening_keeps_byte_offsets,
    lemma_filename_offset_bound, path_filename_offset, FontWeight, TextStyle,
};

verus! {

/// The lengths that a row is measured and painted with.
#[derive(Clone, Copy, Debug, PartialEq, Eq, Structural)]
pub struct RowLengths {
    /// On either side of a label.
    pub label_padding: SubPixels,
    pub icon_size: SubPixels,
    /// Between an icon and its label, and on either side of a separator.
    pub gap: SubPixels,
    /// A separator, without the gaps around it.
    pub arrow_width: SubPixels,
    /// What a picker's trigger wraps a segment in; none until the pickers have registered.
    pub segment_padding: Option<SubPixels>,
}

/// The least number of device pixels that a length fits in.
pub open spec fn device_ceil(width: int) -> int {
    (width + SUBPIXELS_PER_PIXEL - 1) / SUBPIXELS_PER_PIXEL as int
}

/// Every painted box is sized on the device grid; rounding up to whole logical pixels would
/// over-reserve at fractional scales.
pub fn ceil_to_device_pixel(width: i64) -> (pixels: Pixels)
    requires
        i32::MIN <= device_ceil(width as int) <= i32::MAX,
    ensures
        pixels == device_ceil(width as int),
{
    if width > 0 {
        ((width - 1) / SUBPIXELS_PER_PIXEL + 1) as Pixels
    } else {
        let below: i64 = if width == i64::MIN {
            i64::MAX / SUBPIXELS_PER_PIXEL + 1
        } else {
            (-width) / SUBPIXELS_PER_PIXEL
        };
        (-below) as Pixels
    }
}

/// A stretch of text in one style, as the text system shapes it.
#[derive(Clone, Copy, Debug, PartialEq, Eq, Structural)]
pub struct TextRun {
    /// In bytes.
    pub len: usize,
    pub style: TextStyle,
}

/// The runs of a segment's text: a dirty file's name is measured bold, which is wider than the
/// base weight.
pub open spec fn text_runs(
    path_style: PathStyle,
    segment: PreparedSegmentView,
    text_len: nat,
    style: TextStyle,
) -> Seq<TextRun> {
    let bold = TextStyle { font_weight: FontWeight::Bold, ..style };
    match path_filename_offset(path_style, segment.label.text) {
        Some(offset) => if !segment.dirty_filename_style {
            seq![TextRun { len: text_len as usize, style }]
        } else if offset == 0 {
            seq![TextRun { len: text_len as usize, style: bold }]
        } else {
            seq![
                TextRun { len: offset as usize, style },
                TextRun { len: (text_len - offset) as usize, style: bold },
            ]
        },
        None => seq![TextRun { len: text_len as usize, style }],
    }
}

/// Measured with the bold dirty-file style, which is wider than the base weight.
pub fn segment_text_runs(
    path_style: PathStyle,
    segment: &PreparedBreadcrumbSegment,
    text: &str,
    text_style: &TextStyle,
) -> (runs: Vec<TextRun>)
    requires
        segment.dirty_filename_style ==> (path_filename_offset(
            path_style,
            segment.label.text@,
        ) matches Some(offset) ==> offset <= encode_utf8(text@).len()),
    ensures
        runs@ == text_runs(path_style, segment@, encode_utf8(text@).len(), *text_style),
{
    let length: usize = byte_length(text);
    let mut runs: Vec<TextRun> = Vec::new();
    let offset: Option<usize> = if segment.dirty_filename_style {
        dirty_filename_offset(path_style, &segment.label)
    } else {
        None
    };
    match offset {
        None => {
            runs.push(TextRun { len: length, style: *text_style });
        },
        Some(offset) => {
            let bold: TextStyle = dirty_filename_text_style(text_style);
            if offset == 0 {
                runs.push(TextRun { len: length, style: bold });
            } else {
                runs.push(TextRun { len: offset, style: *text_style });
                runs.push(TextRun { len: length - offset, style: bold });
            }
        },
    }
    runs
}

/// A text and its runs, as the text system shapes them.
pub struct ShapedText {
    pub text: String,
    pub runs: Vec<TextRun>,
}

impl ShapedText {
    /// The text is a segment's, on a single line.
    pub open spec fn is_of(
        self,
        path_style: PathStyle,
        segment: PreparedSegmentView,
        style: TextStyle,
    ) -> bool {
        &&& self.text@ == flattened(segment.label.text)
        &&& self.runs@ == text_runs(
            path_style,
            segment,
            encode_utf8(flattened(segment.label.text)).len(),
            style,
        )
    }

    /// The text is an ellipsis.
    pub open spec fn is_ellipsis(self, style: TextStyle) -> bool {
        &&& self.text@ == ellipsis_text()
        &&& self.runs@ == seq![
            TextRun { len: encode_utf8(ellipsis_text()).len() as usize, style },
        ]
    }
}

/// What a segment's label is shaped from when it is measured.
pub fn shape_segment(
    path_style: PathStyle,
    segment: &PreparedBreadcrumbSegment,
    text_style: &TextStyle,
) -> (shape: ShapedText)
    ensures
        shape.is_of(path_style, segment@, *text_style),
{
    let text: String = flatten_text_for_single_line_display(segment.label.text.as_str());
    proof {
        lemma_filename_offset_bound(path_style, segment.label.text@);
        law_flattening_keeps_byte_offsets(segment.label.text@);
    }
    let runs: Vec<TextRun> = segment_text_runs(path_style, segment, text.as_str(), text_style);
    ShapedText { text, runs }
}

/// What an ellipsis is shaped from when it is measured.
pub fn shape_ellipsis(text_style: &TextStyle) -> (shape: ShapedText)
    ensures
        shape.is_ellipsis(*text_style),
{
    let text: String = "⋯".to_string();
    let mut runs: Vec<TextRun> = Vec::new();
    runs.push(TextRun { len: byte_length(text.as_str()), style: *text_style });
    assert(runs@ =~= seq![
        TextRun { len: encode_utf8(ellipsis_text()).len() as usize, style: *text_style },
    ]);
    ShapedText { text, runs }
}

/// The lengths of a list of runs, added up.
pub open spec fn runs_length(runs: Seq<TextRun>) -> int
    decreases runs.len(),
{
    if runs.len() == 0 {
        0
    } else {
        runs_length(runs.drop_last()) + runs.last().len
    }
}

/// The runs that a segment is measured with cover its text, byte for byte.
pub proof fn law_runs_cover_the_text(
    path_style: PathStyle,
    segment: PreparedSegmentView,
    style: TextStyle,
)
    requires
        encode_utf8(segment.label.text).len() <= usize::MAX,
    ensures
        runs_length(
            text_runs(path_style, segment, encode_utf8(flattened(segment.label.text)).len(), style),
        ) == encode_utf8(flattened(segment.label.text)).len(),
{
    reveal_with_fuel(runs_length, 3);
    lemma_filename_offset_bound(path_style, segment.label.text);
    law_flattening_keeps_byte_offsets(segment.label.text);
    let runs = text_runs(path_style, segment, encode_utf8(flattened(segment.label.text)).len(), style);
    if runs.len() == 2 {
        assert(runs.drop_last() =~= seq![runs[0]]);
        assert(runs.drop_last().drop_last() =~= Seq::<TextRun>::empty());
    } else {
        assert(runs.drop_last() =~= Seq::<TextRun>::empty());
    }
}

impl RowView {
    /// What the picker's trigger wraps a segment in; nothing around a plain label.
    pub open spec fn padding(self, index: int, segment_padding: Option<SubPixels>) -> SubPixels {
        if self.segments[index].hard_cap_ellipsis || self.segments[index].target is None
            || !self.has_editor || segment_padding is None {
            0
        } else {
            segment_padding->0
        }
    }

    /// What stands around the label of a segment.
    pub open spec fn around_label(self, index: int, lengths: RowLengths) -> int {
        (if self.segments[index].icon is Some {
            lengths.icon_size + lengths.gap
        } else {
            0
        }) + 2 * lengths.label_padding + self.padding(index, lengths.segment_padding)
    }

    /// How wide a segment comes out around a label of that width.
    pub open spec fn segment_width(self, index: int, label_width: SubPixels, lengths: RowLengths) -> int {
        device_ceil(label_width + self.around_label(index, lengths))
    }

    /// What is left of `max_width` for the label of a segment.
    pub open spec fn label_width(
        self,
        index: int,
        max_width: Option<RowSubPixels>,
        lengths: RowLengths,
    ) -> Option<RowSubPixels> {
        match max_width {
            None => None,
            Some(max_width) => {
                let left = max_width - self.around_label(index, lengths);
                Some(
                    (if left >= 0 {
                        left
                    } else {
                        0
                    }) as RowSubPixels,
                )
            },
        }
    }
}

/// The segment at `index` was measured as `width` by the line that `line_width` shaped.
pub open spec fn measured_segment<W: Fn(&ShapedText) -> SubPixels>(
    row: RowView,
    index: int,
    lengths: RowLengths,
    style: TextStyle,
    line_width: W,
    width: Pixels,
) -> bool {
    exists|shape: ShapedText, label_width: SubPixels|
        {
            &&& shape.is_of(row.path_style, row.segments[index], style)
            &&& #[trigger] call_ensures(line_width, (&shape,), label_width)
            &&& width == row.segment_width(index, label_width, lengths)
        }
}

/// An ellipsis was measured as `width` by the line that `line_width` shaped.
pub open spec fn measured_ellipsis<W: Fn(&ShapedText) -> SubPixels>(
    lengths: RowLengths,
    style: TextStyle,
    line_width: W,
    width: Pixels,
) -> bool {
    exists|shape: ShapedText, label_width: SubPixels|
        {
            &&& shape.is_ellipsis(style)
            &&& #[trigger] call_ensures(line_width, (&shape,), label_width)
            &&& width == device_ceil(label_width + 2 * lengths.label_padding)
        }
}

impl BreadcrumbsRow {
    /// What the picker's trigger wraps an interactive segment in; zero for a plain label. There is
    /// no padding to reserve until the pickers have registered theirs.
    pub fn segment_padding(&self, index: usize, segment_padding: Option<SubPixels>) -> (padding:
        SubPixels)
        requires
            index < self.segments@.len(),
        ensures
            padding == self@.padding(index as int, segment_padding),
    {
        let segment: &PreparedBreadcrumbSegment = &self.segments[index];
        assert(segment@ == self@.segments[index as int]);
        if segment.hard_cap_ellipsis || segment.target.is_none() || !self.has_editor {
            return 0;
        }
        match segment_padding {
            Some(padding) => padding,
            None => 0,
        }
    }

    /// What stands around the label of a segment.
    pub fn width_around_label(&self, index: usize, lengths: &RowLengths) -> (width: i64)
        requires
            index < self.segments@.len(),
        ensures
            width == self@.around_label(index as int, *lengths),
            -0x4_0000_0000 <= width <= 0x4_0000_0000,
    {
        assert(self@.segments[index as int] == self.segments@[index as int]@);
        let icon_width: i64 = if self.segments[index].icon.is_some() {
            lengths.icon_size as i64 + lengths.gap as i64
        } else {
            0
        };
        icon_width + 2 * lengths.label_padding as i64 + self.segment_padding(
            index,
            lengths.segment_padding,
        ) as i64
    }

    /// Measures every segment, an ellipsis and a separator. `line_width` shapes a line and tells how
    /// wide its box gets.
    pub fn measure<W: Fn(&ShapedText) -> SubPixels>(
        &self,
        lengths: &RowLengths,
        text_style: &TextStyle,
        line_width: W,
    ) -> (metrics: BreadcrumbSegmentMetrics)
        requires
            forall|shape: &ShapedText| #[trigger] call_requires(line_width, (shape,)),
        ensures
            metrics.widths@.len() == self.segments@.len(),
            forall|i: int|
                0 <= i < self.segments@.len() ==> measured_segment(
                    self@,
                    i,
                    *lengths,
                    *text_style,
                    line_width,
                    #[trigger] metrics.widths@[i],
                ),
            measured_ellipsis(*lengths, *text_style, line_width, metrics.ellipsis_width),
            metrics.separator_width == device_ceil(lengths.arrow_width + 2 * lengths.gap),
    {
        let ellipsis: ShapedText = shape_ellipsis(text_style);
        let ellipsis_label_width: SubPixels = line_width(&ellipsis);
        let ellipsis_width: Pixels = ceil_to_device_pixel(
            ellipsis_label_width as i64 + 2 * lengths.label_padding as i64,
        );
        let mut widths: Vec<Pixels> = Vec::new();
        let mut index: usize = 0;
        while index < self.segments.len()
            invariant
                forall|shape: &ShapedText| #[trigger] call_requires(line_width, (shape,)),
                index <= self.segments@.len(),
                widths@.len() == index,
                forall|i: int|
                    0 <= i < index ==> measured_segment(
                        self@,
                        i,
                        *lengths,
                        *text_style,
                        line_width,
                        #[trigger] widths@[i],
                    ),
            decreases self.segments@.len() - index,
        {
            assert(self@.segments[index as int] == self.segments@[index as int]@);
            let shape: ShapedText = shape_segment(
                self.path_style,
                &self.segments[index],
                text_style,
            );
            let label_width: SubPixels = line_width(&shape);
            let width: Pixels = ceil_to_device_pixel(
                label_width as i64 + self.width_around_label(index, lengths),
            );
            widths.push(width);
            index = index + 1;
        }
        let separator_width: Pixels = ceil_to_device_pixel(
            lengths.arrow_width as i64 + 2 * lengths.gap as i64,
        );
        BreadcrumbSegmentMetrics { widths, ellipsis_width, separator_width }
    }
}

/// A segment that may get as wide as it was measured keeps its whole label.
pub proof fn law_a_measured_segment_keeps_its_label(
    row: RowView,
    index: int,
    label_width: SubPixels,
    lengths: RowLengths,
)
    requires
        0 <= index < row.segments.len(),
        label_width >= 0,
    ensures
        ({
            let width = row.segment_width(index, label_width, lengths) * SUBPIXELS_PER_PIXEL;
            row.label_width(index, Some(width as RowSubPixels), lengths)->0 >= label_width
        }),
{
}

} // verus!
