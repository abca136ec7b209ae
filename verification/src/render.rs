//! What each item of the row looks like and what it does when it is clicked.

use vstd::prelude::*;

use crate::layout::{RowSubPixels, SubPixels};
use crate::measure::RowLengths;
use crate::paint::{advance, lemma_advance_agree, placement, Placement, RowItem, RowLayout};
use crate::path_style::PathStyle;
use crate::rel_path::RelPath;
use crate::row::{BreadcrumbsRow, PreparedBreadcrumbSegment, PreparedSegmentView, RowView};
use crate::status::Color;
use crate::target::{
    clone_optional_item, clone_optional_path, BreadcrumbSegmentTarget, BufferId, OutlineItem,
    OutlineItemView, SegmentTargetView, WorktreeId,
};
use crate::text::{
    apply_dirty_filename_style, dirty_styled, flatten_text_for_single_line_display, flattened,
    Rgba, StyledText, StyledTextView, TextStyle,
};

verus! {

/// A "⋯" in place of segments that the row leaves out.
#[derive(Clone, Copy, Debug, PartialEq, Eq, Structural)]
pub struct EllipsisElement {
    /// A separator follows.
    pub separator: bool,
    /// The ellipsis lights up under the mouse.
    pub interactive: bool,
    /// A click expands the row; a right click stops there.
    pub expands: bool,
}

/// The dropdown that a segment opens.
#[allow(inconsistent_fields)]
#[derive(Debug, PartialEq, Eq)]
pub enum SegmentTrigger {
    Symbol {
        buffer_id: BufferId,
        item: Option<OutlineItem>,
        /// The directory that the dropdown leads up to from the file.
        parent_dir: Option<(WorktreeId, RelPath)>,
        is_active_segment: bool,
    },
    Directory {
        worktree_id: WorktreeId,
        path: RelPath,
        active_path: Option<RelPath>,
        is_active_segment: bool,
    },
}

/// What a [`SegmentTrigger`] holds.
#[allow(inconsistent_fields)]
#[verifier::ext_equal]
pub enum SegmentTriggerView {
    Symbol {
        buffer_id: BufferId,
        item: Option<OutlineItemView>,
        parent_dir: Option<(WorktreeId, Seq<Seq<char>>)>,
        is_active_segment: bool,
    },
    Directory {
        worktree_id: WorktreeId,
        path: Seq<Seq<char>>,
        active_path: Option<Seq<Seq<char>>>,
        is_active_segment: bool,
    },
}

/// A path in a worktree.
pub open spec fn located(place: Option<(WorktreeId, RelPath)>) -> Option<
    (WorktreeId, Seq<Seq<char>>),
> {
    match place {
        Some((worktree_id, path)) => Some((worktree_id, path@)),
        None => None,
    }
}

impl View for SegmentTrigger {
    type V = SegmentTriggerView;

    open spec fn view(&self) -> SegmentTriggerView {
        match self {
            SegmentTrigger::Symbol { buffer_id, item, parent_dir, is_active_segment } =>
                SegmentTriggerView::Symbol {
                    buffer_id: *buffer_id,
                    item: item.deep_view(),
                    parent_dir: located(*parent_dir),
                    is_active_segment: *is_active_segment,
                },
            SegmentTrigger::Directory { worktree_id, path, active_path, is_active_segment } =>
                SegmentTriggerView::Directory {
                    worktree_id: *worktree_id,
                    path: path@,
                    active_path: active_path.deep_view(),
                    is_active_segment: *is_active_segment,
                },
        }
    }
}

impl DeepView for SegmentTrigger {
    type V = SegmentTriggerView;

    open spec fn deep_view(&self) -> SegmentTriggerView {
        self.view()
    }
}

/// A segment, as it is painted.
#[derive(Debug, PartialEq, Eq)]
pub struct SegmentElement {
    pub text: StyledText,
    /// How wide the label may get before it is truncated.
    pub label_width: Option<RowSubPixels>,
    pub icon: Option<String>,
    pub icon_color: Color,
    /// A right click copies the segment's own path.
    pub copies_path: bool,
    /// The segment lights up under the mouse.
    pub interactive: bool,
    /// A separator follows.
    pub separator: bool,
    pub trigger: Option<SegmentTrigger>,
}

/// What a [`SegmentElement`] holds.
#[verifier::ext_equal]
pub struct SegmentElementView {
    pub text: StyledTextView,
    pub label_width: Option<RowSubPixels>,
    pub icon: Option<Seq<char>>,
    pub icon_color: Color,
    pub copies_path: bool,
    pub interactive: bool,
    pub separator: bool,
    pub trigger: Option<SegmentTriggerView>,
}

impl View for SegmentElement {
    type V = SegmentElementView;

    open spec fn view(&self) -> SegmentElementView {
        SegmentElementView {
            text: self.text@,
            label_width: self.label_width,
            icon: self.icon.deep_view(),
            icon_color: self.icon_color,
            copies_path: self.copies_path,
            interactive: self.interactive,
            separator: self.separator,
            trigger: self.trigger.deep_view(),
        }
    }
}

/// An item of the row, as it is painted.
#[derive(Debug, PartialEq, Eq)]
pub enum RowElement {
    Ellipsis(EllipsisElement),
    Segment(SegmentElement),
}

/// The lengths and services that painting a segment depends on.
#[derive(Clone, Copy, Debug, PartialEq, Eq, Structural)]
pub struct PaintContext {
    pub lengths: RowLengths,
    /// The row's editor is still alive.
    pub editor_alive: bool,
    /// The editor still belongs to a workspace.
    pub has_workspace: bool,
    pub has_directory_handle: bool,
    pub has_symbol_handle: bool,
}

/// No row is wider: far beyond what any number of segments can add up to.
pub const MAX_PAINTED_WIDTH: RowSubPixels = 0x4000_0000_0000_0000_0000_0000_0000_0000;

/// How a segment's label is painted in `style`.
pub open spec fn segment_text(
    path_style: PathStyle,
    segment: PreparedSegmentView,
    style: TextStyle,
) -> StyledTextView {
    if segment.dirty_filename_style && dirty_styled(path_style, segment.label, style) is Some {
        dirty_styled(path_style, segment.label, style)->0
    } else {
        StyledTextView {
            text: flattened(segment.label.text),
            style,
            highlights: segment.label.highlights,
        }
    }
}

impl RowView {
    /// The nearest directory among the first `count` segments.
    pub open spec fn parent_dir(self, count: nat) -> Option<(WorktreeId, Seq<Seq<char>>)>
        decreases count,
    {
        if count == 0 {
            None
        } else {
            match self.segments[count - 1].target {
                Some(SegmentTargetView::Directory { worktree_id, path, .. }) => Some(
                    (worktree_id, path),
                ),
                _ => self.parent_dir((count - 1) as nat),
            }
        }
    }

    /// The ellipsis at a position of the painted row. A header row can never expand, so only the
    /// main bar's ellipsis is live.
    pub open spec fn ellipsis(self, position: int, last_position: int) -> EllipsisElement {
        EllipsisElement {
            separator: position != last_position,
            interactive: !self.multibuffer_header,
            expands: !self.multibuffer_header && self.has_editor,
        }
    }

    /// The dropdown that a segment opens, where all that it needs is there.
    pub open spec fn trigger(self, index: int, context: PaintContext) -> Option<
        SegmentTriggerView,
    > {
        if context.lengths.segment_padding is None || !self.has_editor || !context.editor_alive {
            None
        } else {
            match self.segments[index].target {
                Some(SegmentTargetView::Symbol { buffer_id, item, is_active_segment }) => {
                    if context.has_symbol_handle {
                        Some(
                            SegmentTriggerView::Symbol {
                                buffer_id,
                                item,
                                parent_dir: self.parent_dir(index as nat),
                                is_active_segment,
                            },
                        )
                    } else {
                        None
                    }
                },
                Some(
                    SegmentTargetView::Directory {
                        worktree_id,
                        path,
                        active_path,
                        is_active_segment,
                    },
                ) => {
                    if context.has_workspace && context.has_directory_handle {
                        Some(
                            SegmentTriggerView::Directory {
                                worktree_id,
                                path,
                                active_path,
                                is_active_segment,
                            },
                        )
                    } else {
                        None
                    }
                },
                None => None,
            }
        }
    }

    /// The segment at `index`, painted at `position` in `style`.
    pub open spec fn segment_element(
        self,
        index: int,
        position: int,
        last_position: int,
        max_width: Option<RowSubPixels>,
        context: PaintContext,
        style: TextStyle,
    ) -> SegmentElementView {
        let segment = self.segments[index];
        SegmentElementView {
            text: segment_text(self.path_style, segment, style),
            label_width: self.label_width(index, max_width, context.lengths),
            icon: segment.icon,
            icon_color: segment.icon_color,
            copies_path: segment.target is Some && self.has_editor,
            interactive: segment.target is Some && self.has_editor,
            separator: position != last_position,
            trigger: self.trigger(index, context),
        }
    }
}

/// `element` is the segment at `index`, painted at `position` in `style`, with the color that `theme`
/// gave its label.
pub open spec fn renders_segment<T: Fn(Color) -> Rgba>(
    row: RowView,
    index: int,
    position: int,
    last_position: int,
    max_width: Option<RowSubPixels>,
    context: PaintContext,
    style: TextStyle,
    theme: T,
    element: RowElement,
) -> bool {
    if row.segments[index].hard_cap_ellipsis {
        element == RowElement::Ellipsis(row.ellipsis(position, last_position))
    } else {
        exists|color: Rgba| #[trigger]
            call_ensures(theme, (row.segments[index].label_color,), color) && element is Segment
                && element->Segment_0@ == row.segment_element(
                index,
                position,
                last_position,
                max_width,
                context,
                TextStyle { color, ..style },
            )
    }
}

/// `element` is the item of the row at `position`.
pub open spec fn renders_item<T: Fn(Color) -> Rgba>(
    row: RowView,
    item: RowItem,
    position: int,
    last_position: int,
    max_width: Option<RowSubPixels>,
    context: PaintContext,
    style: TextStyle,
    theme: T,
    element: RowElement,
) -> bool {
    match item {
        RowItem::Segment(index) => renders_segment(
            row,
            index as int,
            position,
            last_position,
            max_width,
            context,
            style,
            theme,
            element,
        ),
        RowItem::Ellipsis => element == RowElement::Ellipsis(row.ellipsis(position, last_position)),
    }
}

/// An item of the row, where it is painted.
#[derive(Debug, PartialEq, Eq)]
pub struct PlacedElement {
    pub placement: Placement,
    pub element: RowElement,
}

/// How a segment's label is painted in `style`.
fn paint_text(
    path_style: PathStyle,
    segment: &PreparedBreadcrumbSegment,
    style: &TextStyle,
) -> (text: StyledText)
    ensures
        text@ == segment_text(path_style, segment@, *style),
{
    if segment.dirty_filename_style {
        if let Some(styled) = apply_dirty_filename_style(path_style, &segment.label, style) {
            return styled;
        }
    }
    let highlights = segment.label.highlights.clone();
    assert(highlights@ =~= segment.label.highlights@);
    StyledText {
        text: flatten_text_for_single_line_display(segment.label.text.as_str()),
        style: *style,
        highlights,
    }
}

impl BreadcrumbsRow {
    /// Whether a separator follows. Positions count the items of the painted row, not the
    /// segments.
    pub fn with_separator(&self, position: usize, last_position: usize) -> (separator: bool)
        ensures
            separator == (position != last_position),
    {
        position != last_position
    }

    pub fn render_ellipsis(&self, position: usize, last_position: usize) -> (element:
        EllipsisElement)
        ensures
            element == self@.ellipsis(position as int, last_position as int),
    {
        let interactive: bool = !self.multibuffer_header;
        EllipsisElement {
            separator: self.with_separator(position, last_position),
            interactive,
            expands: interactive && self.has_editor,
        }
    }

    /// The nearest directory before a segment.
    fn find_parent_dir(&self, index: usize) -> (parent: Option<(WorktreeId, RelPath)>)
        requires
            index <= self.segments@.len(),
        ensures
            located(parent) == self@.parent_dir(index as nat),
    {
        let mut count: usize = index;
        while count > 0
            invariant
                count <= index <= self.segments@.len(),
                self@.parent_dir(index as nat) == self@.parent_dir(count as nat),
            decreases count,
        {
            assert(self@.segments[count - 1] == self.segments@[count - 1]@);
            match &self.segments[count - 1].target {
                Some(BreadcrumbSegmentTarget::Directory { worktree_id, path, .. }) => {
                    return Some((*worktree_id, path.clone()));
                },
                _ => {},
            }
            count = count - 1;
        }
        None
    }

    /// The dropdown that a segment opens, where all that it needs is there.
    fn find_trigger(&self, index: usize, context: &PaintContext) -> (trigger: Option<
        SegmentTrigger,
    >)
        requires
            index < self.segments@.len(),
        ensures
            trigger.deep_view() == self@.trigger(index as int, *context),
    {
        assert(self@.segments[index as int] == self.segments@[index as int]@);
        if context.lengths.segment_padding.is_none() || !self.has_editor || !context.editor_alive {
            return None;
        }
        match &self.segments[index].target {
            Some(BreadcrumbSegmentTarget::Symbol { buffer_id, item, is_active_segment }) => {
                if context.has_symbol_handle {
                    Some(
                        SegmentTrigger::Symbol {
                            buffer_id: *buffer_id,
                            item: clone_optional_item(item),
                            parent_dir: self.find_parent_dir(index),
                            is_active_segment: *is_active_segment,
                        },
                    )
                } else {
                    None
                }
            },
            Some(
                BreadcrumbSegmentTarget::Directory {
                    worktree_id,
                    path,
                    active_path,
                    is_active_segment,
                },
            ) => {
                if context.has_workspace && context.has_directory_handle {
                    Some(
                        SegmentTrigger::Directory {
                            worktree_id: *worktree_id,
                            path: path.clone(),
                            active_path: clone_optional_path(active_path),
                            is_active_segment: *is_active_segment,
                        },
                    )
                } else {
                    None
                }
            },
            None => None,
        }
    }

    /// What is left of `max_width` for the label of a segment.
    fn find_label_width(
        &self,
        index: usize,
        max_width: Option<RowSubPixels>,
        context: &PaintContext,
    ) -> (width: Option<RowSubPixels>)
        requires
            index < self.segments@.len(),
            max_width matches Some(width) ==> -MAX_PAINTED_WIDTH <= width <= MAX_PAINTED_WIDTH,
        ensures
            width == self@.label_width(index as int, max_width, context.lengths),
    {
        match max_width {
            None => None,
            Some(max_width) => {
                let left: RowSubPixels = max_width - self.width_around_label(
                    index,
                    &context.lengths,
                ) as RowSubPixels;
                if left >= 0 {
                    Some(left)
                } else {
                    Some(0)
                }
            },
        }
    }

    /// The segment at `index`, painted at `position` of a row whose last item is at
    /// `last_position`. `theme` resolves the color of the label.
    pub fn render_segment<T: Fn(Color) -> Rgba>(
        &self,
        index: usize,
        position: usize,
        last_position: usize,
        max_width: Option<RowSubPixels>,
        context: &PaintContext,
        text_style: &TextStyle,
        theme: &T,
    ) -> (element: RowElement)
        requires
            index < self.segments@.len(),
            max_width matches Some(width) ==> -MAX_PAINTED_WIDTH <= width <= MAX_PAINTED_WIDTH,
            forall|color: Color| #[trigger] call_requires(*theme, (color,)),
        ensures
            renders_segment(
                self@,
                index as int,
                position as int,
                last_position as int,
                max_width,
                *context,
                *text_style,
                *theme,
                element,
            ),
    {
        let segment: &PreparedBreadcrumbSegment = &self.segments[index];
        assert(segment@ == self@.segments[index as int]);
        if segment.hard_cap_ellipsis {
            return RowElement::Ellipsis(self.render_ellipsis(position, last_position));
        }
        let color: Rgba = theme(segment.label_color);
        let style = TextStyle {
            color,
            font_weight: text_style.font_weight,
            rest: text_style.rest,
        };
        let interactive: bool = segment.target.is_some() && self.has_editor;
        RowElement::Segment(
            SegmentElement {
                text: paint_text(self.path_style, segment, &style),
                label_width: self.find_label_width(index, max_width, context),
                icon: match &segment.icon {
                    Some(icon) => Some(icon.clone()),
                    None => None,
                },
                icon_color: segment.icon_color,
                copies_path: interactive,
                interactive,
                separator: self.with_separator(position, last_position),
                trigger: self.find_trigger(index, context),
            },
        )
    }

    /// Renders the items of a laid out row and places them from left to right. `measure` lays an
    /// element out and tells how wide it came out.
    pub fn place_items<T: Fn(Color) -> Rgba, M: Fn(&RowElement) -> SubPixels>(
        &self,
        layout: &RowLayout,
        origin_x: i64,
        row_width: i64,
        context: &PaintContext,
        text_style: &TextStyle,
        theme: &T,
        measure: M,
    ) -> (placed: Vec<PlacedElement>)
        requires
            forall|p: int|
                0 <= p < layout.items@.len() ==> (#[trigger] layout.items@[p] matches RowItem::Segment(
                    index,
                ) ==> index < self.segments@.len()),
            forall|color: Color| #[trigger] call_requires(*theme, (color,)),
            forall|element: &RowElement| #[trigger] call_requires(measure, (element,)),
        ensures
            exists|widths: Seq<SubPixels>|
                {
                    &&& #[trigger] widths.len() == layout.items@.len()
                    &&& placed@.len() == widths.len()
                    &&& forall|p: int|
                        0 <= p < widths.len() ==> self.places_item(
                            *layout,
                            origin_x,
                            row_width,
                            *context,
                            *text_style,
                            *theme,
                            measure,
                            widths,
                            p,
                            #[trigger] placed@[p],
                        )
                },
    {
        let count: usize = layout.items.len();
        let mut placed: Vec<PlacedElement> = Vec::new();
        let ghost mut widths: Seq<SubPixels> = Seq::empty();
        let mut x: RowSubPixels = origin_x as RowSubPixels;
        let mut position: usize = 0;
        while position < count
            invariant
                forall|p: int|
                    0 <= p < layout.items@.len() ==> (#[trigger] layout.items@[p] matches RowItem::Segment(
                        index,
                    ) ==> index < self.segments@.len()),
                forall|color: Color| #[trigger] call_requires(*theme, (color,)),
                forall|element: &RowElement| #[trigger] call_requires(measure, (element,)),
                count == layout.items@.len(),
                position <= count,
                widths.len() == position == placed@.len(),
                x == origin_x + advance(widths, context.lengths.gap, position as nat),
                -0x8000_0000_0000_0000 - 0x1_0000_0000 * position <= x <= 0x8000_0000_0000_0000
                    + 0x1_0000_0000 * position,
                forall|p: int|
                    0 <= p < position ==> self.places_item(
                        *layout,
                        origin_x,
                        row_width,
                        *context,
                        *text_style,
                        *theme,
                        measure,
                        widths,
                        p,
                        #[trigger] placed@[p],
                    ),
            decreases count - position,
        {
            let left: RowSubPixels = origin_x as RowSubPixels + row_width as RowSubPixels - x;
            let max_width: Option<RowSubPixels> = if layout.truncate_last && position == count - 1 {
                if left >= 0 {
                    Some(left)
                } else {
                    Some(0)
                }
            } else {
                None
            };
            let element: RowElement = match layout.items[position] {
                RowItem::Segment(index) => self.render_segment(
                    index,
                    position,
                    count - 1,
                    max_width,
                    context,
                    text_style,
                    theme,
                ),
                RowItem::Ellipsis => RowElement::Ellipsis(
                    self.render_ellipsis(position, count - 1),
                ),
            };
            let width: SubPixels = measure(&element);
            placed.push(PlacedElement { placement: Placement { x, max_width }, element });
            let ghost before = widths;
            proof {
                widths = widths.push(width);
                assert forall|p: int| 0 <= p < position + 1 implies self.places_item(
                    *layout,
                    origin_x,
                    row_width,
                    *context,
                    *text_style,
                    *theme,
                    measure,
                    widths,
                    p,
                    #[trigger] placed@[p],
                ) by {
                    lemma_advance_agree(widths, before, context.lengths.gap, p as nat);
                    if p < position {
                        assert(widths[p] == before[p]);
                    }
                }
                lemma_advance_agree(widths, before, context.lengths.gap, position as nat);
            }
            x = x + width as RowSubPixels + context.lengths.gap as RowSubPixels;
            position = position + 1;
        }
        placed
    }

    /// The item at `position` is painted behind those before it, and `measure` told that it came out
    /// as wide as `widths` has it.
    pub open spec fn places_item<T: Fn(Color) -> Rgba, M: Fn(&RowElement) -> SubPixels>(
        &self,
        layout: RowLayout,
        origin_x: i64,
        row_width: i64,
        context: PaintContext,
        style: TextStyle,
        theme: T,
        measure: M,
        widths: Seq<SubPixels>,
        position: int,
        placed: PlacedElement,
    ) -> bool {
        &&& placed.placement == placement(
            widths,
            context.lengths.gap,
            origin_x,
            row_width,
            layout.truncate_last,
            position,
            layout.items@.len(),
        )
        &&& renders_item(
            self@,
            layout.items@[position],
            position,
            layout.items@.len() - 1,
            placed.placement.max_width,
            context,
            style,
            theme,
            placed.element,
        )
        &&& call_ensures(measure, (&placed.element,), widths[position])
    }
}

} // verus!
