//! The row of segments that the bar paints, and how it is prepared from what the bar shows.

use vstd::prelude::*;

use crate::layout::BreadcrumbSegmentKind;
use crate::listing::{lemma_first_where, lemma_last_where};
use crate::path_style::PathStyle;
use crate::segments::{
    align_symbol_segments, aligned_targets, capped_range, classify_breadcrumb_segment_kinds,
    ellipsis_text, hard_cap_breadcrumb_middle_segments, is_middle, segment_kinds, spliced,
};
use crate::status::{bar_file_icon_color, file_icon_color, Color, DiagnosticSummary};
use crate::target::{BreadcrumbSegmentTarget, BufferId, OutlineItem, OutlineItemView, SegmentTargetView};
use crate::text::{bare_text, HighlightedText, HighlightedTextView};
use crate::trail::{BarContext, ItemFile, Trail};

verus! {

/// A segment, ready to be measured and painted.
#[derive(Debug, PartialEq, Eq)]
pub struct PreparedBreadcrumbSegment {
    pub kind: BreadcrumbSegmentKind,
    pub label: HighlightedText,
    pub target: Option<BreadcrumbSegmentTarget>,
    /// The segment names a file with unsaved changes, and nothing else on screen shows that.
    pub dirty_filename_style: bool,
    pub icon: Option<String>,
    /// Diagnostics tint the icon and git status owns the label, as in the project panel.
    pub icon_color: Color,
    pub label_color: Color,
    /// The hard cap's "⋯" pseudo-segment: rendered as an expand trigger, like a layout ellipsis.
    pub hard_cap_ellipsis: bool,
}

/// What a [`PreparedBreadcrumbSegment`] holds.
#[verifier::ext_equal]
pub struct PreparedSegmentView {
    pub kind: BreadcrumbSegmentKind,
    pub label: HighlightedTextView,
    pub target: Option<SegmentTargetView>,
    pub dirty_filename_style: bool,
    pub icon: Option<Seq<char>>,
    pub icon_color: Color,
    pub label_color: Color,
    pub hard_cap_ellipsis: bool,
}

impl View for PreparedBreadcrumbSegment {
    type V = PreparedSegmentView;

    open spec fn view(&self) -> PreparedSegmentView {
        PreparedSegmentView {
            kind: self.kind,
            label: self.label@,
            target: self.target.deep_view(),
            dirty_filename_style: self.dirty_filename_style,
            icon: self.icon.deep_view(),
            icon_color: self.icon_color,
            label_color: self.label_color,
            hard_cap_ellipsis: self.hard_cap_ellipsis,
        }
    }
}

impl DeepView for PreparedBreadcrumbSegment {
    type V = PreparedSegmentView;

    open spec fn deep_view(&self) -> PreparedSegmentView {
        self.view()
    }
}

/// The row of segments. How many of them fit depends on its real width.
#[derive(Debug, PartialEq, Eq)]
pub struct BreadcrumbsRow {
    pub segments: Vec<PreparedBreadcrumbSegment>,
    /// The row belongs to an editor, which its dropdowns act on.
    pub has_editor: bool,
    /// Set by clicking the ellipsis: renders every segment instead of dropping any.
    pub expanded: bool,
    pub file_outlives_symbols: bool,
    /// An excerpt header row: its ellipsis must render as a plain marker, since it can never
    /// expand.
    pub multibuffer_header: bool,
    /// How the labels that are paths are spelled.
    pub path_style: PathStyle,
}

/// What a [`BreadcrumbsRow`] holds.
#[verifier::ext_equal]
pub struct RowView {
    pub segments: Seq<PreparedSegmentView>,
    pub has_editor: bool,
    pub expanded: bool,
    pub file_outlives_symbols: bool,
    pub multibuffer_header: bool,
    pub path_style: PathStyle,
}

impl View for BreadcrumbsRow {
    type V = RowView;

    open spec fn view(&self) -> RowView {
        RowView {
            segments: self.segments.deep_view(),
            has_editor: self.has_editor,
            expanded: self.expanded,
            file_outlives_symbols: self.file_outlives_symbols,
            multibuffer_header: self.multibuffer_header,
            path_style: self.path_style,
        }
    }
}

impl BarContext {
    /// The file's icon. At most one is on screen: the prefix already shows it.
    pub open spec fn shown_file_icon(self) -> Option<Seq<char>> {
        if self.has_prefix || !self.listing.file_icons || self.shown_buffer() is None {
            None
        } else {
            match self.file {
                Some(file) => file.icon.deep_view(),
                None => None,
            }
        }
    }

    /// The editor's project knows the file.
    pub open spec fn is_in_project(self) -> bool {
        self.shown_buffer() matches Some((editor, _)) && editor.project is Some && self.file is Some
    }

    /// The tint of the file's icon.
    pub open spec fn shown_icon_color(self) -> Color {
        if self.shown_buffer() is None || self.has_prefix || !self.listing.file_icons {
            Color::Muted
        } else {
            file_icon_color(
                if self.is_in_project() {
                    Some(self.file->0.diagnostics)
                } else {
                    None
                },
                self.listing.show_diagnostics,
            )
        }
    }

    /// The color of the file's label.
    pub open spec fn shown_label_color(self) -> Color {
        if self.listing.git_status && self.is_in_project() && self.file->0.status_color is Some {
            self.file->0.status_color->0
        } else {
            self.no_status_color
        }
    }

    /// The row shows every segment. A multibuffer excerpt header has no scroll container, so its
    /// row never expands.
    pub open spec fn is_expanded(self) -> bool {
        self.editor matches Some(editor) && editor.expanded && !self.multibuffer_header
    }

    /// The file has unsaved changes, and the hidden tab bar does not show that.
    pub open spec fn marks_dirty_file(self) -> bool {
        !self.tab_bar_shown && self.is_dirty
    }

    /// The segment at `index`, ready to be painted. A bar whose dropdown has moved can have a
    /// directory where the file was; only the bare file target counts as the file.
    pub open spec fn prepared(
        self,
        index: int,
        label: HighlightedTextView,
        target: Option<SegmentTargetView>,
        kind: BreadcrumbSegmentKind,
        file_segment_index: int,
        hard_cap_index: Option<usize>,
    ) -> PreparedSegmentView {
        let is_file_segment = kind == BreadcrumbSegmentKind::File && target is Some
            && target->0.is_file();
        PreparedSegmentView {
            kind,
            label,
            target,
            dirty_filename_style: self.marks_dirty_file() && index == file_segment_index
                && is_file_segment,
            icon: if is_file_segment {
                self.shown_file_icon()
            } else {
                None
            },
            icon_color: if is_file_segment {
                self.shown_icon_color()
            } else {
                Color::Muted
            },
            label_color: if is_file_segment {
                self.shown_label_color()
            } else {
                Color::Muted
            },
            hard_cap_ellipsis: hard_cap_index == Some(index as usize),
        }
    }

    /// A row of segments, ready to be painted.
    pub open spec fn prepared_segments(
        self,
        labels: Seq<HighlightedTextView>,
        targets: Seq<Option<SegmentTargetView>>,
        kinds: Seq<BreadcrumbSegmentKind>,
        file_segment_index: int,
        hard_cap_index: Option<usize>,
    ) -> Seq<PreparedSegmentView> {
        Seq::new(
            labels.len(),
            |i: int|
                self.prepared(
                    i,
                    labels[i],
                    targets[i],
                    kinds[i],
                    file_segment_index,
                    hard_cap_index,
                ),
        )
    }

    /// The row that the bar shows. `labels` are those that the item gives itself, and `trail` is
    /// that of the symbol that a dropdown has moved to.
    pub open spec fn row(
        self,
        labels: Seq<HighlightedTextView>,
        trail: Seq<OutlineItemView>,
    ) -> RowView {
        let shown = self.segments(labels, trail);
        let count = shown.labels.len();
        let targets = aligned_targets(count, shown.targets);
        let kinds = segment_kinds(count, shown.file_segment_index, shown.has_root_segment);
        RowView {
            segments: match capped_range(kinds, self.is_expanded()) {
                None => self.prepared_segments(
                    shown.labels,
                    targets,
                    kinds,
                    shown.file_segment_index,
                    None,
                ),
                Some((start, end)) => self.prepared_segments(
                    spliced(shown.labels, start, end, bare_text(ellipsis_text())),
                    spliced(targets, start, end, None),
                    spliced(kinds, start, end, BreadcrumbSegmentKind::Middle),
                    shown.file_segment_index - (end - start - 1),
                    Some(start as usize),
                ),
            },
            has_editor: self.editor is Some,
            expanded: self.is_expanded(),
            file_outlives_symbols: !self.tab_bar_shown,
            multibuffer_header: self.multibuffer_header,
            path_style: self.path_style,
        }
    }
}

/// Everything that the cap cuts out lies before the file.
proof fn lemma_capped_before_file(
    segment_count: nat,
    file_segment_index: int,
    has_root_segment: bool,
    expanded: bool,
)
    requires
        segment_count <= usize::MAX,
        0 <= file_segment_index,
    ensures
        capped_range(
            segment_kinds(segment_count, file_segment_index, has_root_segment),
            expanded,
        ) matches Some((start, end)) ==> {
            &&& 0 <= start < end <= segment_count
            &&& end <= file_segment_index
        },
{
    let kinds = segment_kinds(segment_count, file_segment_index, has_root_segment);
    lemma_first_where(kinds.len(), is_middle(kinds), 0);
    lemma_last_where(kinds.len(), is_middle(kinds));
}

/// A copy of an optional text.
fn clone_optional_text(text: &Option<String>) -> (copy: Option<String>)
    ensures
        copy.deep_view() == text.deep_view(),
{
    match text {
        Some(text) => Some(text.clone()),
        None => None,
    }
}

/// A copy of an optional target.
pub fn clone_optional_target(target: &Option<BreadcrumbSegmentTarget>) -> (copy: Option<
    BreadcrumbSegmentTarget,
>)
    ensures
        copy.deep_view() == target.deep_view(),
{
    match target {
        Some(target) => Some(target.clone()),
        None => None,
    }
}

impl BarContext {
    fn check_expanded(&self) -> (expanded: bool)
        ensures
            expanded == self.is_expanded(),
    {
        if self.multibuffer_header {
            return false;
        }
        match &self.editor {
            Some(editor) => editor.expanded,
            None => false,
        }
    }

    fn check_shows_buffer(&self) -> (shows: bool)
        ensures
            shows == (self.shown_buffer() is Some),
    {
        if self.multibuffer_header {
            return false;
        }
        match &self.editor {
            Some(editor) => editor.buffer_id.is_some(),
            None => false,
        }
    }

    fn file_in_project(&self) -> (file: Option<&ItemFile>)
        ensures
            match file {
                Some(file) => self.is_in_project() && self.file == Some(*file),
                None => !self.is_in_project(),
            },
    {
        if !self.check_shows_buffer() {
            return None;
        }
        match (&self.editor, &self.file) {
            (Some(editor), Some(file)) => if editor.project.is_some() {
                Some(file)
            } else {
                None
            },
            _ => None,
        }
    }

    fn file_icon(&self) -> (icon: Option<String>)
        ensures
            icon.deep_view() == self.shown_file_icon(),
    {
        if self.has_prefix || !self.listing.file_icons || !self.check_shows_buffer() {
            return None;
        }
        match &self.file {
            Some(file) => clone_optional_text(&file.icon),
            None => None,
        }
    }

    fn icon_color(&self) -> (color: Color)
        ensures
            color == self.shown_icon_color(),
    {
        if !self.check_shows_buffer() || self.has_prefix || !self.listing.file_icons {
            return Color::Muted;
        }
        let summary: Option<DiagnosticSummary> = match self.file_in_project() {
            Some(file) => Some(file.diagnostics),
            None => None,
        };
        bar_file_icon_color(summary, self.listing.show_diagnostics)
    }

    fn label_color(&self) -> (color: Color)
        ensures
            color == self.shown_label_color(),
    {
        if !self.listing.git_status {
            return self.no_status_color;
        }
        match self.file_in_project() {
            Some(file) => match file.status_color {
                Some(color) => color,
                None => self.no_status_color,
            },
            None => self.no_status_color,
        }
    }

    /// Prepares a row of segments.
    fn prepare_segments(
        &self,
        labels: &Vec<HighlightedText>,
        targets: &Vec<Option<BreadcrumbSegmentTarget>>,
        kinds: &Vec<BreadcrumbSegmentKind>,
        file_segment_index: usize,
        hard_cap_index: Option<usize>,
    ) -> (segments: Vec<PreparedBreadcrumbSegment>)
        requires
            targets@.len() == labels@.len(),
            kinds@.len() == labels@.len(),
        ensures
            segments.deep_view() == self.prepared_segments(
                labels.deep_view(),
                targets.deep_view(),
                kinds@,
                file_segment_index as int,
                hard_cap_index,
            ),
    {
        let file_icon: Option<String> = self.file_icon();
        let file_icon_color: Color = self.icon_color();
        let file_label_color: Color = self.label_color();
        let marks_dirty_file: bool = !self.tab_bar_shown && self.is_dirty;
        let ghost all = self.prepared_segments(
            labels.deep_view(),
            targets.deep_view(),
            kinds@,
            file_segment_index as int,
            hard_cap_index,
        );
        let mut segments: Vec<PreparedBreadcrumbSegment> = Vec::new();
        let mut index: usize = 0;
        while index < labels.len()
            invariant
                index <= labels@.len(),
                targets@.len() == labels@.len(),
                kinds@.len() == labels@.len(),
                file_icon.deep_view() == self.shown_file_icon(),
                file_icon_color == self.shown_icon_color(),
                file_label_color == self.shown_label_color(),
                marks_dirty_file == self.marks_dirty_file(),
                all == self.prepared_segments(
                    labels.deep_view(),
                    targets.deep_view(),
                    kinds@,
                    file_segment_index as int,
                    hard_cap_index,
                ),
                segments@.len() == index,
                forall|i: int| 0 <= i < index ==> (#[trigger] segments@[i])@ == all[i],
            decreases labels@.len() - index,
        {
            let kind: BreadcrumbSegmentKind = kinds[index];
            let is_file_segment: bool = kind == BreadcrumbSegmentKind::File && match &targets[index] {
                Some(target) => target.is_file(),
                None => false,
            };
            let is_cap: bool = match hard_cap_index {
                Some(cap) => cap == index,
                None => false,
            };
            let segment = PreparedBreadcrumbSegment {
                kind,
                label: labels[index].clone(),
                target: clone_optional_target(&targets[index]),
                dirty_filename_style: marks_dirty_file && index == file_segment_index
                    && is_file_segment,
                icon: if is_file_segment {
                    clone_optional_text(&file_icon)
                } else {
                    None
                },
                icon_color: if is_file_segment {
                    file_icon_color
                } else {
                    Color::Muted
                },
                label_color: if is_file_segment {
                    file_label_color
                } else {
                    Color::Muted
                },
                hard_cap_ellipsis: is_cap,
            };
            assert(labels.deep_view()[index as int] == labels@[index as int]@);
            assert(targets.deep_view()[index as int] == targets@[index as int].deep_view());
            assert(segment@ =~= all[index as int]);
            segments.push(segment);
            index = index + 1;
        }
        assert(segments.deep_view() =~= all);
        segments
    }

    /// The row that the bar shows. `labels` are those that the item gives itself, and `trail` is
    /// that of [`Self::drilled_symbol`].
    pub fn build_row(&self, labels: Vec<HighlightedText>, trail: Vec<OutlineItem>) -> (row:
        BreadcrumbsRow)
        ensures
            row@ == self.row(labels.deep_view(), trail.deep_view()),
    {
        let expanded: bool = self.check_expanded();
        let shown: Trail = self.build_segments(labels, trail);
        let segments: Vec<HighlightedText> = shown.labels;
        let count: usize = segments.len();
        let targets: Vec<Option<BreadcrumbSegmentTarget>> = align_symbol_segments(
            segments.as_slice(),
            shown.targets,
        );
        let kinds: Vec<BreadcrumbSegmentKind> = classify_breadcrumb_segment_kinds(
            segments.len(),
            shown.file_segment_index,
            shown.has_root_segment,
        );
        proof {
            lemma_capped_before_file(
                count as nat,
                shown.file_segment_index as int,
                shown.has_root_segment,
                expanded,
            );
            assert(targets.deep_view().len() == targets@.len());
        }
        let (segments, targets, kinds, file_segment_index, hard_cap_index) =
            hard_cap_breadcrumb_middle_segments(
            segments,
            targets,
            kinds,
            shown.file_segment_index,
            expanded,
        );
        assert(segments.deep_view().len() == segments@.len());
        assert(targets.deep_view().len() == targets@.len());
        let prepared: Vec<PreparedBreadcrumbSegment> = self.prepare_segments(
            &segments,
            &targets,
            &kinds,
            file_segment_index,
            hard_cap_index,
        );
        BreadcrumbsRow {
            segments: prepared,
            has_editor: self.editor.is_some(),
            expanded,
            file_outlives_symbols: !self.tab_bar_shown,
            multibuffer_header: self.multibuffer_header,
            path_style: self.path_style,
        }
    }
}

/// The bar, ready to be shown.
#[derive(Debug, PartialEq, Eq)]
pub struct BreadcrumbBar {
    pub row: BreadcrumbsRow,
    /// The row scrolls horizontally; an excerpt header's has a border before it instead.
    pub scrolls: bool,
    /// A mouse-down anywhere on the bar keeps its trail expanded through the dismissal that the
    /// same click causes.
    pub notes_mouse_down: bool,
    /// A right click on the bar copies the file's path, unless a segment takes the click.
    pub copies_file_path: bool,
}

/// The bar of an item. `segments` are the labels that the item gives itself; `symbol_trail` looks
/// up the trail of the symbol that a dropdown has moved to.
pub fn render_breadcrumb_text<T: Fn(BufferId, &OutlineItem) -> Vec<OutlineItem>>(
    segments: Vec<HighlightedText>,
    context: &BarContext,
    symbol_trail: T,
) -> (bar: BreadcrumbBar)
    requires
        forall|buffer_id: BufferId, item: &OutlineItem| #[trigger]
            call_requires(symbol_trail, (buffer_id, item)),
    ensures
        exists|trail: Vec<OutlineItem>|
            {
                &&& context.drilled() matches Some((buffer_id, item)) ==> call_ensures(
                    symbol_trail,
                    (buffer_id, &item),
                    trail,
                )
                &&& bar.row@ == context.row(segments.deep_view(), #[trigger] trail.deep_view())
            },
        bar.scrolls == !context.multibuffer_header,
        bar.notes_mouse_down == (context.editor is Some),
        bar.copies_file_path == (context.editor is Some && !context.multibuffer_header
            && context.file is Some),
{
    let trail: Vec<OutlineItem> = match context.drilled_symbol() {
        Some((buffer_id, item)) => symbol_trail(buffer_id, item),
        None => Vec::new(),
    };
    let ghost shown = trail;
    let row: BreadcrumbsRow = context.build_row(segments, trail);
    assert(row@ == context.row(segments.deep_view(), shown.deep_view()));
    BreadcrumbBar {
        row,
        scrolls: !context.multibuffer_header,
        notes_mouse_down: context.editor.is_some(),
        copies_file_path: context.editor.is_some() && !context.multibuffer_header
            && context.file.is_some(),
    }
}

} // verus!
