//! What a segment of the bar stands for: a directory of the worktree, the file, or a symbol of
//! its outline.

use vstd::prelude::*;

use crate::rel_path::RelPath;
use crate::text::{Highlight, HighlightedText, HighlightedTextView};

verus! {

/// Identifies an open buffer.
#[derive(Clone, Copy, Debug, PartialEq, Eq, Structural)]
pub struct BufferId(pub u64);

/// Identifies a worktree of the project.
#[derive(Clone, Copy, Debug, PartialEq, Eq, Structural)]
pub struct WorktreeId(pub usize);

/// A stretch of a buffer between two anchors, each under the host's own key.
#[derive(Clone, Copy, Debug, PartialEq, Eq, Structural)]
pub struct AnchorRange {
    pub start: u64,
    pub end: u64,
}

/// One symbol of an outline.
#[derive(Debug, PartialEq, Eq)]
pub struct OutlineItem {
    pub depth: usize,
    pub range: AnchorRange,
    /// Where the cursor goes when the symbol is chosen.
    pub selection_range: AnchorRange,
    pub text: String,
    pub highlight_ranges: Vec<Highlight>,
}

/// What an [`OutlineItem`] holds.
#[verifier::ext_equal]
pub struct OutlineItemView {
    pub depth: usize,
    pub range: AnchorRange,
    pub selection_range: AnchorRange,
    pub text: Seq<char>,
    pub highlight_ranges: Seq<Highlight>,
}

impl View for OutlineItem {
    type V = OutlineItemView;

    open spec fn view(&self) -> OutlineItemView {
        OutlineItemView {
            depth: self.depth,
            range: self.range,
            selection_range: self.selection_range,
            text: self.text@,
            highlight_ranges: self.highlight_ranges@,
        }
    }
}

impl DeepView for OutlineItem {
    type V = OutlineItemView;

    open spec fn deep_view(&self) -> OutlineItemView {
        self.view()
    }
}

impl Clone for OutlineItem {
    fn clone(&self) -> (copy: OutlineItem)
        ensures
            copy@ == self@,
    {
        let highlight_ranges = self.highlight_ranges.clone();
        assert(highlight_ranges@ =~= self.highlight_ranges@);
        OutlineItem {
            depth: self.depth,
            range: self.range,
            selection_range: self.selection_range,
            text: self.text.clone(),
            highlight_ranges,
        }
    }
}

impl OutlineItemView {
    /// The symbol's label.
    pub open spec fn label(&self) -> HighlightedTextView {
        HighlightedTextView { text: self.text, highlights: self.highlight_ranges }
    }
}

impl OutlineItem {
    /// The symbol's label.
    pub fn label(&self) -> (label: HighlightedText)
        ensures
            label@ == self@.label(),
    {
        let highlights = self.highlight_ranges.clone();
        assert(highlights@ =~= self.highlight_ranges@);
        HighlightedText { text: self.text.clone(), highlights }
    }
}

/// A copy of an optional item.
pub fn clone_optional_item(item: &Option<OutlineItem>) -> (copy: Option<OutlineItem>)
    ensures
        copy.deep_view() == item.deep_view(),
{
    match item {
        Some(item) => Some(item.clone()),
        None => None,
    }
}

/// A copy of an optional path.
pub fn clone_optional_path(path: &Option<RelPath>) -> (copy: Option<RelPath>)
    ensures
        copy.deep_view() == path.deep_view(),
{
    match path {
        Some(path) => Some(path.clone()),
        None => None,
    }
}

/// A copy of a list of items.
pub fn clone_items(items: &[OutlineItem]) -> (copy: Vec<OutlineItem>)
    ensures
        copy.deep_view() == items.deep_view(),
{
    let mut copy: Vec<OutlineItem> = Vec::new();
    let mut index: usize = 0;
    while index < items.len()
        invariant
            index <= items@.len(),
            copy@.len() == index,
            forall|i: int| 0 <= i < index ==> (#[trigger] copy@[i])@ == items@[i]@,
        decreases items@.len() - index,
    {
        copy.push(items[index].clone());
        index = index + 1;
    }
    assert(copy.deep_view() =~= items.deep_view());
    copy
}

/// The dropdown that a segment opens.
#[derive(Debug, PartialEq, Eq)]
pub enum BreadcrumbSegmentTarget {
    /// The file itself where there is no `item`.
    Symbol { buffer_id: BufferId, item: Option<OutlineItem>, is_active_segment: bool },
    Directory {
        worktree_id: WorktreeId,
        path: RelPath,
        active_path: Option<RelPath>,
        is_active_segment: bool,
    },
}

/// What a [`BreadcrumbSegmentTarget`] holds.
#[verifier::ext_equal]
pub enum SegmentTargetView {
    Symbol { buffer_id: BufferId, item: Option<OutlineItemView>, is_active_segment: bool },
    Directory {
        worktree_id: WorktreeId,
        path: Seq<Seq<char>>,
        active_path: Option<Seq<Seq<char>>>,
        is_active_segment: bool,
    },
}

impl View for BreadcrumbSegmentTarget {
    type V = SegmentTargetView;

    open spec fn view(&self) -> SegmentTargetView {
        match self {
            BreadcrumbSegmentTarget::Symbol { buffer_id, item, is_active_segment } =>
                SegmentTargetView::Symbol {
                    buffer_id: *buffer_id,
                    item: item.deep_view(),
                    is_active_segment: *is_active_segment,
                },
            BreadcrumbSegmentTarget::Directory {
                worktree_id,
                path,
                active_path,
                is_active_segment,
            } => SegmentTargetView::Directory {
                worktree_id: *worktree_id,
                path: path@,
                active_path: active_path.deep_view(),
                is_active_segment: *is_active_segment,
            },
        }
    }
}

impl DeepView for BreadcrumbSegmentTarget {
    type V = SegmentTargetView;

    open spec fn deep_view(&self) -> SegmentTargetView {
        self.view()
    }
}

impl Clone for BreadcrumbSegmentTarget {
    fn clone(&self) -> (copy: BreadcrumbSegmentTarget)
        ensures
            copy@ == self@,
    {
        match self {
            BreadcrumbSegmentTarget::Symbol { buffer_id, item, is_active_segment } =>
                BreadcrumbSegmentTarget::Symbol {
                    buffer_id: *buffer_id,
                    item: clone_optional_item(item),
                    is_active_segment: *is_active_segment,
                },
            BreadcrumbSegmentTarget::Directory {
                worktree_id,
                path,
                active_path,
                is_active_segment,
            } => BreadcrumbSegmentTarget::Directory {
                worktree_id: *worktree_id,
                path: path.clone(),
                active_path: clone_optional_path(active_path),
                is_active_segment: *is_active_segment,
            },
        }
    }
}

impl SegmentTargetView {
    /// A dropdown is open under the segment.
    pub open spec fn is_active(self) -> bool {
        match self {
            SegmentTargetView::Symbol { is_active_segment, .. } => is_active_segment,
            SegmentTargetView::Directory { is_active_segment, .. } => is_active_segment,
        }
    }

    /// The segment stands for the file itself.
    pub open spec fn is_file(self) -> bool {
        self is Symbol && self->item is None
    }
}

impl BreadcrumbSegmentTarget {
    /// Whether a dropdown is open under the segment.
    pub fn is_active(&self) -> (active: bool)
        ensures
            active == self@.is_active(),
    {
        match self {
            BreadcrumbSegmentTarget::Symbol { is_active_segment, .. } => *is_active_segment,
            BreadcrumbSegmentTarget::Directory { is_active_segment, .. } => *is_active_segment,
        }
    }

    /// Whether the segment stands for the file itself.
    pub fn is_file(&self) -> (file: bool)
        ensures
            file == self@.is_file(),
    {
        match self {
            BreadcrumbSegmentTarget::Symbol { item, .. } => item.is_none(),
            BreadcrumbSegmentTarget::Directory { .. } => false,
        }
    }
}

} // verus!
