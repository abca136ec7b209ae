//! The segments of the bar, before any of them is left out: the path to the file, or to the
//! directory that a dropdown has moved to, and the symbols around the cursor.

use vstd::prelude::*;

use crate::listing::first_where;
use crate::path::{breadcrumb_path_segments, path_labels, PathContext};
use crate::path_style::PathStyle;
use crate::rel_path::RelPath;
use crate::session::CursorSymbols;
use crate::settings::BreadcrumbDirectoryListingSettings;
use crate::state::{item_range, BreadcrumbNavigation, BreadcrumbSymbolNavigation};
use crate::status::{Color, DiagnosticSummary};
use crate::target::{
    AnchorRange, BreadcrumbSegmentTarget, BufferId, OutlineItem, OutlineItemView,
    SegmentTargetView, WorktreeId,
};
use crate::text::{HighlightedText, HighlightedTextView};

verus! {

/// A worktree of the project.
#[derive(Debug, PartialEq, Eq)]
pub struct Worktree {
    pub id: WorktreeId,
    pub root_name: String,
    /// The worktree is a file opened outside any real worktree: it has no tree to browse.
    pub is_single_file: bool,
}

/// The file that the bar belongs to, and what the project knows of it.
#[derive(Debug, PartialEq, Eq)]
pub struct ItemFile {
    pub worktree_id: WorktreeId,
    pub path: RelPath,
    /// The icon of the file's type.
    pub icon: Option<String>,
    /// The color of the file's git status, where it has one.
    pub status_color: Option<Color>,
    pub diagnostics: DiagnosticSummary,
}

/// What the bar reads from its editor.
pub struct EditorContext {
    /// The buffer that the editor shows, where it shows a single one.
    pub buffer_id: Option<BufferId>,
    /// The worktrees of the editor's project, where it has one.
    pub project: Option<Vec<Worktree>>,
    pub navigation: Option<BreadcrumbNavigation>,
    pub symbol_navigation: Option<BreadcrumbSymbolNavigation>,
    pub outline_symbols_at_cursor: Option<CursorSymbols>,
    pub expanded: bool,
}

/// What the bar reads from its item and the settings.
pub struct BarContext {
    /// The item's editor, where the item is one.
    pub editor: Option<EditorContext>,
    /// The item's file, where it belongs to a project.
    pub file: Option<ItemFile>,
    pub is_dirty: bool,
    /// Something is already shown before the segments: the file's icon, where the tab bar is
    /// hidden.
    pub has_prefix: bool,
    /// The bar is the header of an excerpt, not the editor's own.
    pub multibuffer_header: bool,
    pub tab_bar_shown: bool,
    pub listing: BreadcrumbDirectoryListingSettings,
    /// The color of a file without a git status.
    pub no_status_color: Color,
    /// How the platform spells paths.
    pub path_style: PathStyle,
}

/// The segments of the bar.
#[verifier::ext_equal]
pub struct TrailView {
    pub labels: Seq<HighlightedTextView>,
    pub targets: Seq<Option<SegmentTargetView>>,
    /// Where the file stands, or the last directory of a dropdown that has moved.
    pub file_segment_index: int,
    pub has_root_segment: bool,
}

/// The condition of being the worktree of that id.
pub open spec fn has_id(worktrees: Seq<Worktree>, id: WorktreeId) -> spec_fn(int) -> bool {
    |i: int| worktrees[i].id == id
}

/// The worktree of that id.
pub open spec fn spec_worktree_for_id(worktrees: Seq<Worktree>, id: WorktreeId) -> Option<
    Worktree,
> {
    match first_where(worktrees.len(), has_id(worktrees, id), 0) {
        Some(index) => Some(worktrees[index as int]),
        None => None,
    }
}

/// The worktree of that id.
pub fn worktree_for_id(worktrees: &Vec<Worktree>, id: WorktreeId) -> (worktree: Option<&Worktree>)
    ensures
        match worktree {
            Some(worktree) => spec_worktree_for_id(worktrees@, id) == Some(*worktree),
            None => spec_worktree_for_id(worktrees@, id) is None,
        },
{
    let mut index: usize = 0;
    while index < worktrees.len()
        invariant
            index <= worktrees@.len(),
            first_where(worktrees@.len(), has_id(worktrees@, id), 0) == first_where(
                worktrees@.len(),
                has_id(worktrees@, id),
                index as int,
            ),
        decreases worktrees@.len() - index,
    {
        if worktrees[index].id == id {
            return Some(&worktrees[index]);
        }
        index = index + 1;
    }
    None
}

impl EditorContext {
    /// The worktree of that id in the editor's project.
    pub open spec fn worktree(self, id: WorktreeId) -> Option<Worktree> {
        match self.project {
            Some(worktrees) => spec_worktree_for_id(worktrees@, id),
            None => None,
        }
    }

    /// The directory dropdown has moved away from the file's own path; the bar shows where it
    /// went.
    pub open spec fn navigated(self) -> bool {
        self.navigation matches Some(navigation) && navigation.navigated
    }

    /// The directory that a dropdown is open under.
    pub open spec fn active_segment(self) -> Option<Seq<Seq<char>>> {
        match self.navigation {
            Some(navigation) => Some(navigation.active_path@),
            None => None,
        }
    }

    /// A dropdown is open under the file.
    pub open spec fn file_segment_active(self, buffer_id: BufferId) -> bool {
        self.symbol_navigation matches Some(navigation) && navigation.buffer_id == buffer_id
            && navigation.active_item is None
    }

    /// The symbol dropdown has moved away from the symbols at the cursor; the bar shows where it
    /// went.
    pub open spec fn symbol_navigated(self, buffer_id: BufferId) -> bool {
        self.symbol_navigation matches Some(navigation) && navigation.buffer_id == buffer_id
            && navigation.navigated
    }

    /// The symbol whose trail the bar shows, where a symbol dropdown has moved to one.
    pub open spec fn drilled_item(self, buffer_id: BufferId) -> Option<OutlineItem> {
        if !self.navigated() && self.symbol_navigated(buffer_id) {
            self.symbol_navigation->0.active_item
        } else {
            None
        }
    }

    /// The range of the symbol that a dropdown is open under.
    pub open spec fn active_range(self, buffer_id: BufferId) -> Option<AnchorRange> {
        match self.symbol_navigation {
            Some(navigation) => if navigation.buffer_id == buffer_id {
                item_range(navigation.active_item.deep_view())
            } else {
                None
            },
            None => None,
        }
    }
}

impl BarContext {
    /// The file lies in a tree that can be browsed.
    pub open spec fn is_navigable(self, editor: EditorContext) -> bool {
        self.file matches Some(file) && !(editor.worktree(file.worktree_id) matches Some(worktree)
            && worktree.is_single_file)
    }

    /// The segments of the path that the bar shows, where it shows one.
    pub open spec fn path_split(
        self,
        editor: EditorContext,
        buffer_id: BufferId,
        label_count: nat,
    ) -> Option<(Seq<HighlightedTextView>, Seq<Option<SegmentTargetView>>)> {
        if !self.is_navigable(editor) || label_count == 0 || editor.project is None {
            None
        } else if editor.navigated() {
            let navigation = editor.navigation->0;
            match editor.worktree(navigation.worktree_id) {
                Some(worktree) => Some(
                    (
                        path_labels(worktree.root_name@, navigation.active_path@),
                        (PathContext {
                            worktree_id: navigation.worktree_id,
                            active_path: Some(self.file->0.path@),
                            terminal_buffer_id: None,
                            active_segment: editor.active_segment(),
                            file_segment_active: false,
                        }).targets(navigation.active_path@),
                    ),
                ),
                None => None,
            }
        } else {
            let file = self.file->0;
            match editor.worktree(file.worktree_id) {
                Some(worktree) => Some(
                    (
                        path_labels(worktree.root_name@, file.path@),
                        (PathContext {
                            worktree_id: file.worktree_id,
                            active_path: Some(file.path@),
                            terminal_buffer_id: Some(buffer_id),
                            active_segment: editor.active_segment(),
                            file_segment_active: editor.file_segment_active(buffer_id),
                        }).targets(file.path@),
                    ),
                ),
                None => None,
            }
        }
    }

    /// The path of the bar: its own segments in place of the item's first label, or of all labels
    /// where a dropdown has moved. Where the bar shows no path, the first label still opens the
    /// file's symbols.
    pub open spec fn path_part(
        self,
        editor: EditorContext,
        buffer_id: BufferId,
        labels: Seq<HighlightedTextView>,
    ) -> TrailView {
        match self.path_split(editor, buffer_id, labels.len()) {
            Some((path_labels, path_targets)) => TrailView {
                labels: if editor.navigated() {
                    path_labels
                } else {
                    path_labels + labels.skip(1)
                },
                targets: path_targets,
                file_segment_index: path_labels.len() - 1,
                has_root_segment: true,
            },
            None => TrailView {
                labels,
                targets: seq![
                    Some(
                        SegmentTargetView::Symbol {
                            buffer_id,
                            item: None,
                            is_active_segment: editor.file_segment_active(buffer_id),
                        },
                    ),
                ],
                file_segment_index: 0,
                has_root_segment: false,
            },
        }
    }
}

/// The dropdowns of a symbol trail, of which the last is open.
pub open spec fn drilled_targets(buffer_id: BufferId, trail: Seq<OutlineItemView>) -> Seq<
    Option<SegmentTargetView>,
> {
    Seq::new(
        trail.len(),
        |i: int|
            Some(
                SegmentTargetView::Symbol {
                    buffer_id,
                    item: Some(trail[i]),
                    is_active_segment: i == trail.len() - 1,
                },
            ),
    )
}

/// The dropdowns of the symbols at the cursor, of which the one at `active_range` is open.
pub open spec fn cursor_targets(
    buffer_id: BufferId,
    ancestors: Seq<OutlineItemView>,
    active_range: Option<AnchorRange>,
) -> Seq<Option<SegmentTargetView>> {
    Seq::new(
        ancestors.len(),
        |i: int|
            Some(
                SegmentTargetView::Symbol {
                    buffer_id,
                    item: Some(ancestors[i]),
                    is_active_segment: active_range == Some(ancestors[i].range),
                },
            ),
    )
}

/// The labels of a symbol trail.
pub open spec fn drilled_labels(trail: Seq<OutlineItemView>) -> Seq<HighlightedTextView> {
    Seq::new(trail.len(), |i: int| trail[i].label())
}

/// The first `count` labels, or all where there are fewer.
pub open spec fn first_labels(labels: Seq<HighlightedTextView>, count: int) -> Seq<
    HighlightedTextView,
> {
    if count <= labels.len() {
        labels.take(count)
    } else {
        labels
    }
}

/// The path of the bar and its symbols: those of `trail` where a symbol dropdown has moved, those
/// at the cursor where none has, and none where the bar shows a directory.
pub open spec fn with_symbols(
    editor: EditorContext,
    buffer_id: BufferId,
    part: TrailView,
    trail: Seq<OutlineItemView>,
) -> TrailView {
    if editor.navigated() {
        part
    } else if editor.symbol_navigated(buffer_id) {
        let shown = if editor.drilled_item(buffer_id) is Some {
            trail
        } else {
            Seq::empty()
        };
        TrailView {
            labels: first_labels(part.labels, part.file_segment_index + 1) + drilled_labels(shown),
            targets: part.targets + drilled_targets(buffer_id, shown),
            ..part
        }
    } else {
        TrailView {
            targets: part.targets + cursor_targets(
                buffer_id,
                CursorSymbols::of_buffer(editor.outline_symbols_at_cursor, buffer_id),
                editor.active_range(buffer_id),
            ),
            ..part
        }
    }
}

impl BarContext {
    /// The editor and the single buffer whose path and symbols the bar shows.
    pub open spec fn shown_buffer(self) -> Option<(EditorContext, BufferId)> {
        match self.editor {
            Some(editor) => match editor.buffer_id {
                Some(buffer_id) => if self.multibuffer_header {
                    None
                } else {
                    Some((editor, buffer_id))
                },
                None => None,
            },
            None => None,
        }
    }

    /// The segments of the bar. `labels` are those that the item gives itself, and `trail` is that
    /// of the symbol that a dropdown has moved to.
    pub open spec fn segments(
        self,
        labels: Seq<HighlightedTextView>,
        trail: Seq<OutlineItemView>,
    ) -> TrailView {
        match self.shown_buffer() {
            Some((editor, buffer_id)) => with_symbols(
                editor,
                buffer_id,
                self.path_part(editor, buffer_id, labels),
                trail,
            ),
            None => TrailView {
                labels,
                targets: Seq::empty(),
                file_segment_index: 0,
                has_root_segment: false,
            },
        }
    }

    /// The symbol whose trail the bar shows, and its buffer.
    pub open spec fn drilled(self) -> Option<(BufferId, OutlineItem)> {
        match self.shown_buffer() {
            Some((editor, buffer_id)) => match editor.drilled_item(buffer_id) {
                Some(item) => Some((buffer_id, item)),
                None => None,
            },
            None => None,
        }
    }
}

/// The segments of the bar.
pub struct Trail {
    pub labels: Vec<HighlightedText>,
    pub targets: Vec<Option<BreadcrumbSegmentTarget>>,
    pub file_segment_index: usize,
    pub has_root_segment: bool,
}

impl View for Trail {
    type V = TrailView;

    open spec fn view(&self) -> TrailView {
        TrailView {
            labels: self.labels.deep_view(),
            targets: self.targets.deep_view(),
            file_segment_index: self.file_segment_index as int,
            has_root_segment: self.has_root_segment,
        }
    }
}

impl EditorContext {
    fn is_navigated(&self) -> (navigated: bool)
        ensures
            navigated == self.navigated(),
    {
        match &self.navigation {
            Some(navigation) => navigation.navigated,
            None => false,
        }
    }

    fn is_symbol_navigated(&self, buffer_id: BufferId) -> (navigated: bool)
        ensures
            navigated == self.symbol_navigated(buffer_id),
    {
        match &self.symbol_navigation {
            Some(navigation) => navigation.buffer_id == buffer_id && navigation.navigated,
            None => false,
        }
    }

    fn is_file_segment_active(&self, buffer_id: BufferId) -> (active: bool)
        ensures
            active == self.file_segment_active(buffer_id),
    {
        match &self.symbol_navigation {
            Some(navigation) => navigation.buffer_id == buffer_id
                && navigation.active_item.is_none(),
            None => false,
        }
    }
}

impl BarContext {
    fn check_navigable(&self, editor: &EditorContext) -> (navigable: bool)
        ensures
            navigable == self.is_navigable(*editor),
    {
        match &self.file {
            Some(file) => match &editor.project {
                Some(worktrees) => match worktree_for_id(worktrees, file.worktree_id) {
                    Some(worktree) => !worktree.is_single_file,
                    None => true,
                },
                None => true,
            },
            None => false,
        }
    }

    /// The segments of the path that the bar shows, where it shows one.
    fn split_path(
        &self,
        editor: &EditorContext,
        buffer_id: BufferId,
        label_count: usize,
    ) -> (split: Option<(Vec<HighlightedText>, Vec<Option<BreadcrumbSegmentTarget>>)>)
        ensures
            match self.path_split(*editor, buffer_id, label_count as nat) {
                Some((labels, targets)) => {
                    &&& split matches Some(parts) && parts.0.deep_view() == labels
                        && parts.1.deep_view() == targets
                    &&& labels.len() > 0
                },
                None => split is None,
            },
    {
        if !self.check_navigable(editor) || label_count == 0 {
            return None;
        }
        let worktrees: &Vec<Worktree> = match &editor.project {
            Some(worktrees) => worktrees,
            None => {
                return None;
            },
        };
        let file: &ItemFile = match &self.file {
            Some(file) => file,
            None => {
                return None;
            },
        };
        let active_segment: Option<&RelPath> = match &editor.navigation {
            Some(navigation) => Some(&navigation.active_path),
            None => None,
        };
        assert(active_segment.deep_view() == editor.active_segment());
        match &editor.navigation {
            Some(navigation) if navigation.navigated => {
                match worktree_for_id(worktrees, navigation.worktree_id) {
                    Some(worktree) => Some(
                        breadcrumb_path_segments(
                            navigation.worktree_id,
                            worktree.root_name.as_str(),
                            &navigation.active_path,
                            Some(file.path.clone()),
                            None,
                            active_segment,
                            false,
                        ),
                    ),
                    None => None,
                }
            },
            _ => match worktree_for_id(worktrees, file.worktree_id) {
                Some(worktree) => Some(
                    breadcrumb_path_segments(
                        file.worktree_id,
                        worktree.root_name.as_str(),
                        &file.path,
                        Some(file.path.clone()),
                        Some(buffer_id),
                        active_segment,
                        editor.is_file_segment_active(buffer_id),
                    ),
                ),
                None => None,
            },
        }
    }

    /// The path of the bar.
    fn build_path_part(
        &self,
        editor: &EditorContext,
        buffer_id: BufferId,
        labels: Vec<HighlightedText>,
    ) -> (part: Trail)
        ensures
            part@ == self.path_part(*editor, buffer_id, labels.deep_view()),
    {
        let ghost given = labels.deep_view();
        assert(given.len() == labels@.len());
        match self.split_path(editor, buffer_id, labels.len()) {
            Some((path_labels, path_targets)) => {
                let ghost path_view = path_labels.deep_view();
                assert(path_view.len() == path_labels@.len());
                let file_segment_index: usize = path_labels.len() - 1;
                let mut shown: Vec<HighlightedText> = path_labels;
                if !editor.is_navigated() {
                    let mut rest: Vec<HighlightedText> = labels;
                    let mut tail: Vec<HighlightedText> = rest.split_off(1);
                    shown.append(&mut tail);
                    assert(shown.deep_view() =~= path_view + given.skip(1));
                }
                Trail {
                    labels: shown,
                    targets: path_targets,
                    file_segment_index,
                    has_root_segment: true,
                }
            },
            None => {
                let mut targets: Vec<Option<BreadcrumbSegmentTarget>> = Vec::new();
                targets.push(
                    Some(
                        BreadcrumbSegmentTarget::Symbol {
                            buffer_id,
                            item: None,
                            is_active_segment: editor.is_file_segment_active(buffer_id),
                        },
                    ),
                );
                let part = Trail {
                    labels,
                    targets,
                    file_segment_index: 0,
                    has_root_segment: false,
                };
                assert(part@.targets =~= self.path_part(*editor, buffer_id, given).targets);
                part
            },
        }
    }
}

/// Replaces what follows the file by the trail of the symbol that a dropdown has moved to.
fn append_drilled(part: Trail, buffer_id: BufferId, trail: Vec<OutlineItem>) -> (shown: Trail)
    requires
        part.file_segment_index < usize::MAX,
    ensures
        shown@ == (TrailView {
            labels: first_labels(part@.labels, part@.file_segment_index + 1) + drilled_labels(
                trail.deep_view(),
            ),
            targets: part@.targets + drilled_targets(buffer_id, trail.deep_view()),
            ..part@
        }),
{
    let mut labels: Vec<HighlightedText> = part.labels;
    let mut targets: Vec<Option<BreadcrumbSegmentTarget>> = part.targets;
    let ghost kept = first_labels(part@.labels, part@.file_segment_index + 1);
    labels.truncate(part.file_segment_index + 1);
    assert(labels.deep_view() =~= kept);
    let ghost items = trail.deep_view();
    let mut index: usize = 0;
    assert(labels.deep_view() =~= kept + drilled_labels(items).take(0));
    assert(targets.deep_view() =~= part@.targets + drilled_targets(buffer_id, items).take(0));
    while index < trail.len()
        invariant
            index <= trail@.len(),
            items == trail.deep_view(),
            labels.deep_view() == kept + drilled_labels(items).take(index as int),
            targets.deep_view() == part@.targets + drilled_targets(buffer_id, items).take(
                index as int,
            ),
        decreases trail@.len() - index,
    {
        let ghost labels_before = labels.deep_view();
        let ghost targets_before = targets.deep_view();
        let item: &OutlineItem = &trail[index];
        assert(item@ == items[index as int]);
        let label: HighlightedText = item.label();
        labels.push(label);
        let target: Option<BreadcrumbSegmentTarget> = Some(
            BreadcrumbSegmentTarget::Symbol {
                buffer_id,
                item: Some(item.clone()),
                is_active_segment: index == trail.len() - 1,
            },
        );
        targets.push(target);
        proof {
            assert(labels.deep_view() =~= labels_before.push(label@));
            assert(targets.deep_view() =~= targets_before.push(target.deep_view()));
            assert(drilled_labels(items).take(index + 1) =~= drilled_labels(items).take(
                index as int,
            ).push(label@));
            assert(drilled_targets(buffer_id, items).take(index + 1) =~= drilled_targets(
                buffer_id,
                items,
            ).take(index as int).push(target.deep_view()));
            assert(labels.deep_view() =~= kept + drilled_labels(items).take(index + 1));
            assert(targets.deep_view() =~= part@.targets + drilled_targets(buffer_id, items).take(
                index + 1,
            ));
        }
        index = index + 1;
    }
    proof {
        assert(drilled_labels(items).take(index as int) =~= drilled_labels(items));
        assert(drilled_targets(buffer_id, items).take(index as int) =~= drilled_targets(
            buffer_id,
            items,
        ));
    }
    Trail {
        labels,
        targets,
        file_segment_index: part.file_segment_index,
        has_root_segment: part.has_root_segment,
    }
}

/// Appends the dropdowns of the symbols at the cursor; the item gives their labels itself.
fn append_cursor_symbols(
    part: Trail,
    buffer_id: BufferId,
    ancestors: &[OutlineItem],
    active_range: Option<AnchorRange>,
) -> (shown: Trail)
    ensures
        shown@ == (TrailView {
            targets: part@.targets + cursor_targets(
                buffer_id,
                ancestors.deep_view(),
                active_range,
            ),
            ..part@
        }),
{
    let mut targets: Vec<Option<BreadcrumbSegmentTarget>> = part.targets;
    let ghost items = ancestors.deep_view();
    let ghost all = cursor_targets(buffer_id, items, active_range);
    let mut index: usize = 0;
    assert(targets.deep_view() =~= part@.targets + all.take(0));
    while index < ancestors.len()
        invariant
            index <= ancestors@.len(),
            items == ancestors.deep_view(),
            all == cursor_targets(buffer_id, items, active_range),
            targets.deep_view() == part@.targets + all.take(index as int),
        decreases ancestors@.len() - index,
    {
        let ghost before = targets.deep_view();
        let item: &OutlineItem = &ancestors[index];
        assert(item@ == items[index as int]);
        let is_active_segment: bool = match active_range {
            Some(range) => range == item.range,
            None => false,
        };
        let target: Option<BreadcrumbSegmentTarget> = Some(
            BreadcrumbSegmentTarget::Symbol {
                buffer_id,
                item: Some(item.clone()),
                is_active_segment,
            },
        );
        targets.push(target);
        proof {
            assert(targets.deep_view() =~= before.push(target.deep_view()));
            assert(all.take(index + 1) =~= all.take(index as int).push(target.deep_view()));
            assert(targets.deep_view() =~= part@.targets + all.take(index + 1));
        }
        index = index + 1;
    }
    assert(all.take(index as int) =~= all);
    Trail {
        labels: part.labels,
        targets,
        file_segment_index: part.file_segment_index,
        has_root_segment: part.has_root_segment,
    }
}

impl BarContext {
    /// The symbol whose trail the bar shows, and its buffer.
    pub fn drilled_symbol(&self) -> (drilled: Option<(BufferId, &OutlineItem)>)
        ensures
            match drilled {
                Some((buffer_id, item)) => self.drilled() == Some((buffer_id, *item)),
                None => self.drilled() is None,
            },
    {
        let editor: &EditorContext = match &self.editor {
            Some(editor) => editor,
            None => {
                return None;
            },
        };
        let buffer_id: BufferId = match editor.buffer_id {
            Some(buffer_id) => buffer_id,
            None => {
                return None;
            },
        };
        if self.multibuffer_header || editor.is_navigated() {
            return None;
        }
        match &editor.symbol_navigation {
            Some(navigation) => if navigation.buffer_id == buffer_id && navigation.navigated {
                match &navigation.active_item {
                    Some(item) => Some((buffer_id, item)),
                    None => None,
                }
            } else {
                None
            },
            None => None,
        }
    }

    /// The segments of the bar. `labels` are those that the item gives itself, and `trail` is that
    /// of [`Self::drilled_symbol`].
    pub fn build_segments(
        &self,
        labels: Vec<HighlightedText>,
        trail: Vec<OutlineItem>,
    ) -> (shown: Trail)
        ensures
            shown@ == self.segments(labels.deep_view(), trail.deep_view()),
    {
        let shown_buffer: Option<(&EditorContext, BufferId)> = match &self.editor {
            Some(editor) => match editor.buffer_id {
                Some(buffer_id) => if self.multibuffer_header {
                    None
                } else {
                    Some((editor, buffer_id))
                },
                None => None,
            },
            None => None,
        };
        let (editor, buffer_id): (&EditorContext, BufferId) = match shown_buffer {
            Some(shown) => shown,
            None => {
                let shown = Trail {
                    labels,
                    targets: Vec::new(),
                    file_segment_index: 0,
                    has_root_segment: false,
                };
                assert(shown@.targets =~= Seq::<Option<SegmentTargetView>>::empty());
                return shown;
            },
        };
        let part: Trail = self.build_path_part(editor, buffer_id, labels);
        let part_count: usize = part.labels.len();
        proof {
            let view = self.path_part(*editor, buffer_id, labels.deep_view());
            assert(part@.labels.len() == part_count);
            assert(view.file_segment_index == 0 || view.file_segment_index < view.labels.len());
        }
        if editor.is_navigated() {
            return part;
        }
        if editor.is_symbol_navigated(buffer_id) {
            let drilled: bool = match &editor.symbol_navigation {
                Some(navigation) => navigation.active_item.is_some(),
                None => false,
            };
            if drilled {
                append_drilled(part, buffer_id, trail)
            } else {
                let nothing: Vec<OutlineItem> = Vec::new();
                assert(nothing.deep_view() =~= Seq::<OutlineItemView>::empty());
                append_drilled(part, buffer_id, nothing)
            }
        } else {
            let active_range: Option<AnchorRange> = match &editor.symbol_navigation {
                Some(navigation) => if navigation.buffer_id == buffer_id {
                    match &navigation.active_item {
                        Some(item) => Some(item.range),
                        None => None,
                    }
                } else {
                    None
                },
                None => None,
            };
            match &editor.outline_symbols_at_cursor {
                Some(symbols) if symbols.buffer_id == buffer_id => append_cursor_symbols(
                    part,
                    buffer_id,
                    symbols.ancestors.as_slice(),
                    active_range,
                ),
                _ => {
                    proof {
                        assert(part@.targets + cursor_targets(
                            buffer_id,
                            Seq::empty(),
                            active_range,
                        ) =~= part@.targets);
                    }
                    part
                },
            }
        }
    }
}

} // verus!
