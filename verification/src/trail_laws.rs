//! What the bar of an item shows, told from the item, its file and its dropdowns alone.

use vstd::prelude::*;

use crate::layout::BreadcrumbSegmentKind;
use crate::listing::{first_where, lemma_first_where, lemma_last_where};
use crate::segments::{
    aligned_targets, capped_range, ellipsis_text, is_middle, segment_kinds, spliced,
};
use crate::session::CursorSymbols;
use crate::settings::ShowDiagnostics;
use crate::state::{BreadcrumbNavigation, BreadcrumbSymbolNavigation};
use crate::status::Color;
use crate::target::{BufferId, OutlineItemView, SegmentTargetView, WorktreeId};
use crate::text::{bare_text, HighlightedTextView};
use crate::trail::{
    has_id, spec_worktree_for_id, BarContext, EditorContext, ItemFile, Worktree,
};

verus! {

/// The worktree found under an id is the first one that has it; none is found only where none has.
pub proof fn law_the_first_worktree_of_an_id_is_found(worktrees: Seq<Worktree>, id: WorktreeId, i: int)
    requires
        0 <= i < worktrees.len() <= usize::MAX,
        worktrees[i].id == id,
        forall|j: int| 0 <= j < i ==> (#[trigger] worktrees[j]).id != id,
    ensures
        spec_worktree_for_id(worktrees, id) == Some(worktrees[i]),
{
    let keep = has_id(worktrees, id);
    lemma_first_where(worktrees.len(), keep, 0);
    assert(keep(i));
    let found = first_where(worktrees.len(), keep, 0)->0 as int;
    assert(keep(found));
    assert(worktrees[found].id == id);
}

/// No worktree is found under an id that none has.
pub proof fn law_no_worktree_is_found_under_a_foreign_id(worktrees: Seq<Worktree>, id: WorktreeId)
    requires
        worktrees.len() <= usize::MAX,
        forall|j: int| 0 <= j < worktrees.len() ==> (#[trigger] worktrees[j]).id != id,
    ensures
        spec_worktree_for_id(worktrees, id) is None,
{
    let keep = has_id(worktrees, id);
    lemma_first_where(worktrees.len(), keep, 0);
    if let Some(found) = first_where(worktrees.len(), keep, 0) {
        assert(keep(found as int));
        assert(worktrees[found as int].id == id);
    }
}

/// The symbols at the cursor count for the buffer they were found in and for no other.
pub proof fn law_cursor_symbols_are_of_their_buffer(symbols: CursorSymbols, buffer_id: BufferId)
    ensures
        CursorSymbols::of_buffer(None, buffer_id).len() == 0,
        symbols.buffer_id != buffer_id ==> CursorSymbols::of_buffer(
            Some(symbols),
            buffer_id,
        ).len() == 0,
        symbols.buffer_id == buffer_id ==> CursorSymbols::of_buffer(Some(symbols), buffer_id).len()
            == symbols.ancestors@.len() && forall|i: int|
            0 <= i < symbols.ancestors@.len() ==> #[trigger] CursorSymbols::of_buffer(
                Some(symbols),
                buffer_id,
            )[i] == symbols.ancestors@[i]@,
{
}

/// As long as no dropdown has moved, the bar ends with one dropdown for each symbol at the cursor,
/// outermost first, and exactly the one is open whose symbol the session names by its range.
pub proof fn law_the_open_dropdown_hangs_under_its_own_symbol(
    context: BarContext,
    editor: EditorContext,
    symbols: CursorSymbols,
    labels: Seq<HighlightedTextView>,
    trail: Seq<OutlineItemView>,
    i: int,
)
    requires
        context.editor == Some(editor),
        editor.buffer_id == Some(symbols.buffer_id),
        !context.multibuffer_header,
        editor.navigation matches Some(navigation) ==> !navigation.navigated,
        editor.symbol_navigation matches Some(navigation) ==> !(navigation.buffer_id
            == symbols.buffer_id && navigation.navigated),
        editor.outline_symbols_at_cursor == Some(symbols),
        0 <= i < symbols.ancestors@.len(),
    ensures
        ({
            let targets = context.segments(labels, trail).targets;
            let item = symbols.ancestors@[i];
            let at = targets.len() - symbols.ancestors@.len() + i;
            &&& 0 < at < targets.len()
            &&& targets[at] == Some(
                SegmentTargetView::Symbol {
                    buffer_id: symbols.buffer_id,
                    item: Some(item@),
                    is_active_segment: match editor.symbol_navigation {
                        Some(navigation) => navigation.buffer_id == symbols.buffer_id && (
                        match navigation.active_item {
                            Some(open) => open.range == item.range,
                            None => false,
                        }),
                        None => false,
                    },
                },
            )
        }),
{
    let part = context.path_part(editor, symbols.buffer_id, labels);
    assert(part.targets.len() > 0);
}

/// The bar shows the path to its file: the worktree's root, each directory with the dropdown that
/// lists it, and the file with its own; exactly the dropdown is open that the session names. What
/// the item itself says behind its path stays behind it.
pub proof fn law_the_bar_shows_the_path_to_its_file(
    context: BarContext,
    editor: EditorContext,
    buffer_id: BufferId,
    file: ItemFile,
    worktree: Worktree,
    labels: Seq<HighlightedTextView>,
    trail: Seq<OutlineItemView>,
    i: int,
)
    requires
        context.editor == Some(editor),
        editor.buffer_id == Some(buffer_id),
        !context.multibuffer_header,
        context.file == Some(file),
        editor.project is Some,
        spec_worktree_for_id(editor.project->0@, file.worktree_id) == Some(worktree),
        !worktree.is_single_file,
        labels.len() > 0,
        editor.navigation matches Some(navigation) ==> !navigation.navigated,
        0 <= i <= file.path@.len(),
    ensures
        ({
            let shown = context.segments(labels, trail);
            let path = file.path@;
            &&& shown.has_root_segment
            &&& shown.file_segment_index == path.len()
            &&& shown.labels.len() > path.len()
            &&& shown.targets.len() > path.len()
            &&& shown.labels[i].highlights.len() == 0
            &&& shown.labels[i].text == if i == 0 {
                worktree.root_name@
            } else {
                path[i - 1]
            }
            &&& shown.targets[i] == Some(
                if 0 < i && i == path.len() {
                    SegmentTargetView::Symbol {
                        buffer_id,
                        item: None,
                        is_active_segment: match editor.symbol_navigation {
                            Some(navigation) => navigation.buffer_id == buffer_id
                                && navigation.active_item is None,
                            None => false,
                        },
                    }
                } else {
                    SegmentTargetView::Directory {
                        worktree_id: file.worktree_id,
                        path: path.take(i),
                        active_path: Some(path),
                        is_active_segment: match editor.navigation {
                            Some(navigation) => navigation.active_path@ == path.take(i),
                            None => false,
                        },
                    }
                },
            )
            &&& !(editor.symbol_navigation matches Some(navigation) && navigation.buffer_id
                == buffer_id && navigation.navigated) ==> {
                &&& shown.labels.len() == path.len() + labels.len()
                &&& forall|j: int|
                    1 <= j < labels.len() ==> shown.labels[path.len() + j] == #[trigger] labels[j]
            }
        }),
{
    let part = context.path_part(editor, buffer_id, labels);
    let shown = context.segments(labels, trail);
    assert(part.labels.len() == file.path@.len() + labels.len());
    assert forall|j: int| 1 <= j < labels.len() implies part.labels[file.path@.len() + j]
        == #[trigger] labels[j] by {
        assert(labels.skip(1)[j - 1] == labels[j]);
    }
    assert(shown.labels[i] == part.labels[i]);
    assert(shown.targets[i] == part.targets[i]);
}

/// Once a directory dropdown has moved, the bar shows the path to the directory it went to and
/// nothing else: the root of its worktree and each directory, of which the last has its dropdown
/// open.
pub proof fn law_the_bar_follows_a_moved_directory_dropdown(
    context: BarContext,
    editor: EditorContext,
    buffer_id: BufferId,
    file: ItemFile,
    navigation: BreadcrumbNavigation,
    worktree: Worktree,
    labels: Seq<HighlightedTextView>,
    trail: Seq<OutlineItemView>,
    i: int,
)
    requires
        context.editor == Some(editor),
        editor.buffer_id == Some(buffer_id),
        !context.multibuffer_header,
        context.file == Some(file),
        editor.project is Some,
        spec_worktree_for_id(editor.project->0@, file.worktree_id) matches Some(home)
            ==> !home.is_single_file,
        labels.len() > 0,
        editor.navigation == Some(navigation),
        navigation.navigated,
        spec_worktree_for_id(editor.project->0@, navigation.worktree_id) == Some(worktree),
        0 <= i <= navigation.active_path@.len(),
    ensures
        ({
            let shown = context.segments(labels, trail);
            let path = navigation.active_path@;
            &&& shown.labels.len() == path.len() + 1
            &&& shown.targets.len() == path.len() + 1
            &&& shown.has_root_segment
            &&& shown.file_segment_index == path.len()
            &&& shown.labels[i].highlights.len() == 0
            &&& shown.labels[i].text == if i == 0 {
                worktree.root_name@
            } else {
                path[i - 1]
            }
            &&& shown.targets[i] == Some(
                SegmentTargetView::Directory {
                    worktree_id: navigation.worktree_id,
                    path: path.take(i),
                    active_path: Some(file.path@),
                    is_active_segment: i == path.len(),
                },
            )
        }),
{
    let path = navigation.active_path@;
    assert(path.take(path.len() as int) =~= path);
    if i < path.len() {
        assert(path.take(i).len() != path.len());
    }
}

/// Once a symbol dropdown has moved, what follows the file is the trail of the symbol it went to,
/// of which the last has its dropdown open; and nothing where it went to the file itself.
pub proof fn law_the_bar_follows_a_moved_symbol_dropdown(
    context: BarContext,
    editor: EditorContext,
    buffer_id: BufferId,
    navigation: BreadcrumbSymbolNavigation,
    labels: Seq<HighlightedTextView>,
    trail: Seq<OutlineItemView>,
    i: int,
)
    requires
        context.editor == Some(editor),
        editor.buffer_id == Some(buffer_id),
        !context.multibuffer_header,
        editor.navigation matches Some(navigation) ==> !navigation.navigated,
        editor.symbol_navigation == Some(navigation),
        navigation.buffer_id == buffer_id,
        navigation.navigated,
        labels.len() > 0,
    ensures
        ({
            let shown = context.segments(labels, trail);
            let path = shown.file_segment_index + 1;
            let count = if navigation.active_item is Some {
                trail.len()
            } else {
                0
            };
            &&& context.drilled() == match navigation.active_item {
                Some(item) => Some((buffer_id, item)),
                None => None,
            }
            &&& shown.labels.len() == path + count
            &&& shown.targets.len() == path + count
            &&& 0 <= i < count ==> {
                &&& shown.labels[path + i].text == trail[i].text
                &&& shown.labels[path + i].highlights == trail[i].highlight_ranges
                &&& shown.targets[path + i] == Some(
                    SegmentTargetView::Symbol {
                        buffer_id,
                        item: Some(trail[i]),
                        is_active_segment: i == count - 1,
                    },
                )
            }
        }),
{
    let part = context.path_part(editor, buffer_id, labels);
    assert(part.labels.len() >= part.file_segment_index + 1);
}

/// Where the bar shows no path, it starts with the item's own label and the file's dropdown, whatever
/// has moved: the labels stay whole unless a symbol dropdown has moved, which leaves the first alone.
/// There is no path where the item has no file or no label, where the project is gone, where the
/// file lies in a worktree of a single file, and where the worktree is gone that the path would be
/// of: the file's own, or the one that a moved directory dropdown is in.
pub proof fn law_a_bar_without_a_path_starts_with_the_file(
    context: BarContext,
    editor: EditorContext,
    buffer_id: BufferId,
    labels: Seq<HighlightedTextView>,
    trail: Seq<OutlineItemView>,
)
    requires
        context.editor == Some(editor),
        editor.buffer_id == Some(buffer_id),
        !context.multibuffer_header,
        ({
            ||| context.file is None
            ||| editor.project is None
            ||| labels.len() == 0
            ||| spec_worktree_for_id(
                editor.project->0@,
                context.file->0.worktree_id,
            ) matches Some(home) && home.is_single_file
            ||| editor.navigation matches Some(navigation) && navigation.navigated
                && spec_worktree_for_id(editor.project->0@, navigation.worktree_id) is None
            ||| !(editor.navigation matches Some(navigation) && navigation.navigated)
                && spec_worktree_for_id(editor.project->0@, context.file->0.worktree_id) is None
        }),
    ensures
        ({
            let shown = context.segments(labels, trail);
            let moved = editor.navigation matches Some(navigation) && navigation.navigated;
            let moved_symbol = editor.symbol_navigation matches Some(navigation)
                && navigation.buffer_id == buffer_id && navigation.navigated;
            &&& shown.file_segment_index == 0
            &&& !shown.has_root_segment
            &&& shown.targets.len() > 0
            &&& shown.targets[0] == Some(
                SegmentTargetView::Symbol {
                    buffer_id,
                    item: None,
                    is_active_segment: match editor.symbol_navigation {
                        Some(navigation) => navigation.buffer_id == buffer_id
                            && navigation.active_item is None,
                        None => false,
                    },
                },
            )
            &&& labels.len() > 0 ==> shown.labels.len() > 0 && shown.labels[0] == labels[0]
            &&& moved || !moved_symbol ==> shown.labels == labels
            &&& moved ==> shown.targets.len() == 1
        }),
{
}

/// As long as no dropdown has moved there is one dropdown for each segment of the path and one for
/// each symbol at the cursor of the bar's own buffer, and no more.
pub proof fn law_one_dropdown_for_each_segment(
    context: BarContext,
    editor: EditorContext,
    buffer_id: BufferId,
    labels: Seq<HighlightedTextView>,
    trail: Seq<OutlineItemView>,
)
    requires
        context.editor == Some(editor),
        editor.buffer_id == Some(buffer_id),
        !context.multibuffer_header,
        editor.navigation matches Some(navigation) ==> !navigation.navigated,
        editor.symbol_navigation matches Some(navigation) ==> !(navigation.buffer_id == buffer_id
            && navigation.navigated),
    ensures
        ({
            let shown = context.segments(labels, trail);
            let symbols = match editor.outline_symbols_at_cursor {
                Some(symbols) => if symbols.buffer_id == buffer_id {
                    symbols.ancestors@.len()
                } else {
                    0
                },
                None => 0,
            };
            shown.targets.len() == shown.file_segment_index + 1 + symbols
        }),
{
}

/// A symbol dropdown that has moved leaves a bar without labels with those of the trail alone.
pub proof fn law_a_moved_symbol_dropdown_labels_an_empty_bar(
    context: BarContext,
    editor: EditorContext,
    buffer_id: BufferId,
    navigation: BreadcrumbSymbolNavigation,
    trail: Seq<OutlineItemView>,
    i: int,
)
    requires
        context.editor == Some(editor),
        editor.buffer_id == Some(buffer_id),
        !context.multibuffer_header,
        editor.navigation matches Some(navigation) ==> !navigation.navigated,
        editor.symbol_navigation == Some(navigation),
        navigation.buffer_id == buffer_id,
        navigation.navigated,
        0 <= i < trail.len(),
    ensures
        ({
            let shown = context.segments(Seq::empty(), trail);
            &&& navigation.active_item is None ==> shown.labels.len() == 0 && shown.targets.len()
                == 1
            &&& navigation.active_item is Some ==> shown.labels.len() == trail.len()
                && shown.targets.len() == trail.len() + 1 && shown.labels[i].text == trail[i].text
                && shown.labels[i].highlights == trail[i].highlight_ranges
                && shown.targets[i + 1] == Some(
                SegmentTargetView::Symbol {
                    buffer_id,
                    item: Some(trail[i]),
                    is_active_segment: i + 1 == trail.len(),
                },
            )
        }),
{
}

/// The header of a multibuffer, and a bar without an editor or a buffer, shows the item's labels and
/// opens nothing.
pub proof fn law_a_bar_of_no_buffer_opens_nothing(
    context: BarContext,
    labels: Seq<HighlightedTextView>,
    trail: Seq<OutlineItemView>,
)
    requires
        context.multibuffer_header || context.editor is None || context.editor->0.buffer_id is None,
    ensures
        ({
            let shown = context.segments(labels, trail);
            &&& shown.labels == labels
            &&& shown.targets.len() == 0
            &&& shown.file_segment_index == 0
            &&& !shown.has_root_segment
            &&& context.drilled() is None
        }),
{
}

/// No trail is looked up unless a symbol dropdown of the bar's own buffer has moved and no directory
/// dropdown has.
pub proof fn law_a_trail_is_only_looked_up_for_a_moved_symbol_dropdown(context: BarContext)
    ensures
        context.drilled() matches Some((buffer_id, item)) ==> {
            &&& !context.multibuffer_header
            &&& context.editor is Some
            &&& context.editor->0.buffer_id == Some(buffer_id)
            &&& context.editor->0.symbol_navigation matches Some(navigation)
                && navigation.buffer_id == buffer_id && navigation.navigated
                && navigation.active_item == Some(item)
            &&& context.editor->0.navigation matches Some(navigation) ==> !navigation.navigated
        },
{
}

/// The directories of a path lie before its file, which lies before its symbols; only the first
/// segment is a root, and only where there is one.
pub proof fn law_segments_are_told_apart_by_where_they_stand(
    segment_count: nat,
    file_segment_index: int,
    has_root_segment: bool,
    i: int,
)
    requires
        0 <= i < segment_count,
    ensures
        segment_kinds(segment_count, file_segment_index, has_root_segment).len() == segment_count,
        ({
            let kind = segment_kinds(segment_count, file_segment_index, has_root_segment)[i];
            &&& kind is File <==> i == file_segment_index
            &&& kind is Symbol <==> i > file_segment_index
            &&& kind is Root <==> i == 0 && has_root_segment && i < file_segment_index
            &&& kind is Middle <==> i < file_segment_index && !(i == 0 && has_root_segment)
        }),
{
}

/// Targets that do not line up with the labels are all left out; else each stays with its label.
pub proof fn law_targets_stay_with_their_labels(
    count: nat,
    targets: Seq<Option<SegmentTargetView>>,
    i: int,
)
    requires
        0 <= i < count,
    ensures
        aligned_targets(count, targets).len() == count,
        targets.len() == count ==> aligned_targets(count, targets)[i] == targets[i],
        targets.len() != count ==> aligned_targets(count, targets)[i] is None,
{
}

/// More than sixty-four directories in a row are cut down to thirty-two at either end, with one
/// ellipsis between them, unless the row is expanded; everything else stays as it is and where it
/// is. `items` are what the row shows of its segments, and `item` is what the cap puts in.
pub proof fn law_the_hard_cap_keeps_both_ends<T>(
    segment_count: nat,
    file_segment_index: int,
    has_root_segment: bool,
    items: Seq<T>,
    item: T,
)
    requires
        0 <= file_segment_index < segment_count <= usize::MAX,
        items.len() == segment_count,
    ensures
        ({
            let kinds = segment_kinds(segment_count, file_segment_index, has_root_segment);
            let first = if has_root_segment {
                1int
            } else {
                0int
            };
            let cut = file_segment_index - first - 64;
            &&& capped_range(kinds, true) is None
            &&& capped_range(kinds, false) is Some <==> cut > 0
            &&& capped_range(kinds, false) matches Some((start, end)) ==> {
                let shown = spliced(items, start, end, item);
                &&& shown.len() == segment_count - cut + 1
                &&& forall|j: int| 0 <= j < first + 32 ==> #[trigger] shown[j] == items[j]
                &&& shown[first + 32] == item
                &&& forall|j: int|
                    first + 32 < j < shown.len() ==> #[trigger] shown[j] == items[j + cut - 1]
                &&& start == first + 32
            }
        }),
{
    let kinds = segment_kinds(segment_count, file_segment_index, has_root_segment);
    let keep = is_middle(kinds);
    let first = if has_root_segment {
        1int
    } else {
        0int
    };
    lemma_first_where(kinds.len(), keep, 0);
    lemma_last_where(kinds.len(), keep);
    if first < file_segment_index {
        assert(keep(first));
        assert(keep(file_segment_index - 1));
        assert(!keep(first - 1) || first == 0);
    }
}

/// The row holds what the bar shows: every label with its target, but for the directories that the
/// cap cuts out and the one ellipsis that it puts in their place.
pub proof fn law_the_row_holds_what_the_bar_shows(
    context: BarContext,
    labels: Seq<HighlightedTextView>,
    trail: Seq<OutlineItemView>,
    i: int,
)
    requires
        context.segments(labels, trail).labels.len() <= usize::MAX,
        0 <= i < context.row(labels, trail).segments.len(),
    ensures
        ({
            let shown = context.segments(labels, trail);
            let row = context.row(labels, trail);
            let count = shown.labels.len();
            let cut = count - row.segments.len();
            let segment = row.segments[i];
            let first = if shown.has_root_segment {
                1int
            } else {
                0int
            };
            let from = if cut == 0 && !segment.hard_cap_ellipsis || i < first + 32 {
                i
            } else {
                i + cut
            };
            &&& cut >= 0
            &&& segment.hard_cap_ellipsis ==> {
                &&& !row.expanded
                &&& i == first + 32
                &&& segment.label == bare_text(ellipsis_text())
                &&& segment.target is None
                &&& segment.kind is Middle
            }
            &&& !segment.hard_cap_ellipsis ==> {
                &&& segment.label == shown.labels[from]
                &&& segment.kind == segment_kinds(
                    count,
                    shown.file_segment_index,
                    shown.has_root_segment,
                )[from]
                &&& shown.targets.len() == count ==> segment.target == shown.targets[from]
                &&& shown.targets.len() != count ==> segment.target is None
            }
            &&& cut > 0 ==> row.segments[first + 32].hard_cap_ellipsis
        }),
{
    let shown = context.segments(labels, trail);
    let count = shown.labels.len();
    let kinds = segment_kinds(count, shown.file_segment_index, shown.has_root_segment);
    assert(shown.file_segment_index >= 0) by {
        if let Some((editor, buffer_id)) = context.shown_buffer() {
            let part = context.path_part(editor, buffer_id, labels);
            assert(part.file_segment_index >= 0);
        }
    }
    let keep = is_middle(kinds);
    lemma_first_where(kinds.len(), keep, 0);
    lemma_last_where(kinds.len(), keep);
    if let Some((start, end)) = capped_range(kinds, context.is_expanded()) {
        let first = if shown.has_root_segment {
            1int
        } else {
            0int
        };
        assert(start == first + 32) by {
            assert(keep(start - 32));
            assert(!keep(first - 1) || first == 0);
            assert(keep(first)) by {
                if !keep(first) {
                    assert(kinds[start - 32] is Middle);
                }
            }
        }
        let targets = aligned_targets(count, shown.targets);
        let capped = spliced(targets, start, end, None);
        assert(targets.len() == count);
        if i > start {
            assert(capped[i] == targets[i - start - 1 + end]);
        }
    }
}

/// What the row takes over from the editor and the item.
pub proof fn law_the_row_belongs_to_its_editor(
    context: BarContext,
    labels: Seq<HighlightedTextView>,
    trail: Seq<OutlineItemView>,
)
    ensures
        ({
            let row = context.row(labels, trail);
            &&& row.has_editor <==> context.editor is Some
            &&& row.expanded <==> context.editor is Some && context.editor->0.expanded
                && !context.multibuffer_header
            &&& row.file_outlives_symbols <==> !context.tab_bar_shown
            &&& row.multibuffer_header == context.multibuffer_header
            &&& row.path_style == context.path_style
        }),
{
}

/// The tint of a file with that many errors and warnings.
pub open spec fn tint(errors: int, warnings: int, shown: ShowDiagnostics) -> Color {
    match shown {
        ShowDiagnostics::Off => Color::Muted,
        ShowDiagnostics::Errors => if errors > 0 {
            Color::Error
        } else {
            Color::Muted
        },
        ShowDiagnostics::All => if errors > 0 {
            Color::Error
        } else if warnings > 0 {
            Color::Warning
        } else {
            Color::Muted
        },
    }
}

/// The file's segment carries the file's own icon, tint, color and dirty mark, each only where it is
/// shown; every other segment is muted and bare.
pub proof fn law_the_file_segment_carries_the_files_marks(
    context: BarContext,
    labels: Seq<HighlightedTextView>,
    trail: Seq<OutlineItemView>,
    i: int,
)
    requires
        context.segments(labels, trail).labels.len() <= usize::MAX,
        0 <= i < context.row(labels, trail).segments.len(),
    ensures
        ({
            let segment = context.row(labels, trail).segments[i];
            let is_file = segment.kind is File && (segment.target matches Some(
                SegmentTargetView::Symbol { item: None, .. },
            ));
            let shows_buffer = context.editor is Some && context.editor->0.buffer_id is Some
                && !context.multibuffer_header;
            let in_project = shows_buffer && context.editor->0.project is Some && context.file
                is Some;
            let with_icon = shows_buffer && !context.has_prefix && context.listing.file_icons;
            &&& !is_file ==> segment.icon is None && segment.icon_color is Muted
                && segment.label_color is Muted && !segment.dirty_filename_style
            &&& is_file ==> {
                &&& segment.dirty_filename_style <==> context.is_dirty && !context.tab_bar_shown
                &&& segment.icon == if with_icon && context.file is Some {
                    context.file->0.icon.deep_view()
                } else {
                    None
                }
                &&& segment.icon_color == if with_icon && in_project {
                    tint(
                        context.file->0.diagnostics.error_count as int,
                        context.file->0.diagnostics.warning_count as int,
                        context.listing.show_diagnostics,
                    )
                } else {
                    Color::Muted
                }
                &&& segment.label_color == if in_project && context.listing.git_status
                    && context.file->0.status_color is Some {
                    context.file->0.status_color->0
                } else {
                    context.no_status_color
                }
            }
        }),
{
    let shown = context.segments(labels, trail);
    let count = shown.labels.len();
    let kinds = segment_kinds(count, shown.file_segment_index, shown.has_root_segment);
    assert(shown.file_segment_index >= 0) by {
        if let Some((editor, buffer_id)) = context.shown_buffer() {
            let part = context.path_part(editor, buffer_id, labels);
            assert(part.file_segment_index >= 0);
        }
    }
    let keep = is_middle(kinds);
    lemma_first_where(kinds.len(), keep, 0);
    lemma_last_where(kinds.len(), keep);
    if let Some((start, end)) = capped_range(kinds, context.is_expanded()) {
        let capped = spliced(kinds, start, end, BreadcrumbSegmentKind::Middle);
        if i > start {
            assert(capped[i] == kinds[i - start - 1 + end]);
        } else if i < start {
            assert(capped[i] == kinds[i]);
        }
    }
}

} // verus!
