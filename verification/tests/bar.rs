use breadcrumbs::layout::{
    BreadcrumbLayoutPlan, BreadcrumbSegmentKind, BreadcrumbSegmentMetrics, RowSubPixels,
};
use breadcrumbs::measure::{
    ceil_to_device_pixel, segment_text_runs, shape_ellipsis, shape_segment, RowLengths, ShapedText,
    TextRun,
};
use breadcrumbs::paint::{dismiss_orphan, AvailableSpace, Placement, RowItem, RowLayout};
use breadcrumbs::path_style::PathStyle;
use breadcrumbs::rel_path::RelPath;
use breadcrumbs::render::{
    EllipsisElement, PaintContext, PlacedElement, RowElement, SegmentElement, SegmentTrigger,
};
use breadcrumbs::row::{render_breadcrumb_text, BreadcrumbsRow, PreparedBreadcrumbSegment};
use breadcrumbs::session::CursorSymbols;
use breadcrumbs::settings::{
    BreadcrumbDirectoryListingSettings, ProjectPanelSortMode, ProjectPanelSortOrder,
    ShowDiagnostics,
};
use breadcrumbs::state::{
    BreadcrumbNavigation, BreadcrumbState, BreadcrumbSymbolNavigation,
    ErasedBreadcrumbPopoverHandle,
};
use breadcrumbs::status::{Color, DiagnosticSummary};
use breadcrumbs::target::{
    AnchorRange, BreadcrumbSegmentTarget, BufferId, OutlineItem, WorktreeId,
};
use breadcrumbs::text::{FontWeight, HighlightedText, StyledText, TextStyle};
use breadcrumbs::trail::{BarContext, EditorContext, ItemFile, Worktree};

fn rel_path(text: &str) -> RelPath {
    RelPath::from_unix_str(text).unwrap()
}

fn label(text: &str) -> HighlightedText {
    HighlightedText {
        text: text.to_string(),
        highlights: vec![],
    }
}

fn item(text: &str, start: u64) -> OutlineItem {
    OutlineItem {
        depth: 0,
        range: AnchorRange {
            start,
            end: start + 10,
        },
        selection_range: AnchorRange { start, end: start },
        text: text.to_string(),
        highlight_ranges: vec![],
    }
}

fn listing() -> BreadcrumbDirectoryListingSettings {
    BreadcrumbDirectoryListingSettings {
        sort_mode: ProjectPanelSortMode::DirectoriesFirst,
        sort_order: ProjectPanelSortOrder::Default,
        hide_gitignore: false,
        hide_hidden: false,
        file_icons: true,
        folder_icons: true,
        git_status: true,
        show_diagnostics: ShowDiagnostics::All,
        diagnostic_badges: false,
        auto_fold_dirs: true,
    }
}

fn context() -> BarContext {
    BarContext {
        editor: Some(EditorContext {
            buffer_id: Some(BufferId(1)),
            project: Some(vec![Worktree {
                id: WorktreeId(0),
                root_name: "my-project".to_string(),
                is_single_file: false,
            }]),
            navigation: None,
            symbol_navigation: None,
            outline_symbols_at_cursor: Some(CursorSymbols {
                buffer_id: BufferId(1),
                ancestors: vec![item("impl A", 0), item("fn b", 20)],
            }),
            expanded: false,
        }),
        file: Some(ItemFile {
            worktree_id: WorktreeId(0),
            path: rel_path("src/main.rs"),
            icon: Some("icons/rust.svg".to_string()),
            status_color: Some(Color::Modified),
            diagnostics: DiagnosticSummary {
                error_count: 1,
                warning_count: 0,
            },
        }),
        is_dirty: false,
        has_prefix: false,
        multibuffer_header: false,
        path_style: PathStyle::Posix,
        tab_bar_shown: true,
        listing: listing(),
        no_status_color: Color::Default,
    }
}

fn item_labels() -> Vec<HighlightedText> {
    vec![label("src/main.rs"), label("impl A"), label("fn b")]
}

fn no_trail(_: BufferId, _: &OutlineItem) -> Vec<OutlineItem> {
    unreachable!()
}

fn texts(row: &BreadcrumbsRow) -> Vec<&str> {
    row.segments
        .iter()
        .map(|segment| segment.label.text.as_str())
        .collect()
}

fn active(row: &BreadcrumbsRow) -> Vec<usize> {
    (0..row.segments.len())
        .filter(|index| match &row.segments[*index].target {
            Some(target) => target.is_active(),
            None => false,
        })
        .collect()
}

#[test]
fn a_file_shows_its_path_and_the_symbols_at_the_cursor() {
    let bar = render_breadcrumb_text(item_labels(), &context(), no_trail);
    let row = &bar.row;
    assert_eq!(
        texts(row),
        vec!["my-project", "src", "main.rs", "impl A", "fn b"]
    );
    let kinds: Vec<BreadcrumbSegmentKind> = row.kinds();
    assert_eq!(
        kinds,
        vec![
            BreadcrumbSegmentKind::Root,
            BreadcrumbSegmentKind::Middle,
            BreadcrumbSegmentKind::File,
            BreadcrumbSegmentKind::Symbol,
            BreadcrumbSegmentKind::Symbol,
        ]
    );
    assert!(active(row).is_empty());
    assert_eq!(row.anchored_segment_index(), None);
    assert_eq!(
        row.segments[4].target,
        Some(BreadcrumbSegmentTarget::Symbol {
            buffer_id: BufferId(1),
            item: Some(item("fn b", 20)),
            is_active_segment: false,
        })
    );
    assert_eq!(row.segments[2].icon.as_deref(), Some("icons/rust.svg"));
    assert_eq!(row.segments[2].icon_color, Color::Error);
    assert_eq!(row.segments[2].label_color, Color::Modified);
    assert_eq!(row.segments[1].icon, None);
    assert_eq!(row.segments[1].label_color, Color::Muted);
    assert!(row.has_editor);
    assert!(!row.expanded);
    assert!(!row.file_outlives_symbols);
    assert!(bar.scrolls);
    assert!(bar.notes_mouse_down);
    assert!(bar.copies_file_path);
}

#[test]
fn a_prefix_already_shows_the_icon() {
    let mut context = context();
    context.has_prefix = true;
    let row = render_breadcrumb_text(item_labels(), &context, no_trail).row;
    assert!(row.segments.iter().all(|segment| segment.icon.is_none()));
    assert_eq!(row.segments[2].icon_color, Color::Muted);
    assert_eq!(row.segments[2].label_color, Color::Modified);
}

#[test]
fn settings_switch_icons_and_status_off() {
    let mut context = context();
    context.listing.file_icons = false;
    context.listing.git_status = false;
    let row = render_breadcrumb_text(item_labels(), &context, no_trail).row;
    assert_eq!(row.segments[2].icon, None);
    assert_eq!(row.segments[2].icon_color, Color::Muted);
    assert_eq!(row.segments[2].label_color, Color::Default);
}

#[test]
fn a_hidden_tab_bar_leaves_the_dirty_mark_to_the_file_segment() {
    let mut context = context();
    context.is_dirty = true;
    let row = render_breadcrumb_text(item_labels(), &context, no_trail).row;
    assert!(row.segments.iter().all(|segment| !segment.dirty_filename_style));
    context.tab_bar_shown = false;
    let row = render_breadcrumb_text(item_labels(), &context, no_trail).row;
    let dirty: Vec<bool> = row
        .segments
        .iter()
        .map(|segment| segment.dirty_filename_style)
        .collect();
    assert_eq!(dirty, vec![false, false, true, false, false]);
    assert!(row.file_outlives_symbols);
}

#[test]
fn an_open_dropdown_marks_its_segment() {
    let mut context = context();
    context.editor.as_mut().unwrap().symbol_navigation = Some(BreadcrumbSymbolNavigation {
        buffer_id: BufferId(1),
        active_item: Some(item("fn b", 20)),
        navigated: false,
    });
    let row = render_breadcrumb_text(item_labels(), &context, no_trail).row;
    assert_eq!(active(&row), vec![4]);
    assert_eq!(row.anchored_segment_index(), Some(4));

    context.editor.as_mut().unwrap().symbol_navigation = Some(BreadcrumbSymbolNavigation {
        buffer_id: BufferId(1),
        active_item: None,
        navigated: false,
    });
    let row = render_breadcrumb_text(item_labels(), &context, no_trail).row;
    assert_eq!(active(&row), vec![2], "the file's own dropdown is open");

    let editor = context.editor.as_mut().unwrap();
    editor.symbol_navigation = None;
    editor.navigation = Some(BreadcrumbNavigation {
        worktree_id: WorktreeId(0),
        active_path: rel_path("src"),
        navigated: false,
    });
    let row = render_breadcrumb_text(item_labels(), &context, no_trail).row;
    assert_eq!(active(&row), vec![1]);
    assert_eq!(texts(&row).len(), 5);
}

#[test]
fn a_moved_directory_dropdown_shows_where_it_went() {
    let mut context = context();
    context.editor.as_mut().unwrap().navigation = Some(BreadcrumbNavigation {
        worktree_id: WorktreeId(0),
        active_path: rel_path("docs/guide"),
        navigated: true,
    });
    let row = render_breadcrumb_text(item_labels(), &context, no_trail).row;
    assert_eq!(texts(&row), vec!["my-project", "docs", "guide"]);
    assert_eq!(active(&row), vec![2]);
    assert_eq!(row.segments[2].kind, BreadcrumbSegmentKind::File);
    assert_eq!(
        row.segments[2].icon, None,
        "a directory where the file was is not the file"
    );
    assert_eq!(row.segments[2].label_color, Color::Muted);
    assert_eq!(
        row.segments[2].target,
        Some(BreadcrumbSegmentTarget::Directory {
            worktree_id: WorktreeId(0),
            path: rel_path("docs/guide"),
            active_path: Some(rel_path("src/main.rs")),
            is_active_segment: true,
        })
    );
}

#[test]
fn a_moved_dropdown_of_a_worktree_that_is_gone_leaves_the_labels() {
    let mut context = context();
    context.editor.as_mut().unwrap().navigation = Some(BreadcrumbNavigation {
        worktree_id: WorktreeId(9),
        active_path: rel_path("docs"),
        navigated: true,
    });
    let row = render_breadcrumb_text(item_labels(), &context, no_trail).row;
    assert_eq!(texts(&row), vec!["src/main.rs", "impl A", "fn b"]);
    assert!(
        row.segments.iter().all(|segment| segment.target.is_none()),
        "one target for three labels is no target at all"
    );
}

#[test]
fn a_moved_symbol_dropdown_shows_its_trail() {
    let mut context = context();
    context.editor.as_mut().unwrap().symbol_navigation = Some(BreadcrumbSymbolNavigation {
        buffer_id: BufferId(1),
        active_item: Some(item("fn deep", 60)),
        navigated: true,
    });
    let row = render_breadcrumb_text(item_labels(), &context, |buffer_id, drilled| {
        assert_eq!(buffer_id, BufferId(1));
        vec![item("impl B", 50), drilled.clone()]
    })
    .row;
    assert_eq!(
        texts(&row),
        vec!["my-project", "src", "main.rs", "impl B", "fn deep"]
    );
    assert_eq!(active(&row), vec![4]);

    context
        .editor
        .as_mut()
        .unwrap()
        .symbol_navigation
        .as_mut()
        .unwrap()
        .active_item = None;
    let row = render_breadcrumb_text(item_labels(), &context, no_trail).row;
    assert_eq!(texts(&row), vec!["my-project", "src", "main.rs"]);
    assert_eq!(active(&row), vec![2]);
}

#[test]
fn a_file_outside_a_tree_still_opens_its_symbols() {
    let mut context = context();
    context.editor.as_mut().unwrap().project.as_mut().unwrap()[0].is_single_file = true;
    let row = render_breadcrumb_text(item_labels(), &context, no_trail).row;
    assert_eq!(texts(&row), vec!["src/main.rs", "impl A", "fn b"]);
    assert!(matches!(
        row.segments[0].target,
        Some(BreadcrumbSegmentTarget::Symbol { item: None, .. })
    ));
    assert_eq!(row.segments[0].kind, BreadcrumbSegmentKind::File);
    assert_eq!(row.segments[0].icon.as_deref(), Some("icons/rust.svg"));
}

#[test]
fn headers_and_other_items_open_nothing() {
    let mut header = context();
    header.multibuffer_header = true;
    header.editor.as_mut().unwrap().expanded = true;
    let bar = render_breadcrumb_text(item_labels(), &header, no_trail);
    assert_eq!(texts(&bar.row), vec!["src/main.rs", "impl A", "fn b"]);
    assert!(bar.row.segments.iter().all(|segment| segment.target.is_none()));
    assert!(!bar.row.expanded, "a header row never expands");
    assert!(!bar.scrolls);
    assert!(bar.notes_mouse_down);
    assert!(!bar.copies_file_path);

    let mut other = context();
    other.editor = None;
    let bar = render_breadcrumb_text(item_labels(), &other, no_trail);
    assert_eq!(texts(&bar.row), vec!["src/main.rs", "impl A", "fn b"]);
    assert!(!bar.row.has_editor);
    assert!(!bar.notes_mouse_down);
    assert!(!bar.copies_file_path);
}

#[test]
fn a_very_deep_path_is_capped_unless_expanded() {
    let mut context = context();
    let names: Vec<String> = (0..80).map(|index| format!("d{index}")).collect();
    context.file.as_mut().unwrap().path = rel_path(&format!("{}/main.rs", names.join("/")));
    let row = render_breadcrumb_text(item_labels(), &context, no_trail).row;
    assert_eq!(row.segments.len(), 1 + 65 + 1 + 2);
    assert!(row.segments[33].hard_cap_ellipsis);
    assert_eq!(row.segments[33].label.text, "⋯");
    assert_eq!(row.segments[33].target, None);
    assert_eq!(row.segments[66].label.text, "main.rs");
    assert_eq!(row.segments[66].kind, BreadcrumbSegmentKind::File);
    assert!(row.segments[66].icon.is_some());
    context.editor.as_mut().unwrap().expanded = true;
    let row = render_breadcrumb_text(item_labels(), &context, no_trail).row;
    assert_eq!(row.segments.len(), 1 + 80 + 1 + 2);
    assert!(row.segments.iter().all(|segment| !segment.hard_cap_ellipsis));
    assert!(row.expanded);
}

fn segment(text: &str, target: Option<BreadcrumbSegmentTarget>) -> PreparedBreadcrumbSegment {
    PreparedBreadcrumbSegment {
        kind: BreadcrumbSegmentKind::Middle,
        label: label(text),
        target,
        dirty_filename_style: false,
        icon: None,
        icon_color: Color::Muted,
        label_color: Color::Muted,
        hard_cap_ellipsis: false,
    }
}

fn directory_target(path: &str, is_active_segment: bool) -> Option<BreadcrumbSegmentTarget> {
    Some(BreadcrumbSegmentTarget::Directory {
        worktree_id: WorktreeId(0),
        path: rel_path(path),
        active_path: None,
        is_active_segment,
    })
}

fn file_target(is_active_segment: bool) -> Option<BreadcrumbSegmentTarget> {
    Some(BreadcrumbSegmentTarget::Symbol {
        buffer_id: BufferId(1),
        item: None,
        is_active_segment,
    })
}

fn row(segments: Vec<PreparedBreadcrumbSegment>, expanded: bool) -> BreadcrumbsRow {
    BreadcrumbsRow {
        segments,
        has_editor: true,
        expanded,
        file_outlives_symbols: false,
        multibuffer_header: false,
        path_style: PathStyle::Posix,
    }
}

fn metrics(widths: Vec<i32>) -> BreadcrumbSegmentMetrics {
    BreadcrumbSegmentMetrics {
        widths,
        ellipsis_width: 20,
        separator_width: 10,
    }
}

#[test]
fn test_expanded_breadcrumb_row_outgrows_its_container() {
    let segments = || (0..4).map(|_| segment("directory", None)).collect();
    let metrics = metrics(vec![100, 100, 100, 100]);
    let collapsed = row(segments(), false);
    assert_eq!(
        collapsed.requested_width(&metrics, None, AvailableSpace::Definite(200)),
        130,
        "a collapsed row fits by dropping segments, so there is nothing to scroll"
    );
    let expanded = row(segments(), true);
    assert_eq!(
        expanded.requested_width(&metrics, None, AvailableSpace::Definite(200)),
        430,
        "an expanded row must overflow its container"
    );
    assert_eq!(
        expanded.requested_width(&metrics, Some(50), AvailableSpace::MinContent),
        430,
        "and ignores a resolved width"
    );
    let layout = expanded.lay_out(&metrics, 200);
    assert_eq!(
        layout.items,
        (0..4).map(RowItem::Segment).collect::<Vec<_>>()
    );
    assert!(!layout.truncate_last);
}

#[test]
fn a_collapsed_row_answers_every_kind_of_space() {
    let metrics = metrics(vec![100, 30]);
    let collapsed = row(vec![segment("a", None), segment("b", None)], false);
    assert_eq!(collapsed.requested_width(&metrics, Some(77), AvailableSpace::MaxContent), 77);
    assert_eq!(collapsed.requested_width(&metrics, None, AvailableSpace::MaxContent), 140);
    assert_eq!(collapsed.requested_width(&metrics, None, AvailableSpace::MinContent), 30);
    assert_eq!(
        collapsed.requested_width(&metrics, None, AvailableSpace::Definite(25)),
        25,
        "even the minimal plan overflows"
    );
    let narrow = BreadcrumbSegmentMetrics {
        widths: vec![5],
        ellipsis_width: 20,
        separator_width: 10,
    };
    let single = row(vec![segment("b", None)], false);
    assert_eq!(single.requested_width(&narrow, None, AvailableSpace::MinContent), 20);
    let empty = row(vec![], false);
    let nothing = BreadcrumbSegmentMetrics {
        widths: vec![],
        ellipsis_width: 20,
        separator_width: 10,
    };
    assert_eq!(empty.requested_width(&nothing, None, AvailableSpace::MinContent), 20);
    assert_eq!(empty.requested_width(&nothing, None, AvailableSpace::MaxContent), 0);
}

#[test]
fn test_collapsed_row_truncates_an_oversized_last_segment() {
    let metrics = metrics(vec![500]);
    let collapsed = row(vec![segment("a-very-long-name", None)], false);
    let layout = collapsed.lay_out(&metrics, 200);
    assert_eq!(layout.items, vec![RowItem::Segment(0)]);
    assert!(layout.truncate_last);
    let placed = place(&collapsed, &layout, 10, 200, |element| {
        (label_width(element).unwrap_or(500 - 28) + 28) as i32
    });
    assert_eq!(
        placements(&placed),
        vec![Placement {
            x: 10,
            max_width: Some(200),
        }]
    );
    assert_eq!(label_width(&placed[0].element), Some(192));
}

#[test]
fn test_anchored_middle_segment_keeps_the_last_label_inside_the_row() {
    let metrics = metrics(vec![150, 90]);
    let collapsed = row(
        vec![segment("anchored", file_target(true)), segment("file-name", None)],
        false,
    );
    let layout = collapsed.lay_out(&metrics, 180);
    assert_eq!(layout.items, vec![RowItem::Segment(0), RowItem::Segment(1)]);
    assert!(layout.truncate_last);
    assert_eq!(layout.orphan, None);
    let placed = place(&collapsed, &layout, 0, 180, |element| match label_width(element) {
        Some(width) => width as i32 + 8,
        None => 150,
    });
    let placements = placements(&placed);
    assert_eq!(placements[0], Placement { x: 0, max_width: None });
    assert_eq!(
        placements[1],
        Placement {
            x: 154,
            max_width: Some(26),
        },
        "the truncated last label must stay inside the row"
    );
}

#[test]
fn test_a_row_that_fits_keeps_every_segment_and_clamps_none() {
    let metrics = metrics(vec![50, 60, 70]);
    let collapsed = row(
        vec![segment("a", None), segment("b", None), segment("c", None)],
        false,
    );
    let natural = metrics.natural_width();
    assert_eq!(natural, 200);
    let layout = collapsed.lay_out(&metrics, natural);
    assert!(layout.plan.ellipses.is_empty());
    assert!(!layout.truncate_last);
    let widths = [50, 60, 70];
    let placed = place(&collapsed, &layout, 5, 200, |element| match element {
        RowElement::Segment(segment) => widths[match segment.text.text.as_str() {
            "a" => 0,
            "b" => 1,
            _ => 2,
        }],
        RowElement::Ellipsis(_) => unreachable!(),
    });
    let placements = placements(&placed);
    let xs: Vec<RowSubPixels> = placements.iter().map(|placement| placement.x).collect();
    assert_eq!(xs, vec![5, 59, 123]);
    assert!(placements.iter().all(|placement| placement.max_width.is_none()));
    let separators: Vec<bool> = placed
        .iter()
        .map(|placed| match &placed.element {
            RowElement::Segment(segment) => segment.separator,
            RowElement::Ellipsis(ellipsis) => ellipsis.separator,
        })
        .collect();
    assert_eq!(separators, vec![true, true, false]);
}

#[test]
fn dropped_runs_paint_one_ellipsis_each() {
    let metrics = metrics(vec![50, 50, 50, 50, 60]);
    let mut segments: Vec<PreparedBreadcrumbSegment> =
        (0..5).map(|index| segment(&format!("d{index}"), None)).collect();
    segments[2].target = directory_target("d0/d1/d2", true);
    segments[4].kind = BreadcrumbSegmentKind::File;
    let collapsed = row(segments, false);
    let layout = collapsed.lay_out(&metrics, 190);
    assert_eq!(
        layout.items,
        vec![
            RowItem::Ellipsis,
            RowItem::Segment(2),
            RowItem::Ellipsis,
            RowItem::Segment(4),
        ]
    );
    assert_eq!(layout.plan.ellipses, vec![0..2, 3..4]);
    assert!(!layout.truncate_last);
    assert_eq!(layout.orphan, None, "the anchored segment is on screen");
    let placed = place(&collapsed, &layout, 0, 190, |_| 40);
    let ellipses: Vec<bool> = placed
        .iter()
        .map(|placed| matches!(placed.element, RowElement::Ellipsis(_)))
        .collect();
    assert_eq!(ellipses, vec![true, false, true, false]);
    assert_eq!(placed[3].placement.x, 3 * 44);
}

struct Handle;

impl ErasedBreadcrumbPopoverHandle for Handle {
    type App = usize;
    type Window = ();

    fn hide_popover(&self, cx: &mut usize) {
        *cx += 1;
    }

    fn show(&self, _: &mut (), _: &mut usize) {}
}

#[test]
fn an_orphaned_dropdown_is_dismissed_unless_it_moves() {
    let navigation = || BreadcrumbNavigation {
        worktree_id: WorktreeId(0),
        active_path: rel_path("src"),
        navigated: false,
    };
    let anchored = row(vec![segment("src", directory_target("src", true))], false);
    let orphaned = RowLayout {
        plan: BreadcrumbLayoutPlan {
            visible: vec![],
            ellipses: vec![0..1],
        },
        items: vec![RowItem::Ellipsis],
        truncate_last: false,
        orphan: Some(0),
    };
    let mut hidden = 0;
    let mut state: BreadcrumbState<Handle, ()> = BreadcrumbState::new(Some(Handle), None);
    state.begin_directory_reanchor(navigation());
    assert!(!dismiss_orphan(&anchored, &orphaned, &mut state, &mut hidden));
    assert_eq!(hidden, 0);
    state.finish_reanchor();
    assert!(dismiss_orphan(&anchored, &orphaned, &mut state, &mut hidden));
    assert_eq!(hidden, 1);
    assert!(!state.session_open());

    state.set_directory_navigation(navigation());
    let kept = anchored.lay_out(&metrics(vec![50]), 10);
    assert!(!dismiss_orphan(&anchored, &kept, &mut state, &mut hidden));
    assert!(state.session_open());
}

fn style() -> TextStyle {
    TextStyle {
        color: 0x1111_11ff,
        font_weight: FontWeight::Normal,
        rest: 0,
    }
}

fn lengths() -> RowLengths {
    RowLengths {
        label_padding: 4,
        icon_size: 14,
        gap: 4,
        arrow_width: 12,
        segment_padding: Some(2),
    }
}

fn place<M: Fn(&RowElement) -> i32>(
    row: &BreadcrumbsRow,
    layout: &RowLayout,
    origin_x: i64,
    row_width: i64,
    measure: M,
) -> Vec<PlacedElement> {
    row.place_items(layout, origin_x, row_width, &paint_context(), &style(), &theme, measure)
}

fn placements(placed: &[PlacedElement]) -> Vec<Placement> {
    placed.iter().map(|placed| placed.placement).collect()
}

fn label_width(element: &RowElement) -> Option<RowSubPixels> {
    match element {
        RowElement::Segment(segment) => segment.label_width,
        RowElement::Ellipsis(_) => None,
    }
}

fn paint_context() -> PaintContext {
    PaintContext {
        lengths: lengths(),
        editor_alive: true,
        has_workspace: true,
        has_directory_handle: true,
        has_symbol_handle: true,
    }
}

fn theme(color: Color) -> u32 {
    match color {
        Color::Muted => 0x8888_88ff,
        _ => 0xffff_ffff,
    }
}

fn painted(
    row: &BreadcrumbsRow,
    index: usize,
    max_width: Option<RowSubPixels>,
    context: &PaintContext,
) -> SegmentElement {
    let last = row.segments.len() - 1;
    match row.render_segment(index, index, last, max_width, context, &style(), &theme) {
        RowElement::Segment(element) => element,
        RowElement::Ellipsis(_) => panic!("expected a segment"),
    }
}

fn sample_row() -> BreadcrumbsRow {
    let mut file = segment("main.rs", file_target(false));
    file.icon = Some("icons/rust.svg".to_string());
    file.icon_color = Color::Error;
    row(
        vec![
            segment("root", directory_target("", false)),
            segment("plain", None),
            file,
        ],
        false,
    )
}

#[test]
fn segments_open_the_dropdown_of_their_target() {
    let row = sample_row();
    let root = painted(&row, 0, None, &paint_context());
    assert_eq!(
        root.trigger,
        Some(SegmentTrigger::Directory {
            worktree_id: WorktreeId(0),
            path: RelPath::empty(),
            active_path: None,
            is_active_segment: false,
        })
    );
    assert!(root.interactive);
    assert!(root.copies_path);
    assert!(root.separator);
    assert_eq!(root.label_width, None);
    assert_eq!(
        root.text,
        StyledText {
            text: "root".to_string(),
            style: TextStyle {
                color: 0x8888_88ff,
                ..style()
            },
            highlights: vec![],
        }
    );

    let plain = painted(&row, 1, None, &paint_context());
    assert_eq!(plain.trigger, None);
    assert!(!plain.interactive);
    assert!(!plain.copies_path);

    let file = painted(&row, 2, None, &paint_context());
    assert_eq!(
        file.trigger,
        Some(SegmentTrigger::Symbol {
            buffer_id: BufferId(1),
            item: None,
            parent_dir: Some((WorktreeId(0), RelPath::empty())),
            is_active_segment: false,
        }),
        "the nearest directory before the file is the one it leads up to"
    );
    assert!(!file.separator, "nothing follows the last item");
    assert_eq!(file.icon.as_deref(), Some("icons/rust.svg"));
    assert_eq!(file.icon_color, Color::Error);
}

#[test]
fn a_dropdown_needs_everything_it_opens_with() {
    let row = sample_row();
    let full = paint_context();
    let missing = [
        PaintContext {
            lengths: RowLengths {
                segment_padding: None,
                ..lengths()
            },
            ..full
        },
        PaintContext { editor_alive: false, ..full },
    ];
    for context in &missing {
        assert_eq!(painted(&row, 0, None, context).trigger, None, "{context:?}");
        assert_eq!(painted(&row, 2, None, context).trigger, None, "{context:?}");
        assert!(painted(&row, 0, None, context).interactive);
    }
    let context = PaintContext { has_symbol_handle: false, ..full };
    assert_eq!(painted(&row, 2, None, &context).trigger, None);
    assert!(painted(&row, 0, None, &context).trigger.is_some());
    for context in [
        PaintContext { has_workspace: false, ..full },
        PaintContext { has_directory_handle: false, ..full },
    ] {
        assert_eq!(painted(&row, 0, None, &context).trigger, None);
        assert!(painted(&row, 2, None, &context).trigger.is_some());
    }
    let mut without_editor = sample_row();
    without_editor.has_editor = false;
    let file = painted(&without_editor, 2, None, &full);
    assert_eq!(file.trigger, None);
    assert!(!file.interactive);
}

#[test]
fn test_an_interactive_row_reserves_the_padding_its_triggers_paint() {
    let row = sample_row();
    assert_eq!(row.segment_padding(0, Some(2)), 2);
    assert_eq!(row.segment_padding(1, Some(2)), 0, "a plain label has no trigger");
    assert_eq!(row.segment_padding(2, None), 0, "nothing is registered");
    let mut capped = sample_row();
    capped.segments[0].hard_cap_ellipsis = true;
    assert_eq!(capped.segment_padding(0, Some(2)), 0);
    let mut without_editor = sample_row();
    without_editor.has_editor = false;
    assert_eq!(without_editor.segment_padding(0, Some(2)), 0);
}

#[test]
fn a_clamped_label_makes_room_for_what_surrounds_it() {
    let row = sample_row();
    let file = painted(&row, 2, Some(100), &paint_context());
    assert_eq!(file.label_width, Some(100 - 8 - 18 - 2));
    let plain = painted(&row, 1, Some(100), &paint_context());
    assert_eq!(plain.label_width, Some(92));
    let none = painted(&row, 2, Some(10), &paint_context());
    assert_eq!(none.label_width, Some(0));
}

#[test]
fn test_right_click_on_ellipsis_does_not_reach_the_copy_fallback() {
    let mut capped = sample_row();
    capped.segments[1].hard_cap_ellipsis = true;
    let element = capped.render_segment(1, 1, 2, None, &paint_context(), &style(), &theme);
    assert_eq!(
        element,
        RowElement::Ellipsis(EllipsisElement {
            separator: true,
            interactive: true,
            expands: true,
        })
    );
    assert_eq!(
        capped.render_ellipsis(2, 2),
        EllipsisElement {
            separator: false,
            interactive: true,
            expands: true,
        }
    );
    capped.multibuffer_header = true;
    assert_eq!(
        capped.render_ellipsis(0, 2),
        EllipsisElement {
            separator: true,
            interactive: false,
            expands: false,
        },
        "a header row can never expand"
    );
    capped.multibuffer_header = false;
    capped.has_editor = false;
    assert!(!capped.render_ellipsis(0, 2).expands);
    assert!(capped.render_ellipsis(0, 2).interactive);
}

#[test]
fn a_dirty_file_is_measured_as_it_is_painted() {
    let mut dirty = segment("src/main.rs", file_target(false));
    dirty.dirty_filename_style = true;
    let bold = TextStyle {
        font_weight: FontWeight::Bold,
        ..style()
    };
    let shape = shape_segment(PathStyle::Posix, &dirty, &style());
    assert_eq!(shape.text, "src/main.rs");
    assert_eq!(
        shape.runs,
        vec![
            TextRun { len: 4, style: style() },
            TextRun { len: 7, style: bold },
        ]
    );
    dirty.label = label(r"src\main.rs");
    let shape = shape_segment(PathStyle::Windows, &dirty, &style());
    assert_eq!(
        shape.runs,
        vec![
            TextRun { len: 4, style: style() },
            TextRun { len: 7, style: bold },
        ]
    );
    dirty.label = label("main.rs");
    assert_eq!(
        segment_text_runs(PathStyle::Posix, &dirty, "main.rs", &style()),
        vec![TextRun { len: 7, style: bold }]
    );
    dirty.label = label("..");
    assert_eq!(
        segment_text_runs(PathStyle::Posix, &dirty, "..", &style()),
        vec![TextRun { len: 2, style: style() }]
    );
    let clean = segment("a\nb", None);
    let shape = shape_segment(PathStyle::Posix, &clean, &style());
    assert_eq!(shape.text, "a b");
    assert_eq!(shape.runs, vec![TextRun { len: 3, style: style() }]);

    let mut dirty_row = sample_row();
    dirty_row.segments[2].dirty_filename_style = true;
    let file = painted(&dirty_row, 2, None, &paint_context());
    assert_eq!(file.text.style.font_weight, FontWeight::Bold);
    assert_eq!(file.text.style.color, 0x8888_88ff);
}

#[test]
fn test_ceil_to_device_pixel_reserves_on_the_device_grid() {
    let on_the_grid = |width: f64, scale_factor: f64| {
        ceil_to_device_pixel((width * scale_factor * 256.).ceil() as i64)
    };
    assert_eq!(on_the_grid(46.7, 1.), 47);
    assert_eq!(on_the_grid(46.7, 1.5), 71);
    assert!(on_the_grid(46.7, 1.5) as f64 / 1.5 > 46.7);
    assert_eq!(on_the_grid(46., 1.5), 69, "46 logical pixels lie on the grid");
}

#[test]
fn whole_device_pixels_are_kept_and_parts_rounded_up() {
    assert_eq!(ceil_to_device_pixel(0), 0);
    assert_eq!(ceil_to_device_pixel(1), 1);
    assert_eq!(ceil_to_device_pixel(256), 1);
    assert_eq!(ceil_to_device_pixel(257), 2);
    assert_eq!(ceil_to_device_pixel(-1), 0);
    assert_eq!(ceil_to_device_pixel(-256), -1);
    assert_eq!(ceil_to_device_pixel(-257), -1);
}

fn ten_pixels_a_byte(shape: &ShapedText) -> i32 {
    shape.runs.iter().map(|run| run.len as i32 * 2560).sum()
}

#[test]
fn a_segment_is_measured_with_all_that_surrounds_its_label() {
    let pixels = |count: i32| count * 256;
    let lengths = RowLengths {
        label_padding: pixels(4),
        icon_size: pixels(14),
        gap: pixels(4),
        arrow_width: pixels(12),
        segment_padding: Some(pixels(2)),
    };
    let metrics = sample_row().measure(&lengths, &style(), ten_pixels_a_byte);
    assert_eq!(
        metrics.widths,
        vec![40 + 8 + 2, 50 + 8, 70 + 8 + 14 + 4 + 2],
        "only a segment with a target has a trigger, and only the file an icon"
    );
    assert_eq!(metrics.ellipsis_width, 30 + 8);
    assert_eq!(metrics.separator_width, 12 + 8);

    let lengths = RowLengths {
        label_padding: pixels(4) + 1,
        segment_padding: None,
        ..lengths
    };
    let metrics = sample_row().measure(&lengths, &style(), ten_pixels_a_byte);
    assert_eq!(
        metrics.widths,
        vec![49, 59, 97],
        "a part of a pixel takes a whole one"
    );
}

#[test]
fn a_segment_that_gets_its_measured_width_keeps_its_label() {
    let lengths = RowLengths {
        label_padding: 1000,
        icon_size: 3500,
        gap: 900,
        arrow_width: 3000,
        segment_padding: Some(300),
    };
    let row = sample_row();
    let metrics = row.measure(&lengths, &style(), ten_pixels_a_byte);
    let context = PaintContext {
        lengths,
        ..paint_context()
    };
    let max_width = metrics.widths[2] as RowSubPixels * 256;
    let file = painted(&row, 2, Some(max_width), &context);
    assert!(file.label_width.unwrap() >= 7 * 2560);
    let file = painted(&row, 2, Some(max_width - 256), &context);
    assert!(file.label_width.unwrap() < 7 * 2560, "a pixel less truncates it");
}

#[test]
fn the_row_reserves_what_it_paints() {
    let pixels = |count: i32| count * 256;
    let lengths = RowLengths {
        label_padding: pixels(4),
        icon_size: pixels(14),
        gap: pixels(4),
        arrow_width: pixels(12),
        segment_padding: Some(pixels(2)),
    };
    let row = sample_row();
    let metrics = row.measure(&lengths, &style(), ten_pixels_a_byte);
    let layout = row.lay_out(&metrics, metrics.natural_width());
    assert!(layout.plan.ellipses.is_empty());
    let context = PaintContext {
        lengths,
        ..paint_context()
    };
    let width_of = |element: &RowElement| match element {
        RowElement::Segment(segment) => {
            let label = segment.text.text.len() as i32 * 10;
            let icon = if segment.icon.is_some() { 18 } else { 0 };
            let trigger = if segment.trigger.is_some() { 2 } else { 0 };
            let separator = if segment.separator { 4 + 12 } else { 0 };
            pixels(label + 8 + icon + trigger + separator)
        }
        RowElement::Ellipsis(_) => unreachable!(),
    };
    let placed = row.place_items(
        &layout,
        0,
        metrics.natural_width() as i64 * 256,
        &context,
        &style(),
        &theme,
        width_of,
    );
    let last = placed.last().unwrap();
    assert_eq!(
        last.placement.x + width_of(&last.element) as RowSubPixels,
        metrics.natural_width() * 256
    );
}

#[test]
fn an_ellipsis_is_shaped_as_one_run() {
    let shape = shape_ellipsis(&style());
    assert_eq!(shape.text, "⋯");
    assert_eq!(
        shape.runs,
        vec![TextRun {
            len: "⋯".len(),
            style: style(),
        }]
    );
}
