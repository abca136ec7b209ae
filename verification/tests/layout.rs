use breadcrumbs::layout::{
    breadcrumb_layout_plan_width, plan_breadcrumb_layout, BreadcrumbSegmentKind,
    BreadcrumbSegmentMetrics, Pixels,
};
use breadcrumbs::layout::BreadcrumbSegmentKind::{File, Middle, Root, Symbol};
use breadcrumbs::segments::{
    align_symbol_segments, classify_breadcrumb_segment_kinds, hard_cap_breadcrumb_middle_segments,
};
use breadcrumbs::target::{BreadcrumbSegmentTarget, BufferId};
use breadcrumbs::text::HighlightedText;

fn numbered_segments(count: usize) -> Vec<HighlightedText> {
    (0..count)
        .map(|i| HighlightedText {
            text: format!("segment-{i}"),
            highlights: vec![],
        })
        .collect()
}

fn lone_file_target() -> Vec<Option<BreadcrumbSegmentTarget>> {
    vec![Some(BreadcrumbSegmentTarget::Symbol {
        buffer_id: BufferId(1),
        item: None,
        is_active_segment: false,
    })]
}

#[test]
fn test_align_symbol_segments_realigns_divergent_lengths() {
    let segments = numbered_segments(3);
    let symbol_segments = align_symbol_segments(&segments, lone_file_target());

    assert_eq!(symbol_segments.len(), 3);
    assert!(symbol_segments.iter().all(Option::is_none));
}

#[test]
fn align_symbol_segments_keeps_targets_of_equal_length() {
    let segments = numbered_segments(1);
    assert_eq!(align_symbol_segments(&segments, lone_file_target()), lone_file_target());
}

#[test]
fn test_classify_breadcrumb_segment_kinds() {
    let kinds = classify_breadcrumb_segment_kinds(6, 3, true);
    assert_eq!(
        kinds,
        vec![
            BreadcrumbSegmentKind::Root,
            BreadcrumbSegmentKind::Middle,
            BreadcrumbSegmentKind::Middle,
            BreadcrumbSegmentKind::File,
            BreadcrumbSegmentKind::Symbol,
            BreadcrumbSegmentKind::Symbol,
        ]
    );

    let kinds = classify_breadcrumb_segment_kinds(3, 1, false);
    assert_eq!(
        kinds,
        vec![
            BreadcrumbSegmentKind::Middle,
            BreadcrumbSegmentKind::File,
            BreadcrumbSegmentKind::Symbol,
        ]
    );

    let kinds = classify_breadcrumb_segment_kinds(1, 0, false);
    assert_eq!(kinds, vec![BreadcrumbSegmentKind::File]);
}

/// Without `align_symbol_segments`, a short `symbol_segments` would leave the cut nothing to cut.
#[test]
fn test_hard_cap_breadcrumb_middle_segments_does_not_panic_on_divergent_symbol_segments() {
    let segments = numbered_segments(100);
    let symbol_segments = align_symbol_segments(&segments, lone_file_target());
    assert_eq!(symbol_segments.len(), segments.len());

    let kinds = classify_breadcrumb_segment_kinds(segments.len(), 99, true);

    let (capped_segments, capped_symbol_segments, capped_kinds, file_segment_index, cap_index) =
        hard_cap_breadcrumb_middle_segments(
            segments.clone(),
            symbol_segments.clone(),
            kinds.clone(),
            99,
            false,
        );

    // 67 = root (1) + capped middle (32 prefix + 1 "⋯" + 32 suffix) + file (1).
    assert_eq!(capped_segments.len(), 67);
    assert_eq!(capped_symbol_segments.len(), capped_segments.len());
    assert_eq!(capped_kinds.len(), capped_segments.len());
    assert_eq!(file_segment_index, 66);
    assert_eq!(capped_kinds[file_segment_index], BreadcrumbSegmentKind::File);
    assert_eq!(
        cap_index,
        Some(33),
        "the pseudo-segment sits after the root and the 32 kept prefix segments"
    );
    assert_eq!(capped_segments[33].text.as_str(), "⋯");
    assert_eq!(capped_segments[32].text.as_str(), "segment-32");
    assert_eq!(capped_segments[34].text.as_str(), "segment-67");

    let (segments, symbol_segments, kinds, file_segment_index, cap_index) =
        hard_cap_breadcrumb_middle_segments(segments, symbol_segments, kinds, 99, true);
    assert_eq!(
        segments.len(),
        100,
        "an expanded row bypasses the cap so expansion reveals every segment"
    );
    assert_eq!(symbol_segments.len(), 100);
    assert_eq!(kinds.len(), 100);
    assert_eq!(file_segment_index, 99);
    assert_eq!(cap_index, None);
}

#[test]
fn capping_a_capped_row_changes_nothing() {
    let segments = numbered_segments(100);
    let symbol_segments = vec![None; 100];
    let kinds = classify_breadcrumb_segment_kinds(100, 99, true);
    let once = hard_cap_breadcrumb_middle_segments(segments, symbol_segments, kinds, 99, false);
    let twice = hard_cap_breadcrumb_middle_segments(
        once.0.clone(),
        once.1.clone(),
        once.2.clone(),
        once.3,
        false,
    );
    assert_eq!(once.4, Some(33));
    assert_eq!(twice, once);
}

#[test]
fn more_room_never_hides_a_segment() {
    let (widths, kinds) = sample_breadcrumb_widths_and_kinds();
    let metrics = metrics(widths, 12);
    let mut narrower: Vec<usize> = Vec::new();
    for width in 0..600 {
        let visible = plan_breadcrumb_layout(&metrics, &kinds, width, None, false).visible;
        assert!(narrower.iter().all(|index| visible.contains(index)), "{width}");
        narrower = visible;
    }
    assert_eq!(narrower.len(), kinds.len());
}

#[test]
fn test_hard_cap_breadcrumb_middle_segments_leaves_ordinary_input_untouched() {
    let segments = numbered_segments(6);
    let symbol_segments = vec![None; segments.len()];
    let kinds = classify_breadcrumb_segment_kinds(segments.len(), 3, true);

    let (segments, symbol_segments, kinds, file_segment_index, cap_index) =
        hard_cap_breadcrumb_middle_segments(segments, symbol_segments, kinds, 3, false);

    assert_eq!(segments.len(), 6);
    assert_eq!(symbol_segments.len(), 6);
    assert_eq!(kinds.len(), 6);
    assert_eq!(file_segment_index, 3);
    assert_eq!(cap_index, None);
}

#[test]
fn hard_cap_allows_exactly_the_cap() {
    let segments = numbered_segments(66);
    let symbol_segments = vec![None; 66];
    let kinds = classify_breadcrumb_segment_kinds(66, 65, true);
    let (segments, _, _, file_segment_index, cap_index) =
        hard_cap_breadcrumb_middle_segments(segments, symbol_segments, kinds, 65, false);
    assert_eq!((segments.len(), file_segment_index, cap_index), (66, 65, None));

    let segments = numbered_segments(67);
    let symbol_segments = vec![None; 67];
    let kinds = classify_breadcrumb_segment_kinds(67, 66, true);
    let (segments, _, kinds, file_segment_index, cap_index) =
        hard_cap_breadcrumb_middle_segments(segments, symbol_segments, kinds, 66, false);
    assert_eq!((segments.len(), file_segment_index, cap_index), (67, 66, Some(33)));
    assert_eq!(segments[33].text.as_str(), "⋯");
    assert_eq!(kinds, classify_breadcrumb_segment_kinds(67, 66, true));
}

/// Separator-free, so each case's threshold is the sum of the widths it names.
fn metrics(widths: Vec<Pixels>, ellipsis_width: Pixels) -> BreadcrumbSegmentMetrics {
    BreadcrumbSegmentMetrics {
        widths,
        ellipsis_width,
        separator_width: 0,
    }
}

fn sample_breadcrumb_widths_and_kinds() -> (Vec<Pixels>, Vec<BreadcrumbSegmentKind>) {
    let widths = vec![
        60,  // root
        30,  // a
        30,  // b
        30,  // c
        30,  // d
        80,  // file.kt
        90,  // Class
        120, // fun method
    ];
    let kinds = vec![Root, Middle, Middle, Middle, Middle, File, Symbol, Symbol];
    (widths, kinds)
}

#[test]
fn test_plan_breadcrumb_layout_counts_separators_between_items_only() {
    let metrics = BreadcrumbSegmentMetrics {
        widths: vec![40, 40, 40],
        ellipsis_width: 20,
        separator_width: 20,
    };
    let kinds = vec![Root, Middle, File];

    let plan = plan_breadcrumb_layout(&metrics, &kinds, 160, None, false);
    assert_eq!(
        plan.visible,
        vec![0, 1, 2],
        "three segments and the two separators between them fit in 160px"
    );
    assert_eq!(breadcrumb_layout_plan_width(&metrics, &plan), 160);
    assert_eq!(metrics.natural_width(), 160);

    let plan = plan_breadcrumb_layout(&metrics, &kinds, 159, None, false);
    assert_eq!(plan.visible, vec![0, 2], "a pixel short drops the middle");
    assert_eq!(
        breadcrumb_layout_plan_width(&metrics, &plan),
        140,
        "the ellipsis takes the dropped segment's place, so two separators remain"
    );
}

#[test]
fn test_plan_breadcrumb_layout_drops_middle_before_root_before_file_before_outer_symbols() {
    let (widths, kinds) = sample_breadcrumb_widths_and_kinds();
    let total: i128 = widths.iter().map(|width| *width as i128).sum();

    let cases = [
        (total, (0..widths.len()).collect::<Vec<_>>(), Vec::new()),
        (380, vec![0, 5, 6, 7], vec![1..5]),
        (340, vec![5, 6, 7], vec![0..5]),
        (230, vec![6, 7], vec![0..6]),
        (140, vec![7], vec![0..7]),
        // Degenerate width: the last segment always survives.
        (1, vec![7], vec![0..7]),
    ];
    for (available, visible, ellipses) in cases {
        let plan = plan_breadcrumb_layout(
            &metrics(widths.clone(), 20),
            &kinds,
            available,
            None,
            false,
        );
        assert_eq!(plan.visible, visible, "available width {available:?}");
        assert_eq!(plan.ellipses, ellipses, "available width {available:?}");
    }
}

/// Hidden tab bar: the bar holds the only copy of the file name, so it outlives the symbols.
#[test]
fn test_plan_breadcrumb_layout_keeps_the_file_segment_over_symbols_when_tab_bar_is_hidden() {
    let (widths, kinds) = sample_breadcrumb_widths_and_kinds();

    let plan = plan_breadcrumb_layout(&metrics(widths, 20), &kinds, 240, None, true);
    assert_eq!(
        plan.visible,
        vec![5, 7],
        "the file segment (5) survives while the inner symbol (6) drops"
    );
    assert_eq!(plan.ellipses, vec![0..5, 6..7]);
}

#[test]
fn test_plan_breadcrumb_layout_boundary_inputs() {
    let plan = plan_breadcrumb_layout(
        &metrics(vec![500], 20),
        &[BreadcrumbSegmentKind::File],
        1,
        None,
        false,
    );
    assert_eq!(plan.visible, vec![0], "a single segment never collapses");
    assert!(plan.ellipses.is_empty());

    let plan = plan_breadcrumb_layout(&metrics(Vec::new(), 20), &[], 500, None, false);
    assert!(plan.visible.is_empty());
    assert!(plan.ellipses.is_empty());
}

/// The keyboard-opened dropdown's segment is on screen at any width.
#[test]
fn test_plan_breadcrumb_layout_keeps_the_anchored_leaf_at_any_width() {
    let (widths, kinds) = sample_breadcrumb_widths_and_kinds();
    let leaf = kinds.len() - 1;

    let plan = plan_breadcrumb_layout(&metrics(widths, 20), &kinds, 1, Some(leaf), false);

    assert_eq!(plan.visible, vec![leaf]);
    assert_eq!(plan.ellipses, vec![0..leaf]);
}

#[test]
fn test_plan_breadcrumb_layout_keeps_the_anchored_middle_segment() {
    let widths = vec![50, 40, 40, 40, 60];
    let kinds = vec![Root, Middle, Middle, Middle, File];

    let plan = plan_breadcrumb_layout(&metrics(widths, 20), &kinds, 140, Some(2), false);

    assert_eq!(
        plan.visible,
        vec![2, 4],
        "the anchored middle segment survives while its neighbours collapse"
    );
    assert_eq!(plan.ellipses, vec![0..2, 3..4]);
}
