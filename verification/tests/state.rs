use breadcrumbs::rel_path::RelPath;
use breadcrumbs::session::{
    breadcrumb_leaf_navigation, converted_trail, dismiss_orphaned_breadcrumb_popover,
    symbol_trail_with_fallback, CursorSymbols,
};
use breadcrumbs::state::{
    BreadcrumbNavigation, BreadcrumbPopover, BreadcrumbState, BreadcrumbSymbolNavigation,
    ErasedBreadcrumbPopoverHandle, Global,
};
use breadcrumbs::target::{
    AnchorRange, BreadcrumbSegmentTarget, BufferId, OutlineItem, WorktreeId,
};

struct ProbePopoverHandle(&'static str);

impl ErasedBreadcrumbPopoverHandle for ProbePopoverHandle {
    type App = Vec<String>;
    type Window = usize;

    fn hide_popover(&self, cx: &mut Vec<String>) {
        cx.push(format!("hide {}", self.0));
    }

    fn show(&self, window: &mut usize, cx: &mut Vec<String>) {
        *window += 1;
        cx.push(format!("show {}", self.0));
    }
}

type State = BreadcrumbState<ProbePopoverHandle, u8>;

fn state() -> State {
    BreadcrumbState::new(
        Some(ProbePopoverHandle("directory")),
        Some(ProbePopoverHandle("symbol")),
    )
}

fn rel_path(text: &str) -> RelPath {
    RelPath::from_unix_str(text).unwrap()
}

fn directory(path: &str) -> BreadcrumbNavigation {
    BreadcrumbNavigation {
        worktree_id: WorktreeId(0),
        active_path: rel_path(path),
        navigated: false,
    }
}

fn item(text: &str, start: u64) -> OutlineItem {
    OutlineItem {
        depth: 0,
        range: AnchorRange {
            start,
            end: start + 10,
        },
        selection_range: AnchorRange { start, end: start },
        text: text.to_string(),
        highlight_ranges: vec![],
    }
}

fn symbol(active_item: Option<OutlineItem>) -> BreadcrumbSymbolNavigation {
    BreadcrumbSymbolNavigation {
        buffer_id: BufferId(1),
        active_item,
        navigated: false,
    }
}

fn handle_name(handle: Option<&ProbePopoverHandle>) -> Option<&'static str> {
    handle.map(|handle| handle.0)
}

#[test]
fn a_new_bar_is_closed_and_collapsed() {
    let state = state();
    assert_eq!(state.popover, BreadcrumbPopover::Closed);
    assert!(!state.session_open());
    assert!(!state.reanchoring());
    assert!(!state.reanchor_pending());
    assert!(!state.expanded);
    assert_eq!(state.directory_navigation(), None);
    assert_eq!(state.symbol_navigation(), None);
    assert_eq!(handle_name(state.directory_popover_handle()), Some("directory"));
    assert_eq!(handle_name(state.symbol_popover_handle()), Some("symbol"));
    assert!(state.reanchoring_popover_handle().is_none());
}

#[test]
fn sessions_replace_each_other() {
    let mut state = state();
    state.set_directory_navigation(directory("src"));
    assert_eq!(state.directory_navigation(), Some(&directory("src")));
    assert_eq!(state.symbol_navigation(), None);
    assert!(state.session_open());
    state.set_symbol_navigation(symbol(None));
    assert_eq!(state.directory_navigation(), None);
    assert_eq!(state.symbol_navigation(), Some(&symbol(None)));
}

#[test]
fn a_move_survives_the_dropdown_it_reopens() {
    let mut state = state();
    state.begin_directory_reanchor(directory("src"));
    assert!(state.reanchoring());
    assert_eq!(handle_name(state.reanchoring_popover_handle()), Some("directory"));
    assert!(state.queue_reanchor());
    assert!(state.reanchor_pending());
    assert!(state.take_queued_reanchor());
    assert!(!state.take_queued_reanchor(), "a queued move is taken once");
    assert!(state.queue_reanchor());
    state.set_directory_navigation(directory("src/main"));
    assert!(state.reanchoring());
    assert!(!state.reanchor_pending(), "reopening starts the move afresh");
    state.set_symbol_navigation(symbol(None));
    assert_eq!(
        state.popover,
        BreadcrumbPopover::ReanchoringSymbol {
            navigation: symbol(None),
            pending: false,
        }
    );
    assert_eq!(handle_name(state.reanchoring_popover_handle()), Some("symbol"));
    state.finish_reanchor();
    assert_eq!(state.popover, BreadcrumbPopover::Symbol(symbol(None)));
    state.finish_reanchor();
    assert_eq!(state.popover, BreadcrumbPopover::Symbol(symbol(None)));
    state.begin_symbol_reanchor(symbol(Some(item("fn a", 5))));
    assert!(state.reanchoring());
    state.finish_reanchor();
    assert_eq!(state.symbol_navigation(), Some(&symbol(Some(item("fn a", 5)))));
}

#[test]
fn nothing_is_queued_without_a_move() {
    let mut state = state();
    assert!(!state.queue_reanchor());
    assert!(!state.take_queued_reanchor());
    state.set_directory_navigation(directory("src"));
    assert!(!state.queue_reanchor());
    assert_eq!(state.popover, BreadcrumbPopover::Directory(directory("src")));
}

#[test]
fn only_the_dismissed_directory_is_cleared_and_not_while_moving() {
    let mut state = state();
    state.set_directory_navigation(directory("src"));
    assert!(!state.clear_directory_navigation(WorktreeId(0), &rel_path("lib")));
    assert!(!state.clear_directory_navigation(WorktreeId(1), &rel_path("src")));
    assert!(!state.clear_symbol_navigation(BufferId(1), None));
    assert!(state.session_open());
    assert!(state.clear_directory_navigation(WorktreeId(0), &rel_path("src")));
    assert!(!state.session_open());
    state.begin_directory_reanchor(directory("src"));
    assert!(
        !state.clear_directory_navigation(WorktreeId(0), &rel_path("src")),
        "the dropdown is only moving between segments, not closing"
    );
    assert!(state.session_open());
}

#[test]
fn only_the_dismissed_symbol_is_cleared() {
    let mut state = state();
    state.set_symbol_navigation(symbol(Some(item("fn a", 5))));
    assert!(!state.clear_symbol_navigation(BufferId(1), None));
    assert!(!state.clear_symbol_navigation(BufferId(2), Some(&item("fn a", 5))));
    assert!(!state.clear_symbol_navigation(BufferId(1), Some(&item("fn a", 6))));
    assert!(
        state.clear_symbol_navigation(BufferId(1), Some(&item("renamed", 5))),
        "a symbol is known by its range"
    );
    assert!(!state.session_open());
    state.set_symbol_navigation(symbol(None));
    assert!(state.clear_symbol_navigation(BufferId(1), None));
}

#[test]
fn test_breadcrumb_zone_mouse_down_keeps_trail_expanded_through_dismiss() {
    let mut state = state();
    state.expanded = true;
    state.set_directory_navigation(directory(""));
    state.zone_mouse_down = true;
    assert!(state.clear_directory_navigation(WorktreeId(0), &RelPath::empty()));
    assert!(
        state.directory_navigation().is_none(),
        "the dismiss must still close the session"
    );
    assert!(
        state.expanded,
        "a dismiss caused by a click on the bar must not collapse the trail"
    );

    // Same dismiss with no preceding mouse-down on the bar: collapses.
    state.zone_mouse_down = false;
    state.set_directory_navigation(directory(""));
    assert!(state.clear_directory_navigation(WorktreeId(0), &RelPath::empty()));
    assert!(
        !state.expanded,
        "a dismiss from outside the bar still collapses the trail"
    );
}

#[test]
fn closing_tells_whether_anything_changed() {
    let mut state = state();
    assert!(!state.close());
    state.expanded = true;
    state.dismiss_subscription = Some(3);
    assert!(state.close());
    assert!(!state.expanded);
    assert_eq!(state.dismiss_subscription, None);
    state.begin_directory_reanchor(directory("src"));
    state.zone_mouse_down = true;
    state.expanded = true;
    assert!(state.close());
    assert_eq!(state.popover, BreadcrumbPopover::Closed);
    assert!(!state.expanded, "closing collapses even under a click on the bar");
    assert!(state.zone_mouse_down);
}

#[test]
fn hiding_reaches_both_dropdowns_in_order() {
    let mut cx = Vec::new();
    state().hide_popovers(&mut cx);
    assert_eq!(cx, vec!["hide directory", "hide symbol"]);
    let mut cx = Vec::new();
    let unregistered: State = BreadcrumbState::new(None, None);
    unregistered.hide_popovers(&mut cx);
    assert!(cx.is_empty());
}

#[test]
fn test_dismiss_orphaned_breadcrumb_popover_clears_directory_navigation() {
    let mut state = state();
    let mut cx = Vec::new();
    state.set_directory_navigation(directory(""));
    let target = BreadcrumbSegmentTarget::Directory {
        worktree_id: WorktreeId(0),
        path: RelPath::empty(),
        active_path: None,
        is_active_segment: true,
    };
    assert!(dismiss_orphaned_breadcrumb_popover(&mut state, &target, &mut cx));
    assert!(
        state.directory_navigation().is_none(),
        "a segment the layout could not keep must drop its navigation session"
    );
    assert_eq!(cx, vec!["hide directory"]);

    state.set_symbol_navigation(symbol(None));
    let target = BreadcrumbSegmentTarget::Symbol {
        buffer_id: BufferId(1),
        item: None,
        is_active_segment: true,
    };
    assert!(dismiss_orphaned_breadcrumb_popover(&mut state, &target, &mut cx));
    assert!(state.symbol_navigation().is_none());
    assert_eq!(cx, vec!["hide directory", "hide symbol"]);
    assert!(!dismiss_orphaned_breadcrumb_popover(&mut state, &target, &mut cx));
}

#[test]
fn the_leaf_is_the_deepest_symbol_or_the_file() {
    assert_eq!(breadcrumb_leaf_navigation(None, &None), None);
    let leaf = breadcrumb_leaf_navigation(Some(BufferId(1)), &None);
    assert_eq!(leaf, Some(symbol(None)));
    let symbols = Some(CursorSymbols {
        buffer_id: BufferId(1),
        ancestors: vec![item("impl A", 0), item("fn b", 5)],
    });
    let leaf = breadcrumb_leaf_navigation(Some(BufferId(1)), &symbols);
    assert_eq!(leaf, Some(symbol(Some(item("fn b", 5)))));
    let leaf = breadcrumb_leaf_navigation(Some(BufferId(2)), &symbols).unwrap();
    assert_eq!(leaf.active_item, None, "the symbols are another buffer's");
    assert_eq!(leaf.buffer_id, BufferId(2));
}

fn version(values: &[u32]) -> Global {
    Global {
        values: values.to_vec(),
    }
}

#[test]
fn a_trail_is_cached_until_the_outline_changes() {
    let mut state = state();
    let range = AnchorRange { start: 5, end: 15 };
    let trail = vec![item("impl A", 0), item("fn b", 5)];
    assert_eq!(state.cached_symbol_trail(BufferId(1), &version(&[1]), &range), None);
    state.cache_symbol_trail(BufferId(1), version(&[1, 2]), range, &trail);
    assert_eq!(
        state.cached_symbol_trail(BufferId(1), &version(&[1, 2]), &range),
        Some(trail)
    );
    assert_eq!(state.cached_symbol_trail(BufferId(1), &version(&[1, 3]), &range), None);
    assert_eq!(state.cached_symbol_trail(BufferId(1), &version(&[1]), &range), None);
    assert_eq!(state.cached_symbol_trail(BufferId(2), &version(&[1, 2]), &range), None);
    let other = AnchorRange { start: 5, end: 16 };
    assert_eq!(state.cached_symbol_trail(BufferId(1), &version(&[1, 2]), &other), None);
}

#[test]
fn test_symbol_trail_survives_an_outline_that_lost_the_drilled_range() {
    let mut state = state();
    let stored = item("fn alpha", 0);
    let trail = symbol_trail_with_fallback(
        &mut state,
        Some(&version(&[1])),
        BufferId(1),
        &stored,
        |_, _| vec![],
        |_| unreachable!(),
    );
    assert_eq!(
        trail,
        vec![stored],
        "the stored segment must survive a lookup miss instead of vanishing"
    );
}

#[test]
fn test_cached_symbol_trail_follows_multibuffer_layout_changes() {
    let mut state = state();
    let stored = item("fn alpha", 5);
    let moved_to = |offset: u64| {
        move |trail_item: &OutlineItem| Some(item(&trail_item.text, trail_item.range.start + offset))
    };
    let version = version(&[1]);
    let trail = symbol_trail_with_fallback(
        &mut state,
        Some(&version),
        BufferId(1),
        &stored,
        |_, stored| vec![item("impl A", 0), stored.clone()],
        moved_to(100),
    );
    assert_eq!(trail, vec![item("impl A", 100), item("fn alpha", 105)]);
    let trail = symbol_trail_with_fallback(
        &mut state,
        Some(&version),
        BufferId(1),
        &stored,
        |_, _| unreachable!(),
        moved_to(200),
    );
    assert_eq!(
        trail,
        vec![item("impl A", 200), item("fn alpha", 205)],
        "a cached trail must be re-anchored into the current multibuffer layout"
    );
}

#[test]
fn an_outline_without_a_version_is_not_cached() {
    let mut state = state();
    let stored = item("fn alpha", 5);
    let trail = symbol_trail_with_fallback(
        &mut state,
        None,
        BufferId(1),
        &stored,
        |_, stored| vec![stored.clone()],
        |item| Some(item.clone()),
    );
    assert_eq!(trail.len(), 1);
    assert_eq!(state.symbol_trail_cache, None);
}

#[test]
fn a_trail_is_converted_whole_or_not_at_all() {
    let stored = item("fn alpha", 5);
    let trail = [item("impl A", 0), item("fn alpha", 5)];
    assert_eq!(
        converted_trail(&trail, &stored, |item| {
            if item.text == "impl A" {
                Some(item.clone())
            } else {
                None
            }
        }),
        vec![stored.clone()]
    );
    assert_eq!(
        converted_trail(&trail, &stored, |item| Some(item.clone())),
        trail.to_vec()
    );
}
