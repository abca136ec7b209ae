use breadcrumbs::delegate::{apply_filtered_matches, update_picker_matches, MatchUpdate};
use breadcrumbs::picker::{StringMatch, MAX_BREADCRUMB_MENU_ENTRIES};
use breadcrumbs::rel_path::RelPath;
use breadcrumbs::symbol::{
    breadcrumb_symbol_menu_outcome, match_emphasized_highlights, open_symbol_menu,
    symbol_copy_title, BreadcrumbSymbolDelegate, BreadcrumbSymbolMenuOutcome, SymbolStep,
};
use breadcrumbs::target::{AnchorRange, BufferId, OutlineItem, WorktreeId};
use breadcrumbs::text::{
    flatten_text_for_single_line_display, FontWeight, Highlight, HighlightStyle,
};

const RED: u32 = 0xff00_00ff;

fn item(text: &str, depth: usize, start: u64) -> OutlineItem {
    OutlineItem {
        depth,
        range: AnchorRange {
            start,
            end: start + 10,
        },
        selection_range: AnchorRange {
            start: start + 1,
            end: start + 2,
        },
        text: text.to_string(),
        highlight_ranges: vec![],
    }
}

fn members() -> Vec<OutlineItem> {
    vec![item("fn beta", 1, 20), item("fn gamma", 1, 40)]
}

fn delegate(target: Option<OutlineItem>, items: Vec<OutlineItem>) -> BreadcrumbSymbolDelegate {
    BreadcrumbSymbolDelegate::new(BufferId(1), target, items, false, None)
}

fn filtered(delegate: &BreadcrumbSymbolDelegate, query: &str) -> Vec<StringMatch> {
    delegate
        .picker
        .candidates
        .iter()
        .filter_map(|candidate| {
            let at = candidate.string.find(query)?;
            Some(StringMatch {
                candidate_id: candidate.id,
                string: candidate.string.clone(),
                positions: (at..at + query.len()).collect(),
            })
        })
        .collect()
}

fn run_query(delegate: &mut BreadcrumbSymbolDelegate, query: &str) {
    if update_picker_matches(delegate, query.to_string()) == MatchUpdate::Filter {
        let matches = filtered(delegate, query);
        apply_filtered_matches(delegate, matches);
    }
}

#[test]
fn test_breadcrumb_symbol_picker_filtering_follows_the_query() {
    let mut delegate = delegate(Some(item("fn gamma", 1, 40)), members());
    assert_eq!(
        delegate.item_at(1).map(|item| item.text.as_str()),
        Some("fn gamma"),
        "a leaf target lists its siblings"
    );
    assert_eq!(
        delegate.selected_index(),
        1,
        "the segment's own symbol is preselected"
    );

    assert_eq!(
        update_picker_matches(&mut delegate, String::new()),
        MatchUpdate::Done
    );
    assert_eq!(
        delegate.selected_index(),
        1,
        "clearing the query keeps the current symbol selected"
    );

    run_query(&mut delegate, "gam");
    assert_eq!(
        delegate.match_count(),
        1,
        "the query narrows the listing to the one discriminating match"
    );
    assert_eq!(
        delegate.item_at(0).map(|item| item.text.as_str()),
        Some("fn gamma")
    );
    assert_eq!(
        delegate.selected_index(),
        0,
        "filtering resets the selection to the top match"
    );
}

#[test]
fn test_a_late_outline_keeps_the_selected_symbol() {
    let mut delegate = delegate(Some(item("fn gamma", 1, 40)), members());
    run_query(&mut delegate, "a");
    let index = (0..delegate.match_count())
        .find(|index| delegate.item_at(*index).unwrap().text == "fn gamma")
        .expect("the query lists the sibling method");
    delegate.set_selected_index(index);
    let selected_range = delegate.item_at(index).unwrap().range;

    // The arriving outline adds a symbol that sorts ahead of the selected one.
    let mut updated = vec![item("struct Alpha", 0, 0)];
    updated.extend(members());
    delegate.reset_items(updated);
    run_query(&mut delegate, "a");

    assert_eq!(
        delegate.match_count(),
        3,
        "the added symbol matches the query too"
    );
    assert_ne!(
        delegate.item_at(0).map(|item| item.text.as_str()),
        Some("fn gamma"),
    );
    assert_eq!(
        delegate
            .item_at(delegate.selected_index())
            .map(|item| item.range),
        Some(selected_range),
        "a late outline keeps the symbol the user selected"
    );

    run_query(&mut delegate, "al");
    assert_eq!(
        delegate.pending_selection_key, None,
        "a newly typed query forgets the row that a rebuild wanted back"
    );
    assert_eq!(delegate.selected_index(), 0);
}

#[test]
fn test_breadcrumb_symbol_select_parent_with_a_target_navigates_the_editor() {
    let delegate = delegate(Some(item("fn gamma", 1, 40)), members());
    let step = delegate.select_parent(|buffer_id, target| {
        assert_eq!(buffer_id, BufferId(1));
        assert_eq!(target.text, "fn gamma");
        Some(item("impl Alpha", 0, 15))
    });
    assert_eq!(
        step,
        Some(SymbolStep::Symbol(Some(item("impl Alpha", 0, 15)))),
        "the navigation lands on the target's outline parent"
    );
    let step = delegate.select_parent(|_, _| None);
    assert_eq!(
        step,
        Some(SymbolStep::Symbol(None)),
        "above a top-level symbol stands the file"
    );
}

#[test]
fn test_breadcrumb_symbol_select_parent_without_a_target_or_parent_dir_is_a_noop() {
    let file = delegate(None, members());
    assert_eq!(
        file.select_parent(|_, _| unreachable!()),
        None,
        "the file segment with no parent directory has nowhere to go"
    );
    let parent = RelPath::from_unix_str("src").unwrap();
    let file = BreadcrumbSymbolDelegate::new(
        BufferId(1),
        None,
        members(),
        false,
        Some((WorktreeId(2), parent.clone())),
    );
    assert_eq!(
        file.select_parent(|_, _| unreachable!()),
        Some(SymbolStep::Directory(WorktreeId(2), parent))
    );
}

#[test]
fn test_select_parent_and_child_do_not_drill_with_a_query() {
    let mut delegate = delegate(Some(item("fn gamma", 1, 40)), members());
    run_query(&mut delegate, "fn");
    assert_eq!(delegate.select_parent(|_, _| unreachable!()), None);
    assert_eq!(delegate.select_child(|_, _| unreachable!()), None);
}

#[test]
fn test_breadcrumb_symbol_select_child_drills_into_the_selected_symbols_children() {
    let top_level = vec![item("struct Alpha", 0, 0), item("impl Alpha", 0, 15)];
    let mut delegate = delegate(None, top_level);
    assert_eq!(
        delegate
            .item_at(delegate.selected_index())
            .map(|item| item.text.as_str()),
        Some("struct Alpha"),
    );
    let step = delegate.select_child(|_, selected| {
        assert_eq!(selected.text, "struct Alpha");
        vec![item("one", 1, 5)]
    });
    assert_eq!(
        step,
        Some(SymbolStep::Symbol(Some(item("struct Alpha", 0, 0))))
    );
    assert_eq!(
        delegate.select_child(|_, _| vec![]),
        None,
        "nothing to drill into"
    );
    assert_eq!(
        delegate.select_child(|_, selected| vec![item("impl Alpha", 0, 15), selected.clone()]),
        None,
        "the sibling fallback lists the symbol itself: a leaf"
    );
    delegate.set_selected_index(9);
    assert_eq!(delegate.select_child(|_, _| unreachable!()), None);
    assert_eq!(delegate.confirm(), None);
    delegate.set_selected_index(1);
    assert_eq!(
        delegate.confirm(),
        Some(item("impl Alpha", 0, 15)),
        "confirming goes to the selected symbol"
    );
}

#[test]
fn test_breadcrumb_symbol_menu_outcome_is_not_ready_before_prefetch() {
    assert_eq!(
        breadcrumb_symbol_menu_outcome(vec![], false),
        BreadcrumbSymbolMenuOutcome::NotReady
    );
}

#[test]
fn test_breadcrumb_symbol_menu_outcome_is_empty_when_genuinely_empty() {
    assert_eq!(
        breadcrumb_symbol_menu_outcome(vec![], true),
        BreadcrumbSymbolMenuOutcome::Empty
    );
}

#[test]
fn test_breadcrumb_symbol_menu_outcome_is_ready_with_the_resolved_items() {
    assert_eq!(
        breadcrumb_symbol_menu_outcome(members(), false),
        BreadcrumbSymbolMenuOutcome::Ready(members())
    );
    assert_eq!(
        breadcrumb_symbol_menu_outcome(members(), true),
        BreadcrumbSymbolMenuOutcome::Ready(members())
    );
}

#[test]
fn test_breadcrumb_symbol_picker_fills_in_once_the_outline_resolves() {
    let menu = open_symbol_menu(
        BufferId(1),
        None,
        None,
        breadcrumb_symbol_menu_outcome(vec![], false),
    );
    assert!(menu.prefetch);
    let mut delegate = menu.delegate;
    assert_eq!(delegate.no_matches_text(), Some("Loading symbols…".to_string()));

    run_query(&mut delegate, "struct");
    assert_eq!(
        delegate.no_matches_text(),
        Some("Loading symbols…".to_string()),
        "loading wins over the typed query's own empty result"
    );

    delegate.outline_ready(vec![item("struct Foo", 0, 0), item("impl Foo", 0, 15)]);
    assert!(!delegate.listing.loading);
    assert_eq!(delegate.match_count(), 0, "the filter is still to be run again");
    run_query(&mut delegate, "struct");
    assert_eq!(
        delegate.match_count(),
        1,
        "the still-typed query filters the now-real symbols instead of listing all of them"
    );
    assert_eq!(
        delegate.item_at(0).map(|item| item.text.as_str()),
        Some("struct Foo"),
    );
}

#[test]
fn an_empty_symbol_listing_says_why() {
    let mut delegate = delegate(None, vec![]);
    assert_eq!(delegate.placeholder_text(), "Search symbols…");
    assert_eq!(delegate.no_matches_text(), Some("No symbols".to_string()));
    run_query(&mut delegate, "x");
    assert_eq!(delegate.no_matches_text(), Some("No matches".to_string()));
    let menu = open_symbol_menu(BufferId(1), None, None, BreadcrumbSymbolMenuOutcome::Empty);
    assert!(!menu.prefetch);
    assert_eq!(menu.delegate.no_matches_text(), Some("No symbols".to_string()));
}

#[test]
fn the_current_symbol_is_listed_past_the_cap() {
    let count = MAX_BREADCRUMB_MENU_ENTRIES + 20;
    let items: Vec<OutlineItem> = (0..count)
        .map(|index| item(&format!("fn symbol_{index}"), 0, 100 * index as u64))
        .collect();
    let current = items[count - 1].clone();
    let delegate = delegate(Some(current.clone()), items);
    assert_eq!(delegate.match_count(), MAX_BREADCRUMB_MENU_ENTRIES);
    assert_eq!(
        delegate
            .item_at(delegate.selected_index())
            .map(|item| item.range),
        Some(current.range)
    );
    assert!(delegate.shows_current_marker());
    assert_eq!(delegate.current_range(), Some(current.range));
}

#[test]
fn symbols_of_several_lines_are_listed_on_one() {
    let delegate = delegate(None, vec![item("fn outer(\n) {}", 0, 0)]);
    assert_eq!(delegate.picker.candidates[0].string, "fn outer( ) {}");
    assert!(!delegate.shows_current_marker());
}

#[test]
fn a_right_click_copies_the_path_or_the_line() {
    assert_eq!(symbol_copy_title(&None), "Copy File Path");
    assert_eq!(
        symbol_copy_title(&Some(item("fn beta", 1, 20))),
        "Copy Path with Line Number"
    );
}

fn ranges(string_match: &StringMatch) -> Vec<(usize, usize)> {
    string_match
        .positions
        .iter()
        .map(|position| (*position, *position + 1))
        .collect()
}

fn combine(over: Vec<Highlight>, under: &Vec<Highlight>) -> Vec<Highlight> {
    under.iter().copied().chain(over).collect()
}

fn syntax_highlight() -> HighlightStyle {
    HighlightStyle {
        color: Some(RED),
        ..HighlightStyle::default()
    }
}

#[test]
fn test_stale_match_emphasis_is_skipped_when_the_item_text_changed() {
    let mut item = item("fn short", 0, 0);
    item.highlight_ranges = vec![Highlight {
        start: 0,
        end: 2,
        style: syntax_highlight(),
    }];
    let stale = StringMatch {
        candidate_id: 0,
        positions: vec![20, 21],
        string: "fn a_name_much_longer_than_the_refreshed_item".to_string(),
    };
    assert_eq!(
        match_emphasized_highlights(
            &item,
            &flatten_text_for_single_line_display(&item.text),
            &stale,
            ranges,
            combine,
        ),
        vec![Highlight {
            start: 0,
            end: 2,
            style: syntax_highlight(),
        }],
        "a stale match must render syntax highlights only"
    );

    let fresh = StringMatch {
        candidate_id: 0,
        positions: vec![3, 4],
        string: "fn short".to_string(),
    };
    assert!(
        match_emphasized_highlights(
            &item,
            &flatten_text_for_single_line_display(&item.text),
            &fresh,
            ranges,
            combine,
        )
        .iter()
        .any(|highlight| highlight.style.font_weight == Some(FontWeight::Bold)),
        "a match for the current text keeps its bold emphasis"
    );
}

#[test]
fn test_queried_rows_carry_syntax_highlights_and_bold_match_emphasis() {
    let mut struct_item = item("struct Alpha", 0, 0);
    struct_item.highlight_ranges = vec![Highlight {
        start: 0,
        end: 12,
        style: syntax_highlight(),
    }];
    let mut delegate = delegate(Some(struct_item.clone()), vec![struct_item, item("impl", 0, 15)]);
    run_query(&mut delegate, "struct");
    let row = delegate.render_match(0, true, ranges, combine).unwrap();
    assert!(row.selected);
    assert_eq!(row.current_marker, Some(true));
    assert_eq!(row.text, "struct Alpha");
    let at = |offset: usize, style: &dyn Fn(&HighlightStyle) -> bool| {
        row.highlights
            .iter()
            .any(|highlight| (highlight.start..highlight.end).contains(&offset) && style(&highlight.style))
    };
    for offset in 0..6 {
        assert!(at(offset, &|style| style.font_weight == Some(FontWeight::Bold)));
        assert!(at(offset, &|style| style.color == Some(RED)));
    }
    assert!(!at(11, &|style| style.font_weight == Some(FontWeight::Bold)));
    assert!(at(11, &|style| style.color == Some(RED)));
    assert_eq!(delegate.render_match(4, false, ranges, combine), None);

    run_query(&mut delegate, "");
    let row = delegate.render_match(1, false, ranges, combine).unwrap();
    assert_eq!(row.current_marker, Some(false));
    assert_eq!(row.text, "impl");
}

#[test]
fn test_breadcrumb_symbol_picker_navigates_and_dismisses_from_the_keyboard() {
    let items = vec![item("struct Alpha", 0, 0), item("impl Alpha", 0, 20)];
    let mut delegate = delegate(None, items);
    delegate.set_selected_index(delegate.selected_index() + 1);
    assert_eq!(
        delegate
            .item_at(delegate.selected_index())
            .map(|item| item.text.as_str()),
        Some("impl Alpha"),
    );
    let chosen = delegate.confirm().expect("confirming a row dismisses the popover");
    assert_eq!(
        chosen.selection_range,
        AnchorRange { start: 21, end: 22 },
        "confirming the selected row puts the cursor on the impl's name, not its start"
    );
}
