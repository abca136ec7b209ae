use breadcrumbs::text::HighlightedText;
use breadcrumbs::toolbar::{Breadcrumbs, ItemEvent, PaneItem, ToolbarItemLocation, ToolbarReaction};

type Bar = Breadcrumbs<&'static str, u8>;

fn pane_item(item_id: u64, item: &'static str) -> Option<PaneItem<&'static str>> {
    Some(PaneItem { item_id, item })
}

fn location(item: &&'static str) -> ToolbarItemLocation {
    if *item == "terminal" {
        ToolbarItemLocation::Hidden
    } else {
        ToolbarItemLocation::PrimaryLeft
    }
}

#[test]
fn a_new_bar_belongs_to_no_item() {
    let bar: Bar = Breadcrumbs::default();
    assert!(!bar.pane_focused);
    assert!(bar.active_item.is_none());
    assert!(bar.subscription.is_none());
}

#[test]
fn switching_away_cancels_the_move_of_the_previous_item() {
    let mut bar: Bar = Breadcrumbs::new();
    let change = bar.set_active_pane_item(pane_item(1, "editor"), |_| 1, location);
    assert!(change.cancel_reanchor.is_none());
    assert_eq!(change.location, ToolbarItemLocation::PrimaryLeft);
    assert_eq!(bar.subscription, Some(1));

    let change = bar.set_active_pane_item(pane_item(1, "editor"), |_| 2, location);
    assert!(change.cancel_reanchor.is_none(), "the item stays the same");
    assert_eq!(bar.subscription, Some(2));

    let change = bar.set_active_pane_item(pane_item(2, "terminal"), |_| 3, location);
    assert_eq!(change.cancel_reanchor.map(|item| item.item_id), Some(1));
    assert_eq!(change.location, ToolbarItemLocation::Hidden);

    let change = bar.set_active_pane_item(None, |_| unreachable!(), |_| unreachable!());
    assert_eq!(change.cancel_reanchor.map(|item| item.item_id), Some(2));
    assert_eq!(change.location, ToolbarItemLocation::Hidden);
    assert!(bar.active_item.is_none());
    assert_eq!(bar.subscription, Some(3));
}

#[test]
fn the_bar_follows_its_items_events() {
    let mut bar: Bar = Breadcrumbs::new();
    assert_eq!(
        bar.on_item_event(ItemEvent::UpdateBreadcrumbs, location),
        ToolbarReaction {
            notify: true,
            change_location: None,
        }
    );
    bar.set_active_pane_item(pane_item(1, "editor"), |_| 1, location);
    assert_eq!(
        bar.on_item_event(ItemEvent::UpdateBreadcrumbs, location),
        ToolbarReaction {
            notify: true,
            change_location: Some(ToolbarItemLocation::PrimaryLeft),
        }
    );
    assert_eq!(
        bar.on_item_event(ItemEvent::Other, location),
        ToolbarReaction {
            notify: false,
            change_location: None,
        }
    );
}

#[test]
fn the_bar_notes_the_focus_of_its_pane() {
    let mut bar: Bar = Breadcrumbs::new();
    bar.pane_focus_update(true);
    assert!(bar.pane_focused);
    bar.pane_focus_update(false);
    assert!(!bar.pane_focused);
}

#[test]
fn the_bar_stays_empty_without_segments_or_a_renderer() {
    let segments = |item: &&'static str| {
        if *item == "terminal" {
            None
        } else {
            Some((
                vec![HighlightedText {
                    text: "main.rs".to_string(),
                    highlights: vec![],
                }],
                Some("a font"),
            ))
        }
    };
    let mut bar: Bar = Breadcrumbs::new();
    assert!(bar.shown_segments(segments, true).is_none());
    bar.set_active_pane_item(pane_item(2, "terminal"), |_| 1, location);
    assert!(bar.shown_segments(segments, true).is_none());
    bar.set_active_pane_item(pane_item(1, "editor"), |_| 1, location);
    assert!(bar.shown_segments(segments, false).is_none());
    let (labels, font) = bar.shown_segments(segments, true).unwrap();
    assert_eq!(labels[0].text, "main.rs");
    assert_eq!(font, Some("a font"));
}
