//! The bar's place in the toolbar: which item it belongs to, and where it stands.

use vstd::prelude::*;

use crate::text::HighlightedText;

verus! {

/// Where a toolbar item stands.
#[derive(Clone, Copy, Debug, PartialEq, Eq, Structural)]
pub enum ToolbarItemLocation {
    Hidden,
    PrimaryLeft,
    PrimaryRight,
    Secondary,
}

/// An item of the pane, under its id.
pub struct PaneItem<I> {
    pub item_id: u64,
    pub item: I,
}

/// The bar of a pane. `I` is a handle to an item and `S` a subscription to its events.
pub struct Breadcrumbs<I, S> {
    pub pane_focused: bool,
    pub active_item: Option<PaneItem<I>>,
    pub subscription: Option<S>,
}

/// What becomes of the item that the bar belonged to before.
pub struct PaneItemChange<I> {
    /// The item that the bar no longer belongs to: a dropdown that it was moving is not reopened.
    pub cancel_reanchor: Option<PaneItem<I>>,
    pub location: ToolbarItemLocation,
}

/// What an item tells the bar.
#[derive(Clone, Copy, Debug, PartialEq, Eq, Structural)]
pub enum ItemEvent {
    UpdateBreadcrumbs,
    Other,
}

/// What the bar does about an event.
#[derive(Clone, Copy, Debug, PartialEq, Eq, Structural)]
pub struct ToolbarReaction {
    /// The bar is drawn anew.
    pub notify: bool,
    pub change_location: Option<ToolbarItemLocation>,
}

/// The id of an item, where there is one.
pub open spec fn id_of<I>(item: Option<PaneItem<I>>) -> Option<u64> {
    match item {
        Some(item) => Some(item.item_id),
        None => None,
    }
}

impl<I, S> Default for Breadcrumbs<I, S> {
    fn default() -> (bar: Breadcrumbs<I, S>)
        ensures
            bar == (Breadcrumbs::<I, S> {
                pane_focused: false,
                active_item: None,
                subscription: None,
            }),
    {
        Breadcrumbs::new()
    }
}

impl<I, S> Breadcrumbs<I, S> {
    /// A bar that belongs to no item.
    pub fn new() -> (bar: Breadcrumbs<I, S>)
        ensures
            bar == (Breadcrumbs::<I, S> {
                pane_focused: false,
                active_item: None,
                subscription: None,
            }),
    {
        Breadcrumbs { pane_focused: false, active_item: None, subscription: None }
    }

    /// Gives the bar to another item of its pane, or to none. `subscribe` watches the item's
    /// events, and `location` tells where the item wants its bar.
    pub fn set_active_pane_item<W: Fn(&I) -> S, L: Fn(&I) -> ToolbarItemLocation>(
        &mut self,
        active_pane_item: Option<PaneItem<I>>,
        subscribe: W,
        location: L,
    ) -> (change: PaneItemChange<I>)
        requires
            active_pane_item matches Some(item) ==> call_requires(subscribe, (&item.item,))
                && call_requires(location, (&item.item,)),
        ensures
            change.cancel_reanchor == if id_of(old(self).active_item) == id_of(active_pane_item) {
                None
            } else {
                old(self).active_item
            },
            final(self).pane_focused == old(self).pane_focused,
            final(self).active_item == active_pane_item,
            match active_pane_item {
                Some(item) => {
                    &&& call_ensures(location, (&item.item,), change.location)
                    &&& final(self).subscription matches Some(subscription) && call_ensures(
                        subscribe,
                        (&item.item,),
                        subscription,
                    )
                },
                None => {
                    &&& change.location == ToolbarItemLocation::Hidden
                    &&& final(self).subscription == old(self).subscription
                },
            },
    {
        let switching_away: bool = match (&self.active_item, &active_pane_item) {
            (Some(previous), Some(item)) => previous.item_id != item.item_id,
            (Some(_), None) => true,
            (None, _) => false,
        };
        let previous_item: Option<PaneItem<I>> = self.active_item.take();
        let cancel_reanchor: Option<PaneItem<I>> = if switching_away {
            previous_item
        } else {
            None
        };
        match active_pane_item {
            None => PaneItemChange { cancel_reanchor, location: ToolbarItemLocation::Hidden },
            Some(item) => {
                self.subscription = Some(subscribe(&item.item));
                let item_location: ToolbarItemLocation = location(&item.item);
                self.active_item = Some(item);
                PaneItemChange { cancel_reanchor, location: item_location }
            },
        }
    }

    /// Follows an event of the item that the bar subscribed to.
    pub fn on_item_event<L: Fn(&I) -> ToolbarItemLocation>(
        &self,
        event: ItemEvent,
        location: L,
    ) -> (reaction: ToolbarReaction)
        requires
            self.active_item matches Some(item) ==> call_requires(location, (&item.item,)),
        ensures
            reaction.notify == (event == ItemEvent::UpdateBreadcrumbs),
            reaction.change_location is Some == (event == ItemEvent::UpdateBreadcrumbs
                && self.active_item is Some),
            reaction.change_location is Some ==> call_ensures(
                location,
                (&self.active_item->0.item,),
                reaction.change_location->0,
            ),
    {
        match event {
            ItemEvent::UpdateBreadcrumbs => ToolbarReaction {
                notify: true,
                change_location: match &self.active_item {
                    Some(item) => Some(location(&item.item)),
                    None => None,
                },
            },
            ItemEvent::Other => ToolbarReaction { notify: false, change_location: None },
        }
    }

    pub fn pane_focus_update(&mut self, pane_focused: bool)
        ensures
            *final(self) == (Breadcrumbs { pane_focused, ..*old(self) }),
    {
        self.pane_focused = pane_focused;
    }

    /// The item whose segments the bar shows, and those segments with the font they are set in. The
    /// bar stays empty without an item, for an item without segments, and until something can
    /// render them.
    pub fn shown_segments<F, B: Fn(&I) -> Option<(Vec<HighlightedText>, Option<F>)>>(
        &self,
        breadcrumbs: B,
        has_renderer: bool,
    ) -> (shown: Option<(Vec<HighlightedText>, Option<F>)>)
        requires
            self.active_item matches Some(item) ==> call_requires(breadcrumbs, (&item.item,)),
        ensures
            match self.active_item {
                Some(item) => exists|given: Option<(Vec<HighlightedText>, Option<F>)>| #[trigger]
                    call_ensures(breadcrumbs, (&item.item,), given) && shown == if has_renderer {
                        given
                    } else {
                        None
                    },
                None => shown is None,
            },
    {
        match &self.active_item {
            Some(item) => {
                let given: Option<(Vec<HighlightedText>, Option<F>)> = breadcrumbs(&item.item);
                if has_renderer {
                    given
                } else {
                    None
                }
            },
            None => None,
        }
    }
}

} // verus!
