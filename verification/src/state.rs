//! Which dropdown session is live, and what the bar remembers while one is.

use vstd::prelude::*;

use crate::rel_path::RelPath;
use crate::target::{
    clone_items, AnchorRange, BufferId, OutlineItem, OutlineItemView, WorktreeId,
};

verus! {

/// The handle through which the bar shows and hides a dropdown.
pub trait ErasedBreadcrumbPopoverHandle {
    /// The application that owns the dropdown.
    type App;

    /// The window that the dropdown opens in.
    type Window;

    /// Hiding the dropdown may take the application from `before` to `after`; a handle that does
    /// not say promises nothing.
    open spec fn hides(&self, before: Self::App, after: Self::App) -> bool {
        true
    }

    fn hide_popover(&self, cx: &mut Self::App)
        ensures
            self.hides(*old(cx), *final(cx)),
    ;

    fn show(&self, window: &mut Self::Window, cx: &mut Self::App);
}

/// A session of the directory dropdown.
#[derive(Debug, PartialEq, Eq)]
pub struct BreadcrumbNavigation {
    pub worktree_id: WorktreeId,
    /// The directory whose segment the dropdown hangs under.
    pub active_path: RelPath,
    /// The dropdown moved away from the segment it was opened under.
    pub navigated: bool,
}

/// A session of the symbol dropdown.
#[derive(Debug, PartialEq, Eq)]
pub struct BreadcrumbSymbolNavigation {
    pub buffer_id: BufferId,
    /// The symbol whose segment the dropdown hangs under; the file's own where there is none.
    pub active_item: Option<OutlineItem>,
    /// The dropdown moved away from the segment it was opened under.
    pub navigated: bool,
}

/// Which dropdown session is live; the `Reanchoring` variants cover the dropdown moving to a new
/// segment.
#[allow(inconsistent_fields)]
#[derive(Debug, PartialEq, Eq)]
pub enum BreadcrumbPopover {
    Closed,
    Directory(BreadcrumbNavigation),
    Symbol(BreadcrumbSymbolNavigation),
    ReanchoringDirectory { navigation: BreadcrumbNavigation, pending: bool },
    ReanchoringSymbol { navigation: BreadcrumbSymbolNavigation, pending: bool },
}

impl BreadcrumbPopover {
    /// The dropdown is moving to a new segment.
    pub open spec fn is_reanchoring(self) -> bool {
        self is ReanchoringDirectory || self is ReanchoringSymbol
    }

    /// The dropdown is moving, and another move is queued behind it.
    pub open spec fn is_pending(self) -> bool {
        match self {
            BreadcrumbPopover::ReanchoringDirectory { pending, .. } => pending,
            BreadcrumbPopover::ReanchoringSymbol { pending, .. } => pending,
            _ => false,
        }
    }

    /// The session with `pending` in place of what a move had queued; itself where nothing moves.
    pub open spec fn with_pending(self, pending: bool) -> BreadcrumbPopover {
        match self {
            BreadcrumbPopover::ReanchoringDirectory { navigation, .. } =>
                BreadcrumbPopover::ReanchoringDirectory { navigation, pending },
            BreadcrumbPopover::ReanchoringSymbol { navigation, .. } =>
                BreadcrumbPopover::ReanchoringSymbol { navigation, pending },
            other => other,
        }
    }

    /// The session once its move has ended.
    pub open spec fn settled(self) -> BreadcrumbPopover {
        match self {
            BreadcrumbPopover::ReanchoringDirectory { navigation, .. } =>
                BreadcrumbPopover::Directory(navigation),
            BreadcrumbPopover::ReanchoringSymbol { navigation, .. } =>
                BreadcrumbPopover::Symbol(navigation),
            other => other,
        }
    }

    /// The directory session, moving or not.
    pub open spec fn directory(self) -> Option<BreadcrumbNavigation> {
        match self {
            BreadcrumbPopover::Directory(navigation) => Some(navigation),
            BreadcrumbPopover::ReanchoringDirectory { navigation, .. } => Some(navigation),
            _ => None,
        }
    }

    /// The symbol session, moving or not.
    pub open spec fn symbol(self) -> Option<BreadcrumbSymbolNavigation> {
        match self {
            BreadcrumbPopover::Symbol(navigation) => Some(navigation),
            BreadcrumbPopover::ReanchoringSymbol { navigation, .. } => Some(navigation),
            _ => None,
        }
    }

    /// The session once the bar is told to show the dropdown of a directory.
    pub open spec fn on_directory(self, navigation: BreadcrumbNavigation) -> BreadcrumbPopover {
        if self.is_reanchoring() {
            BreadcrumbPopover::ReanchoringDirectory { navigation, pending: false }
        } else {
            BreadcrumbPopover::Directory(navigation)
        }
    }

    /// The session once the bar is told to show the dropdown of a symbol.
    pub open spec fn on_symbol(self, navigation: BreadcrumbSymbolNavigation) -> BreadcrumbPopover {
        if self.is_reanchoring() {
            BreadcrumbPopover::ReanchoringSymbol { navigation, pending: false }
        } else {
            BreadcrumbPopover::Symbol(navigation)
        }
    }

    /// The session is the directory one of `path`, and it is not moving.
    pub open spec fn rests_on_directory(
        self,
        worktree_id: WorktreeId,
        path: Seq<Seq<char>>,
    ) -> bool {
        match self {
            BreadcrumbPopover::Directory(navigation) => navigation.worktree_id == worktree_id
                && navigation.active_path@ == path,
            _ => false,
        }
    }

    /// The session is the symbol one of `range` in the buffer, and it is not moving.
    pub open spec fn rests_on_symbol(
        self,
        buffer_id: BufferId,
        range: Option<AnchorRange>,
    ) -> bool {
        match self {
            BreadcrumbPopover::Symbol(navigation) => navigation.buffer_id == buffer_id
                && item_range(navigation.active_item.deep_view()) == range,
            _ => false,
        }
    }
}

/// The range of an item, where there is one.
pub open spec fn item_range(item: Option<OutlineItemView>) -> Option<AnchorRange> {
    match item {
        Some(item) => Some(item.range),
        None => None,
    }
}

/// A version of a buffer: how far each replica's edits have come.
#[derive(Debug, PartialEq, Eq)]
pub struct Global {
    pub values: Vec<u32>,
}

impl Global {
    /// Whether the two versions are the same.
    pub fn same(&self, other: &Global) -> (same: bool)
        ensures
            same == (self.values@ == other.values@),
    {
        if self.values.len() != other.values.len() {
            return false;
        }
        let mut index: usize = 0;
        while index < self.values.len()
            invariant
                index <= self.values@.len() == other.values@.len(),
                forall|i: int| 0 <= i < index ==> #[trigger] self.values@[i] == other.values@[i],
            decreases self.values@.len() - index,
        {
            if self.values[index] != other.values[index] {
                return false;
            }
            index = index + 1;
        }
        assert(self.values@ =~= other.values@);
        true
    }
}

impl Clone for Global {
    fn clone(&self) -> (copy: Global)
        ensures
            copy.values@ == self.values@,
    {
        let values = self.values.clone();
        assert(values@ =~= self.values@);
        Global { values }
    }
}

/// The trail of a symbol, kept as long as the outline it was read from. In buffer coordinates on
/// purpose: multibuffer layout can change under the key.
#[derive(Debug, PartialEq, Eq)]
pub struct SymbolTrailCache {
    pub buffer_id: BufferId,
    pub version: Global,
    pub range: AnchorRange,
    pub trail: Vec<OutlineItem>,
}

/// What the bar of one editor remembers. `H` is a dropdown handle and `S` a subscription to a
/// dropdown's dismissal.
pub struct BreadcrumbState<H, S> {
    pub popover: BreadcrumbPopover,
    /// The bar shows every segment and scrolls, instead of dropping some.
    pub expanded: bool,
    /// Set for one frame by a mouse-down on the bar, so a dismiss from that click keeps the trail
    /// expanded.
    pub zone_mouse_down: bool,
    pub dismiss_subscription: Option<S>,
    pub directory_popover_handle: Option<H>,
    pub symbol_popover_handle: Option<H>,
    pub symbol_trail_cache: Option<SymbolTrailCache>,
}

/// The trail that the cache holds for the symbol at `range`.
pub open spec fn cached_trail(
    cache: Option<SymbolTrailCache>,
    buffer_id: BufferId,
    version: Seq<u32>,
    range: AnchorRange,
) -> Option<Seq<OutlineItemView>> {
    match cache {
        Some(cache) => if cache.buffer_id == buffer_id && cache.version.values@ == version
            && cache.range == range {
            Some(cache.trail.deep_view())
        } else {
            None
        },
        None => None,
    }
}

/// Hiding a dropdown that may not exist takes the application from `before` to `after`.
pub open spec fn optionally_hides<H: ErasedBreadcrumbPopoverHandle>(
    handle: Option<H>,
    before: H::App,
    after: H::App,
) -> bool {
    match handle {
        Some(handle) => handle.hides(before, after),
        None => before == after,
    }
}

impl<H, S> BreadcrumbState<H, S> {
    /// A closed, collapsed bar that reaches its dropdowns through the given handles.
    pub fn new(
        directory_popover_handle: Option<H>,
        symbol_popover_handle: Option<H>,
    ) -> (state: BreadcrumbState<H, S>)
        ensures
            state == (BreadcrumbState::<H, S> {
                popover: BreadcrumbPopover::Closed,
                expanded: false,
                zone_mouse_down: false,
                dismiss_subscription: None,
                directory_popover_handle,
                symbol_popover_handle,
                symbol_trail_cache: None,
            }),
    {
        BreadcrumbState {
            popover: BreadcrumbPopover::Closed,
            expanded: false,
            zone_mouse_down: false,
            dismiss_subscription: None,
            directory_popover_handle,
            symbol_popover_handle,
            symbol_trail_cache: None,
        }
    }

    pub fn directory_navigation(&self) -> (navigation: Option<&BreadcrumbNavigation>)
        ensures
            match navigation {
                Some(navigation) => self.popover.directory() == Some(*navigation),
                None => self.popover.directory() is None,
            },
    {
        match &self.popover {
            BreadcrumbPopover::Directory(navigation) => Some(navigation),
            BreadcrumbPopover::ReanchoringDirectory { navigation, .. } => Some(navigation),
            _ => None,
        }
    }

    pub fn symbol_navigation(&self) -> (navigation: Option<&BreadcrumbSymbolNavigation>)
        ensures
            match navigation {
                Some(navigation) => self.popover.symbol() == Some(*navigation),
                None => self.popover.symbol() is None,
            },
    {
        match &self.popover {
            BreadcrumbPopover::Symbol(navigation) => Some(navigation),
            BreadcrumbPopover::ReanchoringSymbol { navigation, .. } => Some(navigation),
            _ => None,
        }
    }

    pub fn directory_popover_handle(&self) -> (handle: Option<&H>)
        ensures
            match handle {
                Some(handle) => self.directory_popover_handle == Some(*handle),
                None => self.directory_popover_handle is None,
            },
    {
        self.directory_popover_handle.as_ref()
    }

    pub fn symbol_popover_handle(&self) -> (handle: Option<&H>)
        ensures
            match handle {
                Some(handle) => self.symbol_popover_handle == Some(*handle),
                None => self.symbol_popover_handle is None,
            },
    {
        self.symbol_popover_handle.as_ref()
    }

    pub fn session_open(&self) -> (open: bool)
        ensures
            open == (self.popover !is Closed),
    {
        match &self.popover {
            BreadcrumbPopover::Closed => false,
            _ => true,
        }
    }

    pub fn reanchoring(&self) -> (reanchoring: bool)
        ensures
            reanchoring == self.popover.is_reanchoring(),
    {
        match &self.popover {
            BreadcrumbPopover::ReanchoringDirectory { .. } => true,
            BreadcrumbPopover::ReanchoringSymbol { .. } => true,
            _ => false,
        }
    }

    pub fn reanchor_pending(&self) -> (pending: bool)
        ensures
            pending == self.popover.is_pending(),
    {
        match &self.popover {
            BreadcrumbPopover::ReanchoringDirectory { pending, .. } => *pending,
            BreadcrumbPopover::ReanchoringSymbol { pending, .. } => *pending,
            _ => false,
        }
    }

    /// Keeps an in-flight reanchor open: its `show` reopens the dropdown through this same
    /// session.
    pub fn set_directory_navigation(&mut self, navigation: BreadcrumbNavigation)
        ensures
            *final(self) == (BreadcrumbState {
                popover: old(self).popover.on_directory(navigation),
                ..*old(self)
            }),
    {
        if self.reanchoring() {
            self.popover = BreadcrumbPopover::ReanchoringDirectory { navigation, pending: false };
        } else {
            self.popover = BreadcrumbPopover::Directory(navigation);
        }
    }

    /// Keeps an in-flight reanchor open, as [`Self::set_directory_navigation`] does.
    pub fn set_symbol_navigation(&mut self, navigation: BreadcrumbSymbolNavigation)
        ensures
            *final(self) == (BreadcrumbState {
                popover: old(self).popover.on_symbol(navigation),
                ..*old(self)
            }),
    {
        if self.reanchoring() {
            self.popover = BreadcrumbPopover::ReanchoringSymbol { navigation, pending: false };
        } else {
            self.popover = BreadcrumbPopover::Symbol(navigation);
        }
    }

    pub fn begin_directory_reanchor(&mut self, navigation: BreadcrumbNavigation)
        ensures
            *final(self) == (BreadcrumbState {
                popover: BreadcrumbPopover::ReanchoringDirectory { navigation, pending: false },
                ..*old(self)
            }),
    {
        self.popover = BreadcrumbPopover::ReanchoringDirectory { navigation, pending: false };
    }

    pub fn begin_symbol_reanchor(&mut self, navigation: BreadcrumbSymbolNavigation)
        ensures
            *final(self) == (BreadcrumbState {
                popover: BreadcrumbPopover::ReanchoringSymbol { navigation, pending: false },
                ..*old(self)
            }),
    {
        self.popover = BreadcrumbPopover::ReanchoringSymbol { navigation, pending: false };
    }

    /// Queues another move behind the one in flight; tells whether there was one.
    pub fn queue_reanchor(&mut self) -> (queued: bool)
        ensures
            queued == old(self).popover.is_reanchoring(),
            *final(self) == (BreadcrumbState {
                popover: old(self).popover.with_pending(true),
                ..*old(self)
            }),
    {
        match &mut self.popover {
            BreadcrumbPopover::ReanchoringDirectory { pending, .. } => {
                *pending = true;
                true
            },
            BreadcrumbPopover::ReanchoringSymbol { pending, .. } => {
                *pending = true;
                true
            },
            _ => false,
        }
    }

    /// Takes the queued move, if there is one.
    pub fn take_queued_reanchor(&mut self) -> (taken: bool)
        ensures
            taken == old(self).popover.is_pending(),
            *final(self) == (BreadcrumbState {
                popover: old(self).popover.with_pending(false),
                ..*old(self)
            }),
    {
        match &mut self.popover {
            BreadcrumbPopover::ReanchoringDirectory { pending, .. } => {
                let taken: bool = *pending;
                *pending = false;
                taken
            },
            BreadcrumbPopover::ReanchoringSymbol { pending, .. } => {
                let taken: bool = *pending;
                *pending = false;
                taken
            },
            _ => false,
        }
    }

    /// The handle of the dropdown that is moving.
    pub fn reanchoring_popover_handle(&self) -> (handle: Option<&H>)
        ensures
            match handle {
                Some(handle) => {
                    ||| self.popover is ReanchoringDirectory && self.directory_popover_handle
                        == Some(*handle)
                    ||| self.popover is ReanchoringSymbol && self.symbol_popover_handle == Some(
                        *handle,
                    )
                },
                None => {
                    &&& self.popover is ReanchoringDirectory ==> self.directory_popover_handle
                        is None
                    &&& self.popover is ReanchoringSymbol ==> self.symbol_popover_handle is None
                },
            },
    {
        match &self.popover {
            BreadcrumbPopover::ReanchoringDirectory { .. } => self.directory_popover_handle.as_ref(),
            BreadcrumbPopover::ReanchoringSymbol { .. } => self.symbol_popover_handle.as_ref(),
            _ => None,
        }
    }

    pub fn finish_reanchor(&mut self)
        ensures
            *final(self) == (BreadcrumbState {
                popover: old(self).popover.settled(),
                ..*old(self)
            }),
    {
        let mut popover = BreadcrumbPopover::Closed;
        std::mem::swap(&mut popover, &mut self.popover);
        self.popover = match popover {
            BreadcrumbPopover::ReanchoringDirectory { navigation, .. } => {
                BreadcrumbPopover::Directory(navigation)
            },
            BreadcrumbPopover::ReanchoringSymbol { navigation, .. } => {
                BreadcrumbPopover::Symbol(navigation)
            },
            other => other,
        };
    }

    /// The bar once its session is over: the trail collapses, except under a click on the bar.
    pub open spec fn session_closed(self) -> BreadcrumbState<H, S> {
        BreadcrumbState {
            popover: BreadcrumbPopover::Closed,
            expanded: self.expanded && self.zone_mouse_down,
            ..self
        }
    }

    /// Closes the session of that directory. A no-op while reanchoring: the dropdown is only
    /// moving between segments, not closing.
    pub fn clear_directory_navigation(
        &mut self,
        worktree_id: WorktreeId,
        path: &RelPath,
    ) -> (cleared: bool)
        ensures
            cleared == old(self).popover.rests_on_directory(worktree_id, path@),
            *final(self) == if cleared {
                old(self).session_closed()
            } else {
                *old(self)
            },
    {
        let rests: bool = match &self.popover {
            BreadcrumbPopover::Directory(navigation) => navigation.worktree_id == worktree_id
                && navigation.active_path.same(path),
            _ => false,
        };
        if rests {
            self.close_session();
        }
        rests
    }

    /// Closes the session of that symbol, or of the file. A no-op while reanchoring.
    pub fn clear_symbol_navigation(
        &mut self,
        buffer_id: BufferId,
        active_item: Option<&OutlineItem>,
    ) -> (cleared: bool)
        ensures
            cleared == old(self).popover.rests_on_symbol(
                buffer_id,
                item_range(active_item.deep_view()),
            ),
            *final(self) == if cleared {
                old(self).session_closed()
            } else {
                *old(self)
            },
    {
        let rests: bool = match &self.popover {
            BreadcrumbPopover::Symbol(navigation) => navigation.buffer_id == buffer_id && match (
                &navigation.active_item,
                active_item,
            ) {
                (Some(item), Some(other)) => item.range == other.range,
                (None, None) => true,
                _ => false,
            },
            _ => false,
        };
        if rests {
            self.close_session();
        }
        rests
    }

    fn close_session(&mut self)
        ensures
            *final(self) == old(self).session_closed(),
    {
        self.popover = BreadcrumbPopover::Closed;
        if !self.zone_mouse_down {
            self.expanded = false;
        }
    }

    /// Closes and collapses the bar; tells whether that changed anything to see.
    pub fn close(&mut self) -> (changed: bool)
        ensures
            changed == (old(self).popover !is Closed || old(self).expanded),
            *final(self) == (BreadcrumbState {
                popover: BreadcrumbPopover::Closed,
                expanded: false,
                dismiss_subscription: None,
                ..*old(self)
            }),
    {
        let changed: bool = self.session_open() || self.expanded;
        self.popover = BreadcrumbPopover::Closed;
        self.expanded = false;
        self.dismiss_subscription = None;
        changed
    }

    /// The cached trail of the symbol at `range`, as long as the outline is still that version.
    pub fn cached_symbol_trail(
        &self,
        buffer_id: BufferId,
        version: &Global,
        range: &AnchorRange,
    ) -> (trail: Option<Vec<OutlineItem>>)
        ensures
            trail.deep_view() == cached_trail(
                self.symbol_trail_cache,
                buffer_id,
                version.values@,
                *range,
            ),
    {
        match &self.symbol_trail_cache {
            Some(cache) => if cache.buffer_id == buffer_id && cache.version.same(version)
                && cache.range == *range {
                Some(clone_items(cache.trail.as_slice()))
            } else {
                None
            },
            None => None,
        }
    }

    pub fn cache_symbol_trail(
        &mut self,
        buffer_id: BufferId,
        version: Global,
        range: AnchorRange,
        trail: &[OutlineItem],
    )
        ensures
            *final(self) == (BreadcrumbState {
                symbol_trail_cache: final(self).symbol_trail_cache,
                ..*old(self)
            }),
            final(self).symbol_trail_cache matches Some(cache) && {
                &&& cache.buffer_id == buffer_id
                &&& cache.version == version
                &&& cache.range == range
                &&& cache.trail.deep_view() == trail.deep_view()
            },
    {
        self.symbol_trail_cache = Some(
            SymbolTrailCache { buffer_id, version, range, trail: clone_items(trail) },
        );
    }
}

impl<H: ErasedBreadcrumbPopoverHandle, S> BreadcrumbState<H, S> {
    /// Hides the directory dropdown, then the symbol one.
    pub fn hide_popovers(&self, cx: &mut H::App)
        ensures
            exists|between: H::App|
                #![trigger optionally_hides(self.directory_popover_handle, *old(cx), between)]
                optionally_hides(self.directory_popover_handle, *old(cx), between)
                    && optionally_hides(self.symbol_popover_handle, between, *final(cx)),
    {
        if let Some(handle) = &self.directory_popover_handle {
            handle.hide_popover(cx);
        }
        let ghost between = *cx;
        if let Some(handle) = &self.symbol_popover_handle {
            handle.hide_popover(cx);
        }
        assert(optionally_hides(self.directory_popover_handle, *old(cx), between));
    }
}

} // verus!
