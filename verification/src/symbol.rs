//! The dropdown of a symbol, or of the file: the symbols beside or below it.

use vstd::prelude::*;

use crate::delegate::{
    apply_empty_query_matches, empty_query_selection, match_has_key, pending_index,
    record_pending_selection, selected_key, shows_empty_query, BreadcrumbPickerDelegate,
};
use crate::listing::lemma_first_where;
use crate::picker::{
    ids_are_indices, BreadcrumbPickerCore, CandidateView, MatchView, StringMatch,
    StringMatchCandidate,
};
use crate::rel_path::RelPath;
use crate::target::{AnchorRange, BufferId, OutlineItem, WorktreeId};
use crate::text::{
    bold_highlight, dirty_filename_highlight_style, flatten_text_for_single_line_display,
    flattened, Highlight,
};

verus! {

/// What a symbol dropdown lists, and where it hangs.
#[derive(Debug, PartialEq, Eq)]
pub struct SymbolListing {
    pub buffer_id: BufferId,
    /// The segment this popover is anchored under; `None` is the file segment.
    pub target: Option<OutlineItem>,
    pub items: Vec<OutlineItem>,
    /// The directory that the file segment's dropdown leads up to.
    pub parent_dir: Option<(WorktreeId, RelPath)>,
    /// The outline had not answered yet when the popover opened.
    pub loading: bool,
}

impl SymbolListing {
    /// The symbol is the one that the dropdown is anchored under.
    pub open spec fn is_current(self, index: int) -> bool {
        &&& self.target is Some
        &&& 0 <= index < self.items@.len()
        &&& self.items@[index].range == self.target->0.range
    }
}

/// The symbol dropdown's contents.
#[derive(Debug, PartialEq, Eq)]
pub struct BreadcrumbSymbolDelegate {
    pub listing: SymbolListing,
    pub picker: BreadcrumbPickerCore,
    pub pending_selection_key: Option<AnchorRange>,
}

impl BreadcrumbPickerDelegate for BreadcrumbSymbolDelegate {
    type Listing = SymbolListing;

    type SelectionKey = AnchorRange;

    open spec fn listed(&self) -> SymbolListing {
        self.listing
    }

    open spec fn filter(&self) -> BreadcrumbPickerCore {
        self.picker
    }

    open spec fn pending_key(&self) -> Option<AnchorRange> {
        self.pending_selection_key
    }

    open spec fn is_current(listing: SymbolListing, candidate_id: usize) -> bool {
        listing.is_current(candidate_id as int)
    }

    open spec fn key_of(listing: SymbolListing, candidate_id: usize) -> Option<AnchorRange> {
        if candidate_id < listing.items@.len() {
            Some(listing.items@[candidate_id as int].range)
        } else {
            None
        }
    }

    open spec fn has_key(listing: SymbolListing, candidate_id: usize, key: AnchorRange) -> bool {
        candidate_id < listing.items@.len() && listing.items@[candidate_id as int].range == key
    }

    fn picker_core(&self) -> (core: &BreadcrumbPickerCore) {
        &self.picker
    }

    fn picker_core_mut(&mut self) -> (core: &mut BreadcrumbPickerCore) {
        &mut self.picker
    }

    fn is_current_candidate(&self, candidate_id: usize) -> (current: bool) {
        match &self.listing.target {
            Some(target) => candidate_id < self.listing.items.len()
                && self.listing.items[candidate_id].range == target.range,
            None => false,
        }
    }

    fn selection_key(&self, candidate_id: usize) -> (key: Option<AnchorRange>) {
        if candidate_id < self.listing.items.len() {
            Some(self.listing.items[candidate_id].range)
        } else {
            None
        }
    }

    fn matches_selection_key(&self, candidate_id: usize, selection_key: &AnchorRange) -> (matches:
        bool) {
        candidate_id < self.listing.items.len() && self.listing.items[candidate_id].range
            == *selection_key
    }

    fn pending_selection_key(&self) -> (key: &Option<AnchorRange>) {
        &self.pending_selection_key
    }

    fn pending_selection_key_mut(&mut self) -> (key: &mut Option<AnchorRange>) {
        &mut self.pending_selection_key
    }
}

/// The rows of a list of symbols, each on a single line.
pub open spec fn symbol_candidates(items: Seq<OutlineItem>) -> Seq<CandidateView> {
    Seq::new(
        items.len(),
        |i: int| CandidateView { id: i as usize, string: flattened(items[i].text@) },
    )
}

/// The rows of a list of symbols are known by their positions in it.
pub proof fn law_symbol_rows_are_known_by_position(items: Seq<OutlineItem>)
    requires
        items.len() <= usize::MAX,
    ensures
        symbol_candidates(items).len() == items.len(),
        ids_are_indices(symbol_candidates(items)),
{
}

/// The symbol that was selected before a listing was rebuilt is selected again wherever a row of the
/// new listing shows it.
pub proof fn law_a_rebuilt_listing_keeps_the_selected_symbol(
    before: SymbolListing,
    core_before: BreadcrumbPickerCore,
    after: SymbolListing,
    matches: Seq<MatchView>,
    row: int,
)
    requires
        matches.len() <= usize::MAX,
        item_in_row(
            before,
            core_before.matches@,
            core_before.selected_index as int,
        ) is Some,
        0 <= row < matches.len(),
        matches[row].candidate_id < after.items@.len(),
        after.items@[matches[row].candidate_id as int].range == item_in_row(
            before,
            core_before.matches@,
            core_before.selected_index as int,
        )->0.range,
    ensures
        ({
            let key = selected_key::<BreadcrumbSymbolDelegate>(before, core_before);
            let index = pending_index::<BreadcrumbSymbolDelegate>(after, key, matches);
            &&& index is Some
            &&& index->0 <= row
            &&& matches[index->0 as int].candidate_id < after.items@.len()
            &&& after.items@[matches[index->0 as int].candidate_id as int].range
                == after.items@[matches[row].candidate_id as int].range
            &&& empty_query_selection::<BreadcrumbSymbolDelegate>(after, key, matches) == index->0
        }),
{
    let key = selected_key::<BreadcrumbSymbolDelegate>(before, core_before)->0;
    let keep = match_has_key::<BreadcrumbSymbolDelegate>(after, matches, key);
    lemma_first_where(matches.len(), keep, 0);
    assert(keep(row));
}

/// The rows of a list of symbols.
fn build_candidates(items: &Vec<OutlineItem>) -> (candidates: Vec<StringMatchCandidate>)
    ensures
        candidates.deep_view() == symbol_candidates(items@),
{
    let mut candidates: Vec<StringMatchCandidate> = Vec::new();
    let mut index: usize = 0;
    while index < items.len()
        invariant
            index <= items@.len(),
            candidates@.len() == index,
            forall|i: int|
                0 <= i < index ==> (#[trigger] candidates@[i])@ == symbol_candidates(items@)[i],
        decreases items@.len() - index,
    {
        let string: String = flatten_text_for_single_line_display(items[index].text.as_str());
        candidates.push(StringMatchCandidate { id: index, string });
        index = index + 1;
    }
    assert(candidates.deep_view() =~= symbol_candidates(items@));
    candidates
}

impl BreadcrumbSymbolDelegate {
    /// A dropdown of the given symbols.
    pub fn new(
        buffer_id: BufferId,
        target: Option<OutlineItem>,
        items: Vec<OutlineItem>,
        loading: bool,
        parent_dir: Option<(WorktreeId, RelPath)>,
    ) -> (delegate: BreadcrumbSymbolDelegate)
        ensures
            delegate.listing == (SymbolListing { buffer_id, target, items, parent_dir, loading }),
            delegate.pending_selection_key is None,
            delegate.picker.query@.len() == 0,
            delegate.picker.candidates.deep_view() == symbol_candidates(items@),
            shows_empty_query(delegate),
    {
        let mut delegate = BreadcrumbSymbolDelegate {
            listing: SymbolListing { buffer_id, target, items: Vec::new(), parent_dir, loading },
            picker: BreadcrumbPickerCore::default(),
            pending_selection_key: None,
        };
        delegate.reset_items(items);
        delegate
    }

    /// Rebuilds `candidates` for new `items`, then rebuilds the empty-query display from them. A
    /// non-empty query keeps whatever rows it already has; the filter is to be run again.
    pub fn reset_items(&mut self, items: Vec<OutlineItem>)
        ensures
            final(self).listing == (SymbolListing { items, ..old(self).listing }),
            final(self).pending_selection_key == selected_key::<BreadcrumbSymbolDelegate>(
                old(self).listing,
                old(self).picker,
            ),
            final(self).picker.query == old(self).picker.query,
            final(self).picker.candidates.deep_view() == symbol_candidates(items@),
            if old(self).picker.query@.len() == 0 {
                shows_empty_query(*final(self))
            } else {
                &&& final(self).picker.matches == old(self).picker.matches
                &&& final(self).picker.selected_index == old(self).picker.selected_index
            },
    {
        record_pending_selection(self);
        self.picker.candidates = build_candidates(&items);
        self.listing.items = items;
        if self.picker.query.as_str().is_empty() {
            apply_empty_query_matches(self);
        }
    }

    /// The outline has answered: lists its symbols. A typed query is to be run again.
    pub fn outline_ready(&mut self, items: Vec<OutlineItem>)
        ensures
            final(self).listing == (SymbolListing { items, loading: false, ..old(self).listing }),
            final(self).pending_selection_key == selected_key::<BreadcrumbSymbolDelegate>(
                old(self).listing,
                old(self).picker,
            ),
            final(self).picker.query == old(self).picker.query,
            final(self).picker.candidates.deep_view() == symbol_candidates(items@),
            if old(self).picker.query@.len() == 0 {
                shows_empty_query(*final(self))
            } else {
                &&& final(self).picker.matches == old(self).picker.matches
                &&& final(self).picker.selected_index == old(self).picker.selected_index
            },
    {
        self.listing.loading = false;
        self.reset_items(items);
    }
}

/// The symbol in the row at `index`.
pub open spec fn item_in_row(
    listing: SymbolListing,
    matches: Seq<StringMatch>,
    index: int,
) -> Option<OutlineItem> {
    if 0 <= index < matches.len() && matches[index].candidate_id < listing.items@.len() {
        Some(listing.items@[matches[index].candidate_id as int])
    } else {
        None
    }
}

/// What an empty dropdown says.
pub open spec fn no_symbols_text(loading: bool, query: Seq<char>) -> Seq<char> {
    if loading {
        "Loading symbols…"@
    } else if query.len() > 0 {
        "No matches"@
    } else {
        "No symbols"@
    }
}

/// Some of the symbols has that range.
pub open spec fn lists_range(items: Seq<OutlineItem>, range: AnchorRange) -> bool {
    exists|i: int| 0 <= i < items.len() && (#[trigger] items[i]).range == range
}

/// There is something to drill into: children that are not just the symbol and its siblings.
pub open spec fn drills_into(selected: OutlineItem, children: Seq<OutlineItem>) -> bool {
    children.len() > 0 && !lists_range(children, selected.range)
}

/// Whether there is something to drill into. The sibling fallback lists the symbol itself: a leaf,
/// nothing to drill into.
pub fn has_children(selected: &OutlineItem, children: &[OutlineItem]) -> (drills: bool)
    ensures
        drills == drills_into(*selected, children@),
        drills <==> children@.len() > 0 && forall|i: int|
            0 <= i < children@.len() ==> (#[trigger] children@[i]).range != selected.range,
{
    let mut index: usize = 0;
    while index < children.len()
        invariant
            index <= children@.len(),
            forall|i: int|
                0 <= i < index ==> (#[trigger] children@[i]).range != selected.range,
        decreases children@.len() - index,
    {
        if children[index].range == selected.range {
            return false;
        }
        index = index + 1;
    }
    children.len() > 0
}

/// Where the dropdown goes.
#[derive(Debug, PartialEq, Eq)]
pub enum SymbolStep {
    /// To the dropdown of that symbol, or of the file where there is none.
    Symbol(Option<OutlineItem>),
    /// To the dropdown of that directory.
    Directory(WorktreeId, RelPath),
}

/// A row of the dropdown, as it is painted.
#[derive(Debug, PartialEq, Eq)]
pub struct SymbolRow {
    pub selected: bool,
    /// A column for the mark of the current symbol, and whether this is it; no column where no row
    /// is.
    pub current_marker: Option<bool>,
    pub text: String,
    pub highlights: Vec<Highlight>,
}

impl BreadcrumbSymbolDelegate {
    /// The symbol in the row at `index`.
    pub fn item_at(&self, index: usize) -> (item: Option<&OutlineItem>)
        ensures
            match item {
                Some(item) => item_in_row(self.listing, self.picker.matches@, index as int) == Some(
                    *item,
                ),
                None => item_in_row(self.listing, self.picker.matches@, index as int) is None,
            },
    {
        if index < self.picker.matches.len() {
            let candidate_id: usize = self.picker.matches[index].candidate_id;
            if candidate_id < self.listing.items.len() {
                return Some(&self.listing.items[candidate_id]);
            }
        }
        None
    }

    /// The range of the symbol that the dropdown is anchored under.
    pub fn current_range(&self) -> (range: Option<AnchorRange>)
        ensures
            range == match self.listing.target {
                Some(target) => Some(target.range),
                None => None,
            },
    {
        match &self.listing.target {
            Some(target) => Some(target.range),
            None => None,
        }
    }

    /// Whether some listed symbol is the one that the dropdown is anchored under.
    pub fn shows_current_marker(&self) -> (shows: bool)
        ensures
            shows == exists|i: int| #[trigger] self.listing.is_current(i),
    {
        let mut index: usize = 0;
        while index < self.listing.items.len()
            invariant
                index <= self.listing.items@.len(),
                forall|i: int| 0 <= i < index ==> !#[trigger] self.listing.is_current(i),
            decreases self.listing.items@.len() - index,
        {
            if self.is_current_candidate(index) {
                assert(self.listing.is_current(index as int));
                return true;
            }
            index = index + 1;
        }
        false
    }

    pub fn match_count(&self) -> (count: usize)
        ensures
            count == self.picker.matches@.len(),
    {
        self.picker.matches.len()
    }

    pub fn selected_index(&self) -> (index: usize)
        ensures
            index == self.picker.selected_index,
    {
        self.picker.selected_index
    }

    pub fn set_selected_index(&mut self, index: usize)
        ensures
            *final(self) == (BreadcrumbSymbolDelegate {
                picker: BreadcrumbPickerCore { selected_index: index, ..old(self).picker },
                ..*old(self)
            }),
    {
        self.picker.selected_index = index;
    }

    pub fn placeholder_text(&self) -> (text: String)
        ensures
            text@ == "Search symbols…"@,
    {
        "Search symbols…".to_string()
    }

    pub fn no_matches_text(&self) -> (text: Option<String>)
        ensures
            text.deep_view() == Some(
                no_symbols_text(self.listing.loading, self.picker.query@),
            ),
    {
        Some(
            if self.listing.loading {
                "Loading symbols…".to_string()
            } else if !self.picker.query.as_str().is_empty() {
                "No matches".to_string()
            } else {
                "No symbols".to_string()
            },
        )
    }

    /// The symbol to go to, where a row is selected; the dropdown is then dismissed.
    pub fn confirm(&self) -> (item: Option<OutlineItem>)
        ensures
            item.deep_view() == item_in_row(
                self.listing,
                self.picker.matches@,
                self.picker.selected_index as int,
            ).deep_view(),
    {
        match self.item_at(self.picker.selected_index) {
            Some(item) => Some(item.clone()),
            None => None,
        }
    }

    /// The symbol to drill into: the selected one, where it has children. A typed query leaves the
    /// key to its cursor.
    pub fn select_child<M: Fn(BufferId, &OutlineItem) -> Vec<OutlineItem>>(
        &self,
        menu_items: M,
    ) -> (step: Option<SymbolStep>)
        requires
            forall|buffer_id: BufferId, item: &OutlineItem| #[trigger]
                call_requires(menu_items, (buffer_id, item)),
        ensures
            match item_in_row(
                self.listing,
                self.picker.matches@,
                self.picker.selected_index as int,
            ) {
                Some(selected) => if self.picker.query@.len() > 0 {
                    step is None
                } else {
                    exists|children: Vec<OutlineItem>| #[trigger]
                        call_ensures(menu_items, (self.listing.buffer_id, &selected), children)
                            && if drills_into(selected, children@) {
                            step is Some && step->0 is Symbol
                                && step->0->Symbol_0.deep_view() == Some(selected@)
                        } else {
                            step is None
                        }
                },
                None => step is None,
            },
            step is Some ==> exists|children: Vec<OutlineItem>, selected: OutlineItem|
                {
                    &&& #[trigger] call_ensures(
                        menu_items,
                        (self.listing.buffer_id, &selected),
                        children,
                    )
                    &&& children@.len() > 0
                    &&& forall|i: int|
                        0 <= i < children@.len() ==> (#[trigger] children@[i]).range
                            != selected.range
                    &&& step->0 is Symbol && step->0->Symbol_0.deep_view() == Some(selected@)
                },
    {
        if !self.picker.query.as_str().is_empty() {
            return None;
        }
        let selected: &OutlineItem = match self.item_at(self.picker.selected_index) {
            Some(item) => item,
            None => {
                return None;
            },
        };
        let children: Vec<OutlineItem> = menu_items(self.listing.buffer_id, selected);
        if has_children(selected, children.as_slice()) {
            Some(SymbolStep::Symbol(Some(selected.clone())))
        } else {
            None
        }
    }

    /// Where the dropdown leads up to: a symbol's parent, or from the file its directory. A typed
    /// query leaves the key to its cursor.
    pub fn select_parent<P: Fn(BufferId, &OutlineItem) -> Option<OutlineItem>>(
        &self,
        symbol_parent: P,
    ) -> (step: Option<SymbolStep>)
        requires
            forall|buffer_id: BufferId, item: &OutlineItem| #[trigger]
                call_requires(symbol_parent, (buffer_id, item)),
        ensures
            if self.picker.query@.len() > 0 {
                step is None
            } else {
                match (self.listing.target, self.listing.parent_dir) {
                    (Some(target), _) => step is Some && step->0 is Symbol && call_ensures(
                        symbol_parent,
                        (self.listing.buffer_id, &target),
                        step->0->Symbol_0,
                    ),
                    (None, Some(parent_dir)) => step is Some && step->0 is Directory
                        && step->0->Directory_0 == parent_dir.0 && step->0->Directory_1@
                        == parent_dir.1@,
                    (None, None) => step is None,
                }
            },
    {
        if !self.picker.query.as_str().is_empty() {
            return None;
        }
        match &self.listing.target {
            Some(target) => Some(
                SymbolStep::Symbol(symbol_parent(self.listing.buffer_id, target)),
            ),
            None => match &self.listing.parent_dir {
                Some((worktree_id, path)) => Some(
                    SymbolStep::Directory(*worktree_id, path.clone()),
                ),
                None => None,
            },
        }
    }

    /// The row at `index`. `ranges` groups the positions that a query matched, and `combine` lays
    /// one list of highlights over another.
    pub fn render_match<
        R: Fn(&StringMatch) -> Vec<(usize, usize)>,
        C: Fn(Vec<Highlight>, &Vec<Highlight>) -> Vec<Highlight>,
    >(&self, index: usize, selected: bool, ranges: R, combine: C) -> (row: Option<SymbolRow>)
        requires
            forall|string_match: &StringMatch| #[trigger] call_requires(ranges, (string_match,)),
            forall|over: Vec<Highlight>, under: &Vec<Highlight>| #[trigger]
                call_requires(combine, (over, under)),
        ensures
            match item_in_row(self.listing, self.picker.matches@, index as int) {
                Some(item) => {
                    &&& row is Some
                    &&& row->0.selected == selected
                    &&& row->0.current_marker == if exists|i: int| #[trigger]
                        self.listing.is_current(i) {
                        Some(
                            self.listing.target is Some && self.listing.target->0.range
                                == item.range,
                        )
                    } else {
                        None
                    }
                    &&& row->0.text@ == flattened(item.text@)
                    &&& emphasizes(
                        item,
                        flattened(item.text@),
                        self.picker.matches@[index as int],
                        ranges,
                        combine,
                        row->0.highlights@,
                    )
                },
                None => row is None,
            },
    {
        let item: &OutlineItem = match self.item_at(index) {
            Some(item) => item,
            None => {
                return None;
            },
        };
        let string_match: &StringMatch = &self.picker.matches[index];
        let is_current: bool = match self.current_range() {
            Some(range) => range == item.range,
            None => false,
        };
        let current_marker: Option<bool> = if self.shows_current_marker() {
            Some(is_current)
        } else {
            None
        };
        let text: String = flatten_text_for_single_line_display(item.text.as_str());
        let highlights: Vec<Highlight> = match_emphasized_highlights(
            item,
            text.as_str(),
            string_match,
            ranges,
            combine,
        );
        Some(SymbolRow { selected, current_marker, text, highlights })
    }
}

/// The stretches of a match, in bold and nothing else.
pub open spec fn bold_ranges(ranges: Seq<(usize, usize)>) -> Seq<Highlight> {
    ranges.map_values(
        |range: (usize, usize)|
            Highlight { start: range.0, end: range.1, style: bold_highlight() },
    )
}

/// `highlights` are those of a row: the symbol's own, with the match in bold over them as long as
/// the match is one of this very text. A kept stale match can carry the symbol's old text.
pub open spec fn emphasizes<
    R: Fn(&StringMatch) -> Vec<(usize, usize)>,
    C: Fn(Vec<Highlight>, &Vec<Highlight>) -> Vec<Highlight>,
>(
    item: OutlineItem,
    text: Seq<char>,
    string_match: StringMatch,
    ranges: R,
    combine: C,
    highlights: Seq<Highlight>,
) -> bool {
    if text != string_match.string@ {
        highlights == item.highlight_ranges@
    } else {
        exists|matched: Vec<(usize, usize)>, over: Vec<Highlight>, combined: Vec<Highlight>|
            {
                &&& #[trigger] call_ensures(ranges, (&string_match,), matched)
                &&& over@ == bold_ranges(matched@)
                &&& #[trigger] call_ensures(combine, (over, &item.highlight_ranges), combined)
                &&& highlights == combined@
            }
    }
}

/// A weight-only overlay keeps the syntax highlight's color visible under the match emphasis.
pub fn match_emphasized_highlights<
    R: Fn(&StringMatch) -> Vec<(usize, usize)>,
    C: Fn(Vec<Highlight>, &Vec<Highlight>) -> Vec<Highlight>,
>(
    item: &OutlineItem,
    flattened_text: &str,
    string_match: &StringMatch,
    ranges: R,
    combine: C,
) -> (highlights: Vec<Highlight>)
    requires
        call_requires(ranges, (string_match,)),
        forall|over: Vec<Highlight>, under: &Vec<Highlight>| #[trigger]
            call_requires(combine, (over, under)),
    ensures
        emphasizes(*item, flattened_text@, *string_match, ranges, combine, highlights@),
{
    let text: String = flattened_text.to_string();
    if text != string_match.string {
        let highlights = item.highlight_ranges.clone();
        assert(highlights@ =~= item.highlight_ranges@);
        return highlights;
    }
    let matched: Vec<(usize, usize)> = ranges(string_match);
    let mut over: Vec<Highlight> = Vec::new();
    let mut index: usize = 0;
    while index < matched.len()
        invariant
            index <= matched@.len(),
            over@.len() == index,
            forall|i: int| 0 <= i < index ==> #[trigger] over@[i] == bold_ranges(matched@)[i],
        decreases matched@.len() - index,
    {
        over.push(
            Highlight {
                start: matched[index].0,
                end: matched[index].1,
                style: dirty_filename_highlight_style(),
            },
        );
        index = index + 1;
    }
    assert(over@ =~= bold_ranges(matched@));
    let ghost bold = over;
    let combined: Vec<Highlight> = combine(over, &item.highlight_ranges);
    assert(call_ensures(combine, (bold, &item.highlight_ranges), combined));
    combined
}

/// The popover always opens; this only decides what it shows, so a click never picks between an
/// empty popover and the outline modal.
#[derive(Debug, PartialEq, Eq)]
pub enum BreadcrumbSymbolMenuOutcome {
    Ready(Vec<OutlineItem>),
    /// The outline answered, and it is genuinely empty.
    Empty,
    /// The outline has not answered yet; the caller kicks a prefetch alongside this.
    NotReady,
}

pub fn breadcrumb_symbol_menu_outcome(
    menu_items: Vec<OutlineItem>,
    outline_ready: bool,
) -> (outcome: BreadcrumbSymbolMenuOutcome)
    ensures
        outcome == if menu_items@.len() > 0 {
            BreadcrumbSymbolMenuOutcome::Ready(menu_items)
        } else if outline_ready {
            BreadcrumbSymbolMenuOutcome::Empty
        } else {
            BreadcrumbSymbolMenuOutcome::NotReady
        },
{
    if menu_items.len() > 0 {
        return BreadcrumbSymbolMenuOutcome::Ready(menu_items);
    }
    if outline_ready {
        BreadcrumbSymbolMenuOutcome::Empty
    } else {
        BreadcrumbSymbolMenuOutcome::NotReady
    }
}

/// A symbol dropdown that is about to open.
#[derive(Debug, PartialEq, Eq)]
pub struct SymbolMenu {
    pub delegate: BreadcrumbSymbolDelegate,
    /// The outline is to be fetched; the dropdown waits for it.
    pub prefetch: bool,
}

/// Opens the dropdown of a symbol, or of the file where there is no `target`.
pub fn open_symbol_menu(
    buffer_id: BufferId,
    target: Option<OutlineItem>,
    parent_dir: Option<(WorktreeId, RelPath)>,
    outcome: BreadcrumbSymbolMenuOutcome,
) -> (menu: SymbolMenu)
    ensures
        menu.prefetch == (outcome is NotReady),
        menu.delegate.listing.buffer_id == buffer_id,
        menu.delegate.listing.target == target,
        menu.delegate.listing.parent_dir == parent_dir,
        menu.delegate.listing.loading == menu.prefetch,
        match outcome {
            BreadcrumbSymbolMenuOutcome::Ready(items) => menu.delegate.listing.items == items,
            _ => menu.delegate.listing.items@.len() == 0,
        },
        menu.delegate.pending_selection_key is None,
        menu.delegate.picker.query@.len() == 0,
        menu.delegate.picker.candidates.deep_view() == symbol_candidates(
            menu.delegate.listing.items@,
        ),
        shows_empty_query(menu.delegate),
{
    let (items, loading): (Vec<OutlineItem>, bool) = match outcome {
        BreadcrumbSymbolMenuOutcome::Ready(items) => (items, false),
        BreadcrumbSymbolMenuOutcome::Empty => (Vec::new(), false),
        BreadcrumbSymbolMenuOutcome::NotReady => (Vec::new(), true),
    };
    SymbolMenu {
        delegate: BreadcrumbSymbolDelegate::new(buffer_id, target, items, loading, parent_dir),
        prefetch: loading,
    }
}

/// What a right click on a symbol segment does: `target` is none for the file's own.
pub fn symbol_copy_title(target: &Option<OutlineItem>) -> (title: String)
    ensures
        title@ == if target is None {
            "Copy File Path"@
        } else {
            "Copy Path with Line Number"@
        },
{
    if target.is_none() {
        "Copy File Path".to_string()
    } else {
        "Copy Path with Line Number".to_string()
    }
}

} // verus!
