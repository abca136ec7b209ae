//! What a dropdown lists and selects when its rows or its query change.

use vstd::prelude::*;

use crate::listing::{first_where, lemma_first_where};
use crate::picker::{
    all_unfiltered, cap_empty_query_matches, capped_candidates, ids_are_indices,
    law_capped_listing_keeps_the_current_row, BreadcrumbPickerCore, CandidateView, MatchView,
    StringMatch, MAX_BREADCRUMB_MENU_ENTRIES,
};

verus! {

/// A dropdown that lists the rows of its listing through a [`BreadcrumbPickerCore`], and remembers
/// the selected one by identity while they are rebuilt.
pub trait BreadcrumbPickerDelegate: Sized {
    /// What the dropdown lists; everything about it but the filter state and the row to select
    /// again.
    type Listing;

    /// What a row is remembered by.
    type SelectionKey;

    /// What the dropdown lists.
    spec fn listed(&self) -> Self::Listing;

    /// The filter state.
    spec fn filter(&self) -> BreadcrumbPickerCore;

    /// What the row to select again is remembered by.
    spec fn pending_key(&self) -> Option<Self::SelectionKey>;

    /// The candidate is the entry that the dropdown's own segment represents.
    spec fn is_current(listing: Self::Listing, candidate_id: usize) -> bool;

    /// What the candidate is remembered by.
    spec fn key_of(listing: Self::Listing, candidate_id: usize) -> Option<Self::SelectionKey>;

    /// The candidate is the one remembered by `key`.
    spec fn has_key(listing: Self::Listing, candidate_id: usize, key: Self::SelectionKey) -> bool;

    fn picker_core(&self) -> (core: &BreadcrumbPickerCore)
        ensures
            *core == self.filter(),
    ;

    fn picker_core_mut(&mut self) -> (core: &mut BreadcrumbPickerCore)
        ensures
            *core == old(self).filter(),
            final(self).filter() == *final(core),
            final(self).pending_key() == old(self).pending_key(),
            final(self).listed() == old(self).listed(),
    ;

    /// Whether the candidate is the entry the popover's own segment represents.
    fn is_current_candidate(&self, candidate_id: usize) -> (current: bool)
        ensures
            current == Self::is_current(self.listed(), candidate_id),
    ;

    fn selection_key(&self, candidate_id: usize) -> (key: Option<Self::SelectionKey>)
        ensures
            key == Self::key_of(self.listed(), candidate_id),
    ;

    fn matches_selection_key(&self, candidate_id: usize, selection_key: &Self::SelectionKey) -> (
    matches: bool)
        ensures
            matches == Self::has_key(self.listed(), candidate_id, *selection_key),
    ;

    fn pending_selection_key(&self) -> (key: &Option<Self::SelectionKey>)
        ensures
            *key == self.pending_key(),
    ;

    fn pending_selection_key_mut(&mut self) -> (key: &mut Option<Self::SelectionKey>)
        ensures
            *key == old(self).pending_key(),
            final(self).pending_key() == *final(key),
            final(self).filter() == old(self).filter(),
            final(self).listed() == old(self).listed(),
    ;
}

/// What the selected row is remembered by.
pub open spec fn selected_key<D: BreadcrumbPickerDelegate>(
    listing: D::Listing,
    core: BreadcrumbPickerCore,
) -> Option<D::SelectionKey> {
    if core.selected_index < core.matches@.len() {
        D::key_of(listing, core.matches@[core.selected_index as int].candidate_id)
    } else {
        None
    }
}

/// Remembers the selected row by identity; must run before the listing the key reads is swapped.
pub fn record_pending_selection<D: BreadcrumbPickerDelegate>(delegate: &mut D)
    ensures
        final(delegate).pending_key() == selected_key::<D>(
            old(delegate).listed(),
            old(delegate).filter(),
        ),
        final(delegate).filter() == old(delegate).filter(),
        final(delegate).listed() == old(delegate).listed(),
{
    let core: &BreadcrumbPickerCore = delegate.picker_core();
    let selection_key: Option<D::SelectionKey> = if core.selected_index < core.matches.len() {
        delegate.selection_key(core.matches[core.selected_index].candidate_id)
    } else {
        None
    };
    *delegate.pending_selection_key_mut() = selection_key;
}

/// The condition of being the row remembered by `key`.
pub open spec fn match_has_key<D: BreadcrumbPickerDelegate>(
    listing: D::Listing,
    matches: Seq<MatchView>,
    key: D::SelectionKey,
) -> spec_fn(int) -> bool {
    |i: int| D::has_key(listing, matches[i].candidate_id, key)
}

/// The condition of being the entry that the dropdown's own segment represents.
pub open spec fn match_is_current<D: BreadcrumbPickerDelegate>(
    listing: D::Listing,
    matches: Seq<MatchView>,
) -> spec_fn(int) -> bool {
    |i: int| D::is_current(listing, matches[i].candidate_id)
}

/// The row to select again, where it is still listed.
pub open spec fn pending_index<D: BreadcrumbPickerDelegate>(
    listing: D::Listing,
    pending_key: Option<D::SelectionKey>,
    matches: Seq<MatchView>,
) -> Option<usize> {
    match pending_key {
        Some(key) => first_where(matches.len(), match_has_key::<D>(listing, matches, key), 0),
        None => None,
    }
}

pub fn pending_selection_index<D: BreadcrumbPickerDelegate>(
    delegate: &D,
    matches: &[StringMatch],
) -> (index: Option<usize>)
    ensures
        index == pending_index::<D>(
            delegate.listed(),
            delegate.pending_key(),
            matches.deep_view(),
        ),
{
    let ghost rows = matches.deep_view();
    let selection_key: &D::SelectionKey = match delegate.pending_selection_key() {
        Some(key) => key,
        None => {
            return None;
        },
    };
    let ghost keep = match_has_key::<D>(delegate.listed(), rows, *selection_key);
    let mut index: usize = 0;
    while index < matches.len()
        invariant
            index <= matches@.len(),
            rows == matches.deep_view(),
            delegate.pending_key() == Some(*selection_key),
            keep == match_has_key::<D>(delegate.listed(), rows, *selection_key),
            first_where(rows.len(), keep, 0) == first_where(rows.len(), keep, index as int),
        decreases matches@.len() - index,
    {
        assert(rows[index as int] == matches@[index as int]@);
        if delegate.matches_selection_key(matches[index].candidate_id, selection_key) {
            return Some(index);
        }
        index = index + 1;
    }
    None
}

/// The condition of a candidate of being the entry that the dropdown's own segment represents.
pub open spec fn candidate_is_current<D: BreadcrumbPickerDelegate>(
    listing: D::Listing,
    candidates: Seq<CandidateView>,
) -> spec_fn(int) -> bool {
    |i: int| D::is_current(listing, candidates[i].id)
}

/// The id of the first candidate that the dropdown's own segment represents.
pub open spec fn current_candidate_id<D: BreadcrumbPickerDelegate>(
    listing: D::Listing,
    candidates: Seq<CandidateView>,
) -> Option<usize> {
    match first_where(candidates.len(), candidate_is_current::<D>(listing, candidates), 0) {
        Some(index) => Some(candidates[index as int].id),
        None => None,
    }
}

/// The rows that an empty query lists.
pub open spec fn empty_query_matches<D: BreadcrumbPickerDelegate>(
    listing: D::Listing,
    candidates: Seq<CandidateView>,
) -> Seq<MatchView> {
    all_unfiltered(
        capped_candidates(
            candidates,
            current_candidate_id::<D>(listing, candidates),
            MAX_BREADCRUMB_MENU_ENTRIES as nat,
        ),
    )
}

/// The row that an empty query selects: the one to select again, or else the current entry, or
/// else the first.
pub open spec fn empty_query_selection<D: BreadcrumbPickerDelegate>(
    listing: D::Listing,
    pending_key: Option<D::SelectionKey>,
    matches: Seq<MatchView>,
) -> usize {
    match pending_index::<D>(listing, pending_key, matches) {
        Some(index) => index,
        None => match first_where(matches.len(), match_is_current::<D>(listing, matches), 0) {
            Some(index) => index,
            None => 0,
        },
    }
}

/// The dropdown lists and selects what an empty query does.
pub open spec fn shows_empty_query<D: BreadcrumbPickerDelegate>(delegate: D) -> bool {
    let core = delegate.filter();
    let matches = empty_query_matches::<D>(delegate.listed(), core.candidates.deep_view());
    &&& core.matches.deep_view() == matches
    &&& core.selected_index == empty_query_selection::<D>(
        delegate.listed(),
        delegate.pending_key(),
        matches,
    )
}

/// The id of the first candidate that the dropdown's own segment represents.
fn find_current_candidate<D: BreadcrumbPickerDelegate>(delegate: &D) -> (id: Option<usize>)
    ensures
        id == current_candidate_id::<D>(
            delegate.listed(),
            delegate.filter().candidates.deep_view(),
        ),
{
    let core: &BreadcrumbPickerCore = delegate.picker_core();
    let ghost rows = core.candidates.deep_view();
    let ghost keep = candidate_is_current::<D>(delegate.listed(), rows);
    let mut index: usize = 0;
    while index < core.candidates.len()
        invariant
            index <= core.candidates@.len(),
            *core == delegate.filter(),
            rows == core.candidates.deep_view(),
            keep == candidate_is_current::<D>(delegate.listed(), rows),
            first_where(rows.len(), keep, 0) == first_where(rows.len(), keep, index as int),
        decreases core.candidates@.len() - index,
    {
        assert(rows[index as int] == core.candidates@[index as int]@);
        if delegate.is_current_candidate(core.candidates[index].id) {
            return Some(core.candidates[index].id);
        }
        index = index + 1;
    }
    None
}

/// The first row that the dropdown's own segment represents.
fn find_current_match<D: BreadcrumbPickerDelegate>(delegate: &D, matches: &[StringMatch]) -> (
index: Option<usize>)
    ensures
        index == first_where(
            matches.deep_view().len(),
            match_is_current::<D>(delegate.listed(), matches.deep_view()),
            0,
        ),
{
    let ghost rows = matches.deep_view();
    let ghost keep = match_is_current::<D>(delegate.listed(), rows);
    let mut index: usize = 0;
    while index < matches.len()
        invariant
            index <= matches@.len(),
            rows == matches.deep_view(),
            keep == match_is_current::<D>(delegate.listed(), rows),
            first_where(rows.len(), keep, 0) == first_where(rows.len(), keep, index as int),
        decreases matches@.len() - index,
    {
        assert(rows[index as int] == matches@[index as int]@);
        if delegate.is_current_candidate(matches[index].candidate_id) {
            return Some(index);
        }
        index = index + 1;
    }
    None
}

/// Caps `matches` like a typed filter, preselecting the current entry and keeping it displayed
/// even past the cap.
pub fn apply_empty_query_matches<D: BreadcrumbPickerDelegate>(delegate: &mut D)
    ensures
        shows_empty_query(*final(delegate)),
        final(delegate).filter() == (BreadcrumbPickerCore {
            matches: final(delegate).filter().matches,
            selected_index: final(delegate).filter().selected_index,
            ..old(delegate).filter()
        }),
        final(delegate).pending_key() == old(delegate).pending_key(),
        final(delegate).listed() == old(delegate).listed(),
{
    let keep_candidate_id: Option<usize> = find_current_candidate(delegate);
    let matches: Vec<StringMatch> = cap_empty_query_matches(
        delegate.picker_core().candidates.as_slice(),
        keep_candidate_id,
        MAX_BREADCRUMB_MENU_ENTRIES,
    );
    let selected_index: usize = match pending_selection_index(delegate, matches.as_slice()) {
        Some(index) => index,
        None => match find_current_match(delegate, matches.as_slice()) {
            Some(index) => index,
            None => 0,
        },
    };
    let core: &mut BreadcrumbPickerCore = delegate.picker_core_mut();
    core.matches = matches;
    core.selected_index = selected_index;
}

/// What a changed query leaves to do.
#[derive(Clone, Copy, Debug, PartialEq, Eq, Structural)]
pub enum MatchUpdate {
    /// The rows are up to date.
    Done,
    /// The candidates are to be filtered by the query, in the background, to at most as many rows
    /// as a dropdown lists; the rows that come back go to [`apply_filtered_matches`].
    Filter,
}

/// Follows a changed query: an empty one lists the rows at once, any other leaves them to be
/// filtered. A newly typed query must land on its best match, not on the row a rebuild wanted
/// back.
pub fn update_picker_matches<D: BreadcrumbPickerDelegate>(delegate: &mut D, query: String) -> (
update: MatchUpdate)
    ensures
        final(delegate).listed() == old(delegate).listed(),
        final(delegate).pending_key() == if old(delegate).filter().query@ == query@ {
            old(delegate).pending_key()
        } else {
            None
        },
        if query@.len() == 0 {
            &&& update == MatchUpdate::Done
            &&& shows_empty_query(*final(delegate))
            &&& final(delegate).filter() == (BreadcrumbPickerCore {
                matches: final(delegate).filter().matches,
                selected_index: final(delegate).filter().selected_index,
                query,
                ..old(delegate).filter()
            })
        } else {
            &&& update == MatchUpdate::Filter
            &&& final(delegate).filter() == (BreadcrumbPickerCore {
                query,
                ..old(delegate).filter()
            })
        },
{
    if delegate.picker_core().query != query {
        *delegate.pending_selection_key_mut() = None;
    }
    let is_empty: bool = query.as_str().is_empty();
    let core: &mut BreadcrumbPickerCore = delegate.picker_core_mut();
    core.query = query;
    if is_empty {
        apply_empty_query_matches(delegate);
        MatchUpdate::Done
    } else {
        MatchUpdate::Filter
    }
}

/// Lists the rows that a query matched, best first, and selects the one to select again where it
/// is among them, or else the best.
pub fn apply_filtered_matches<D: BreadcrumbPickerDelegate>(
    delegate: &mut D,
    matches: Vec<StringMatch>,
)
    ensures
        final(delegate).filter() == (BreadcrumbPickerCore {
            matches,
            selected_index: match pending_index::<D>(
                old(delegate).listed(),
                old(delegate).pending_key(),
                matches.deep_view(),
            ) {
                Some(index) => index,
                None => 0,
            },
            ..old(delegate).filter()
        }),
        final(delegate).pending_key() == old(delegate).pending_key(),
        final(delegate).listed() == old(delegate).listed(),
{
    let selected_index: usize = match pending_selection_index(delegate, matches.as_slice()) {
        Some(index) => index,
        None => 0,
    };
    let core: &mut BreadcrumbPickerCore = delegate.picker_core_mut();
    core.matches = matches;
    core.selected_index = selected_index;
}

/// A row that was selected before its dropdown was rebuilt is selected again wherever it now is;
/// only where it is gone does the dropdown select anything else.
pub proof fn law_the_remembered_row_is_selected_again<D: BreadcrumbPickerDelegate>(
    listing: D::Listing,
    key: D::SelectionKey,
    matches: Seq<MatchView>,
)
    requires
        matches.len() <= usize::MAX,
    ensures
        match pending_index::<D>(listing, Some(key), matches) {
            Some(index) => {
                &&& index < matches.len()
                &&& D::has_key(listing, matches[index as int].candidate_id, key)
                &&& empty_query_selection::<D>(listing, Some(key), matches) == index
            },
            None => forall|i: int|
                0 <= i < matches.len() ==> !D::has_key(
                    listing,
                    (#[trigger] matches[i]).candidate_id,
                    key,
                ),
        },
{
    let keep = match_has_key::<D>(listing, matches, key);
    lemma_first_where(matches.len(), keep, 0);
    if pending_index::<D>(listing, Some(key), matches) is None {
        assert forall|i: int| 0 <= i < matches.len() implies !D::has_key(
            listing,
            (#[trigger] matches[i]).candidate_id,
            key,
        ) by {
            assert(!keep(i));
        }
    }
}

/// The entry that the dropdown's own segment represents is listed under an empty query even past
/// the cap, and selected unless another row is to be selected again.
pub proof fn law_the_current_entry_is_listed_and_selected<D: BreadcrumbPickerDelegate>(
    listing: D::Listing,
    candidates: Seq<CandidateView>,
    current: int,
)
    requires
        ids_are_indices(candidates),
        candidates.len() <= usize::MAX,
        0 <= current < candidates.len(),
        D::is_current(listing, current as usize),
    ensures
        ({
            let matches = empty_query_matches::<D>(listing, candidates);
            let selected = empty_query_selection::<D>(listing, None, matches);
            &&& matches.len() <= MAX_BREADCRUMB_MENU_ENTRIES
            &&& selected < matches.len()
            &&& D::is_current(listing, matches[selected as int].candidate_id)
        }),
{
    let keep = candidate_is_current::<D>(listing, candidates);
    lemma_first_where(candidates.len(), keep, 0);
    assert(keep(current));
    let id = current_candidate_id::<D>(listing, candidates);
    law_capped_listing_keeps_the_current_row(
        candidates,
        id,
        MAX_BREADCRUMB_MENU_ENTRIES as nat,
    );
    let shown = capped_candidates(candidates, id, MAX_BREADCRUMB_MENU_ENTRIES as nat);
    let matches = empty_query_matches::<D>(listing, candidates);
    let is_current = match_is_current::<D>(listing, matches);
    let r = choose|r: int| 0 <= r < shown.len() && shown[r] == candidates[id->0 as int];
    assert(matches[r].candidate_id == shown[r].id);
    assert(is_current(r));
    lemma_first_where(matches.len(), is_current, 0);
}

} // verus!
