//! Which rows a dropdown shows, which of them is selected and where a symbol's row leads, told from
//! the rows and the symbols themselves.

use vstd::prelude::*;

use crate::delegate::{
    candidate_is_current, current_candidate_id, empty_query_matches, empty_query_selection,
    match_has_key, match_is_current, pending_index, selected_key, shows_empty_query,
    BreadcrumbPickerDelegate,
};
use crate::listing::{first_where, lemma_first_where};
use crate::picker::{
    all_unfiltered, candidate_is, candidate_not_before, capped_candidates, insertion_point,
    kept_past_the_cap, unfiltered, BreadcrumbPickerCore, CandidateView, MatchView, StringMatch,
};
use crate::symbol::{
    bold_ranges, drills_into, emphasizes, item_in_row, lists_range, no_symbols_text, symbol_candidates,
    BreadcrumbSymbolDelegate, SymbolListing,
};
use crate::target::{AnchorRange, OutlineItem};
use crate::text::{FontWeight, Highlight};

verus! {

/// A symbol is stepped into exactly where it has a menu and none of that menu's symbols, wherever
/// it stands in it, is the symbol itself again.
pub proof fn law_a_symbol_is_stepped_into_unless_its_menu_lists_it(
    selected: OutlineItem,
    children: Seq<OutlineItem>,
)
    ensures
        children.len() == 0 ==> !drills_into(selected, children),
        forall|i: int|
            0 <= i < children.len() && (#[trigger] children[i]).range == selected.range
                ==> !drills_into(selected, children),
        children.len() > 0 && (forall|i: int|
            0 <= i < children.len() ==> (#[trigger] children[i]).range != selected.range)
            ==> drills_into(selected, children),
{
    assert forall|i: int|
        0 <= i < children.len() && (#[trigger] children[i]).range == selected.range implies
        !drills_into(selected, children) by {
        assert(lists_range(children, selected.range));
    }
}

/// A range is listed exactly where one of the symbols has it.
pub proof fn law_a_range_is_listed_where_a_symbol_has_it(
    items: Seq<OutlineItem>,
    range: AnchorRange,
    i: int,
)
    requires
        0 <= i < items.len(),
    ensures
        items[i].range == range ==> lists_range(items, range),
        lists_range(items, range) ==> exists|j: int|
            0 <= j < items.len() && (#[trigger] items[j]).range == range,
{
}

/// A symbol is current, and known again, by its range alone.
pub proof fn law_symbols_are_known_by_their_ranges(
    listing: SymbolListing,
    candidate_id: usize,
    key: AnchorRange,
)
    ensures
        ({
            let listed = candidate_id < listing.items@.len();
            let range = listing.items@[candidate_id as int].range;
            &&& <BreadcrumbSymbolDelegate as BreadcrumbPickerDelegate>::is_current(
                listing,
                candidate_id,
            ) <==> listed && listing.target is Some && listing.target->0.range == range
            &&& listing.is_current(candidate_id as int) <==> listed && listing.target is Some
                && listing.target->0.range == range
            &&& <BreadcrumbSymbolDelegate as BreadcrumbPickerDelegate>::has_key(
                listing,
                candidate_id,
                key,
            ) <==> listed && range == key
            &&& <BreadcrumbSymbolDelegate as BreadcrumbPickerDelegate>::key_of(
                listing,
                candidate_id,
            ) == if listed {
                Some(range)
            } else {
                None
            }
        }),
{
}

/// A symbol is searched for by its text on one line, and known by its position.
pub proof fn law_symbols_are_searched_by_their_text(items: Seq<OutlineItem>, i: int, at: int)
    requires
        0 <= i < items.len() <= usize::MAX,
        0 <= at < items[i].text@.len(),
    ensures
        symbol_candidates(items).len() == items.len(),
        symbol_candidates(items)[i].id == i,
        symbol_candidates(items)[i].string.len() == items[i].text@.len(),
        items[i].text@[at] == '\n' ==> symbol_candidates(items)[i].string[at] == ' ',
        items[i].text@[at] != '\n' ==> symbol_candidates(items)[i].string[at] == items[i].text@[at],
{
}

/// A row shows the symbol that its match names, where there is one.
pub proof fn law_a_row_shows_the_symbol_of_its_match(
    listing: SymbolListing,
    matches: Seq<StringMatch>,
    index: int,
)
    ensures
        item_in_row(listing, matches, index) matches Some(item) ==> 0 <= index < matches.len()
            && matches[index].candidate_id < listing.items@.len() && item
            == listing.items@[matches[index].candidate_id as int],
        item_in_row(listing, matches, index) is None ==> !(0 <= index < matches.len())
            || matches[index].candidate_id >= listing.items@.len(),
{
}

/// What a query matched is set in bold and nothing else about it changes.
pub proof fn law_what_a_query_matched_is_bold(ranges: Seq<(usize, usize)>, i: int)
    requires
        0 <= i < ranges.len(),
    ensures
        bold_ranges(ranges).len() == ranges.len(),
        bold_ranges(ranges)[i].start == ranges[i].0,
        bold_ranges(ranges)[i].end == ranges[i].1,
        bold_ranges(ranges)[i].style.font_weight == Some(FontWeight::Bold),
        bold_ranges(ranges)[i].style.color is None,
        bold_ranges(ranges)[i].style.rest == 0,
{
}

/// Highlights that were matched against another text than the one shown are left out: the symbol
/// keeps its own. Else what the query matched is laid over them.
pub proof fn law_stale_matches_are_not_emphasized<
    R: Fn(&StringMatch) -> Vec<(usize, usize)>,
    C: Fn(Vec<Highlight>, &Vec<Highlight>) -> Vec<Highlight>,
>(
    item: OutlineItem,
    text: Seq<char>,
    string_match: StringMatch,
    ranges: R,
    combine: C,
    highlights: Seq<Highlight>,
)
    requires
        emphasizes(item, text, string_match, ranges, combine, highlights),
    ensures
        text != string_match.string@ ==> highlights == item.highlight_ranges@,
        text == string_match.string@ ==> exists|
            matched: Vec<(usize, usize)>,
            over: Vec<Highlight>,
            combined: Vec<Highlight>,
        |
            {
                &&& #[trigger] call_ensures(ranges, (&string_match,), matched)
                &&& #[trigger] call_ensures(combine, (over, &item.highlight_ranges), combined)
                &&& over@.len() == matched@.len()
                &&& forall|i: int|
                    0 <= i < over@.len() ==> (#[trigger] over@[i]).start == matched@[i].0
                        && over@[i].end == matched@[i].1 && over@[i].style.font_weight == Some(
                        FontWeight::Bold,
                    ) && over@[i].style.color is None && over@[i].style.rest == 0
                &&& highlights == combined@
            },
{
}

/// An unfiltered row names its candidate, shows its text and marks none of it.
pub proof fn law_unfiltered_rows_mark_nothing(candidates: Seq<CandidateView>, i: int)
    requires
        0 <= i < candidates.len(),
    ensures
        all_unfiltered(candidates).len() == candidates.len(),
        all_unfiltered(candidates)[i].candidate_id == candidates[i].id,
        all_unfiltered(candidates)[i].string == candidates[i].string,
        all_unfiltered(candidates)[i].positions.len() == 0,
        unfiltered(candidates[i]) == all_unfiltered(candidates)[i],
{
}

/// Candidates that fit under the cap are all shown; else the first ones are, unless the one to keep
/// is found only past them.
pub proof fn law_the_first_candidates_are_shown(
    candidates: Seq<CandidateView>,
    keep_candidate_id: Option<usize>,
    cap: nat,
)
    requires
        candidates.len() <= usize::MAX,
        candidates.len() <= cap || keep_candidate_id is None || (exists|i: int|
            0 <= i < cap && i < candidates.len() && (#[trigger] candidates[i]).id
                == keep_candidate_id->0) || (forall|i: int|
            0 <= i < candidates.len() ==> (#[trigger] candidates[i]).id != keep_candidate_id->0),
    ensures
        capped_candidates(candidates, keep_candidate_id, cap) == if candidates.len() <= cap {
            candidates
        } else {
            candidates.take(cap as int)
        },
{
    if candidates.len() > cap && keep_candidate_id is Some {
        let id = keep_candidate_id->0;
        let same = candidate_is(candidates, id);
        lemma_first_where(candidates.len(), same, 0);
        if exists|i: int|
            0 <= i < cap && i < candidates.len() && (#[trigger] candidates[i]).id == id {
            let i = choose|i: int|
                0 <= i < cap && i < candidates.len() && (#[trigger] candidates[i]).id == id;
            assert(same(i));
        } else if let Some(i) = first_where(candidates.len(), same, 0) {
            assert(same(i as int));
            assert(candidates[i as int].id == id);
        }
    }
}

/// The candidate to keep, where it is found only past the cap, takes the last of the places under
/// it: the first candidates but one are shown around it, those with smaller ids before it and, from
/// the first one that has no smaller id, the others behind it.
pub proof fn law_the_kept_candidate_takes_the_last_place(
    candidates: Seq<CandidateView>,
    id: usize,
    cap: nat,
    kept: int,
)
    requires
        cap <= kept < candidates.len() <= usize::MAX,
        candidates[kept].id == id,
        forall|i: int| 0 <= i < kept ==> (#[trigger] candidates[i]).id != id,
    ensures
        ({
            let shown = capped_candidates(candidates, Some(id), cap);
            let others = if cap == 0 {
                0
            } else {
                cap - 1
            };
            &&& shown.len() == others + 1
            &&& exists|at: int|
                {
                    &&& 0 <= at <= others
                    &&& #[trigger] shown[at] == candidates[kept]
                    &&& forall|r: int|
                        0 <= r < at ==> #[trigger] shown[r] == candidates[r] && candidates[r].id
                            < id
                    &&& forall|r: int|
                        at < r < shown.len() ==> #[trigger] shown[r] == candidates[r - 1]
                    &&& at < others ==> candidates[at].id > id
                }
        }),
{
    let same = candidate_is(candidates, id);
    lemma_first_where(candidates.len(), same, 0);
    assert(same(kept));
    let found = first_where(candidates.len(), same, 0)->0 as int;
    assert(candidates[found].id == id);
    assert(found == kept);
    assert(kept_past_the_cap(candidates, Some(id), cap) == Some(candidates[kept]));
    let rows = candidates.take(
        if cap == 0 {
            0
        } else {
            cap - 1
        },
    );
    let later = candidate_not_before(rows, id);
    lemma_first_where(rows.len(), later, 0);
    let at = insertion_point(rows, id);
    let shown = capped_candidates(candidates, Some(id), cap);
    assert(shown == rows.insert(at, candidates[kept]));
    assert forall|r: int| 0 <= r < at implies #[trigger] shown[r] == candidates[r]
        && candidates[r].id < id by {
        assert(!later(r));
    }
    if at < rows.len() {
        assert(later(at));
        assert(candidates[at].id != id);
    }
    assert(shown[at] == candidates[kept]);
}

/// The row to select again is the first one that is known by the remembered key.
pub proof fn law_the_first_row_with_the_remembered_key_is_found<D: BreadcrumbPickerDelegate>(
    listing: D::Listing,
    key: D::SelectionKey,
    matches: Seq<MatchView>,
    i: int,
)
    requires
        0 <= i < matches.len() <= usize::MAX,
        D::has_key(listing, matches[i].candidate_id, key),
        forall|j: int|
            0 <= j < i ==> !D::has_key(listing, (#[trigger] matches[j]).candidate_id, key),
    ensures
        pending_index::<D>(listing, Some(key), matches) == Some(i as usize),
        pending_index::<D>(listing, None, matches) is None,
        empty_query_selection::<D>(listing, Some(key), matches) == i,
{
    let keep = match_has_key::<D>(listing, matches, key);
    lemma_first_where(matches.len(), keep, 0);
    assert(keep(i));
    let found = first_where(matches.len(), keep, 0)->0 as int;
    assert(keep(found));
    assert(D::has_key(listing, matches[found].candidate_id, key));
}

/// Where no row has the remembered key, the first current row is selected, and the first of all
/// where none is current.
pub proof fn law_else_the_first_current_row_is_selected<D: BreadcrumbPickerDelegate>(
    listing: D::Listing,
    pending_key: Option<D::SelectionKey>,
    matches: Seq<MatchView>,
    i: int,
)
    requires
        matches.len() <= usize::MAX,
        pending_key matches Some(key) ==> forall|j: int|
            0 <= j < matches.len() ==> !D::has_key(
                listing,
                (#[trigger] matches[j]).candidate_id,
                key,
            ),
        0 <= i <= matches.len(),
        i < matches.len() ==> D::is_current(listing, matches[i].candidate_id),
        forall|j: int|
            0 <= j < i ==> !D::is_current(listing, (#[trigger] matches[j]).candidate_id),
    ensures
        empty_query_selection::<D>(listing, pending_key, matches) == if i < matches.len() {
            i
        } else {
            0
        },
{
    if let Some(key) = pending_key {
        let keep = match_has_key::<D>(listing, matches, key);
        lemma_first_where(matches.len(), keep, 0);
        if let Some(found) = first_where(matches.len(), keep, 0) {
            assert(keep(found as int));
            assert(D::has_key(listing, matches[found as int].candidate_id, key));
        }
    }
    let current = match_is_current::<D>(listing, matches);
    lemma_first_where(matches.len(), current, 0);
    if i < matches.len() {
        assert(current(i));
    }
    if let Some(found) = first_where(matches.len(), current, 0) {
        assert(current(found as int));
        assert(D::is_current(listing, matches[found as int].candidate_id));
    }
}

/// The selected row is remembered by what its candidate is known by; where no row is selected
/// nothing is remembered.
pub proof fn law_the_selected_row_is_remembered<D: BreadcrumbPickerDelegate>(
    listing: D::Listing,
    core: BreadcrumbPickerCore,
)
    ensures
        core.selected_index >= core.matches@.len() ==> selected_key::<D>(listing, core) is None,
        core.selected_index < core.matches@.len() ==> selected_key::<D>(listing, core) == D::key_of(
            listing,
            core.matches@[core.selected_index as int].candidate_id,
        ),
{
}

/// Under an empty query the rows are the first two hundred candidates, unless the first current one
/// is found only past them.
pub proof fn law_an_empty_query_shows_the_first_candidates<D: BreadcrumbPickerDelegate>(
    listing: D::Listing,
    candidates: Seq<CandidateView>,
    current: int,
    r: int,
)
    requires
        candidates.len() <= usize::MAX,
        0 <= current <= candidates.len(),
        forall|j: int| 0 <= j < current ==> !D::is_current(listing, (#[trigger] candidates[j]).id),
        current < candidates.len() ==> current < 200 && D::is_current(
            listing,
            candidates[current].id,
        ),
        0 <= r < candidates.len(),
        r < 200,
    ensures
        ({
            let matches = empty_query_matches::<D>(listing, candidates);
            &&& matches.len() == if candidates.len() <= 200 {
                candidates.len() as int
            } else {
                200
            }
            &&& matches[r].candidate_id == candidates[r].id
            &&& matches[r].string == candidates[r].string
            &&& matches[r].positions.len() == 0
            &&& current_candidate_id::<D>(listing, candidates) == if current < candidates.len() {
                Some(candidates[current].id)
            } else {
                None
            }
        }),
{
    let keep = candidate_is_current::<D>(listing, candidates);
    lemma_first_where(candidates.len(), keep, 0);
    if let Some(found) = first_where(candidates.len(), keep, 0) {
        assert(keep(found as int));
        assert(D::is_current(listing, candidates[found as int].id));
    }
    if current < candidates.len() {
        assert(keep(current));
        assert(candidates[current].id == candidates[current].id);
    }
    law_the_first_candidates_are_shown(
        candidates,
        current_candidate_id::<D>(listing, candidates),
        200,
    );
}

/// Under an empty query the first current candidate is the one to keep among the two hundred that are
/// shown.
pub proof fn law_the_current_candidate_is_kept<D: BreadcrumbPickerDelegate>(
    listing: D::Listing,
    candidates: Seq<CandidateView>,
    current: int,
    r: int,
)
    requires
        0 <= current < candidates.len() <= usize::MAX,
        forall|j: int| 0 <= j < current ==> !D::is_current(listing, (#[trigger] candidates[j]).id),
        D::is_current(listing, candidates[current].id),
    ensures
        ({
            let matches = empty_query_matches::<D>(listing, candidates);
            let shown = capped_candidates(candidates, Some(candidates[current].id), 200);
            &&& matches.len() == shown.len()
            &&& 0 <= r < matches.len() ==> matches[r].candidate_id == shown[r].id
                && matches[r].string == shown[r].string && matches[r].positions.len() == 0
        }),
{
    let keep = candidate_is_current::<D>(listing, candidates);
    lemma_first_where(candidates.len(), keep, 0);
    assert(keep(current));
    let found = first_where(candidates.len(), keep, 0)->0 as int;
    assert(keep(found));
    assert(D::is_current(listing, candidates[found].id));
}

/// A dropdown under an empty query shows the rows of an empty query and selects among them as one
/// does.
pub proof fn law_a_dropdown_under_an_empty_query<D: BreadcrumbPickerDelegate>(delegate: D)
    requires
        shows_empty_query(delegate),
    ensures
        delegate.filter().matches.deep_view() == empty_query_matches::<D>(
            delegate.listed(),
            delegate.filter().candidates.deep_view(),
        ),
        delegate.filter().selected_index == empty_query_selection::<D>(
            delegate.listed(),
            delegate.pending_key(),
            delegate.filter().matches.deep_view(),
        ),
{
}

/// The texts of a dropdown without rows: while its symbols load, where no query matches, and where
/// there are none.
pub proof fn law_a_menu_without_symbols_says_why(loading: bool, query: Seq<char>)
    ensures
        loading ==> no_symbols_text(loading, query) == "Loading symbols…"@,
        !loading && query.len() > 0 ==> no_symbols_text(loading, query) == "No matches"@,
        !loading && query.len() == 0 ==> no_symbols_text(loading, query) == "No symbols"@,
{
}

} // verus!
