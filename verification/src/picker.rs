//! The filter state that a dropdown lists its rows from.

use vstd::prelude::*;

use crate::listing::{first_where, lemma_first_where};

verus! {

/// How many rows a dropdown lists at most.
pub const MAX_BREADCRUMB_MENU_ENTRIES: usize = 200;

/// A row that a query can match.
#[derive(Debug, PartialEq, Eq)]
pub struct StringMatchCandidate {
    /// The position of the row in the listing it was made from.
    pub id: usize,
    pub string: String,
}

/// A row that the query matches.
#[derive(Debug, PartialEq, Eq)]
pub struct StringMatch {
    pub candidate_id: usize,
    pub string: String,
    /// The bytes of `string` that the query matched.
    pub positions: Vec<usize>,
}

/// What a [`StringMatchCandidate`] holds.
#[verifier::ext_equal]
pub struct CandidateView {
    pub id: usize,
    pub string: Seq<char>,
}

/// What a [`StringMatch`] holds.
#[verifier::ext_equal]
pub struct MatchView {
    pub candidate_id: usize,
    pub string: Seq<char>,
    pub positions: Seq<usize>,
}

impl View for StringMatchCandidate {
    type V = CandidateView;

    open spec fn view(&self) -> CandidateView {
        CandidateView { id: self.id, string: self.string@ }
    }
}

impl DeepView for StringMatchCandidate {
    type V = CandidateView;

    open spec fn deep_view(&self) -> CandidateView {
        self.view()
    }
}

impl View for StringMatch {
    type V = MatchView;

    open spec fn view(&self) -> MatchView {
        MatchView {
            candidate_id: self.candidate_id,
            string: self.string@,
            positions: self.positions@,
        }
    }
}

impl DeepView for StringMatch {
    type V = MatchView;

    open spec fn deep_view(&self) -> MatchView {
        self.view()
    }
}

/// How a row matches an empty query: as it is.
pub open spec fn unfiltered(candidate: CandidateView) -> MatchView {
    MatchView { candidate_id: candidate.id, string: candidate.string, positions: Seq::empty() }
}

/// How rows match an empty query.
pub open spec fn all_unfiltered(candidates: Seq<CandidateView>) -> Seq<MatchView> {
    candidates.map_values(|candidate: CandidateView| unfiltered(candidate))
}

/// The condition of having that id.
pub open spec fn candidate_is(candidates: Seq<CandidateView>, id: usize) -> spec_fn(int) -> bool {
    |i: int| candidates[i].id == id
}

/// The condition of not coming before that id.
pub open spec fn candidate_not_before(candidates: Seq<CandidateView>, id: usize) -> spec_fn(
    int,
) -> bool {
    |i: int| candidates[i].id >= id
}

/// The row to keep displayed, where the first `cap` rows do not hold it.
pub open spec fn kept_past_the_cap(
    candidates: Seq<CandidateView>,
    keep_candidate_id: Option<usize>,
    cap: nat,
) -> Option<CandidateView> {
    match keep_candidate_id {
        Some(id) => match first_where(candidates.len(), candidate_is(candidates, id), 0) {
            Some(index) => if index >= cap {
                Some(candidates[index as int])
            } else {
                None
            },
            None => None,
        },
        None => None,
    }
}

/// Where a row of that id goes among `rows`: before the first that does not come before it.
pub open spec fn insertion_point(rows: Seq<CandidateView>, id: usize) -> int {
    match first_where(rows.len(), candidate_not_before(rows, id), 0) {
        Some(index) => index as int,
        None => rows.len() as int,
    }
}

/// The rows that an empty query lists: the first `cap`, of which the last makes room for the row
/// to keep displayed where that lies past the cap.
pub open spec fn capped_candidates(
    candidates: Seq<CandidateView>,
    keep_candidate_id: Option<usize>,
    cap: nat,
) -> Seq<CandidateView> {
    if candidates.len() <= cap {
        candidates
    } else {
        match kept_past_the_cap(candidates, keep_candidate_id, cap) {
            None => candidates.take(cap as int),
            Some(keep) => {
                let rows = candidates.take(
                    if cap == 0 {
                        0
                    } else {
                        cap - 1
                    },
                );
                rows.insert(insertion_point(rows, keep.id), keep)
            },
        }
    }
}

fn to_match(candidate: &StringMatchCandidate) -> (entry_match: StringMatch)
    ensures
        entry_match@ == unfiltered(candidate@),
{
    let entry_match = StringMatch {
        candidate_id: candidate.id,
        string: candidate.string.clone(),
        positions: Vec::new(),
    };
    assert(entry_match@ =~= unfiltered(candidate@));
    entry_match
}

/// The first `count` rows, as an empty query matches them.
fn to_matches(candidates: &[StringMatchCandidate], count: usize) -> (matches: Vec<StringMatch>)
    requires
        count <= candidates@.len(),
    ensures
        matches.deep_view() == all_unfiltered(candidates.deep_view().take(count as int)),
{
    let mut matches: Vec<StringMatch> = Vec::new();
    let mut index: usize = 0;
    while index < count
        invariant
            index <= count <= candidates@.len(),
            matches@.len() == index,
            forall|i: int|
                0 <= i < index ==> (#[trigger] matches@[i])@ == unfiltered(candidates@[i]@),
        decreases count - index,
    {
        matches.push(to_match(&candidates[index]));
        index = index + 1;
    }
    assert(matches.deep_view() =~= all_unfiltered(candidates.deep_view().take(count as int)));
    matches
}

/// Caps the empty-query listing like a typed filter, keeping `keep_candidate_id` displayed even if
/// it would otherwise sort past the cap.
pub fn cap_empty_query_matches(
    candidates: &[StringMatchCandidate],
    keep_candidate_id: Option<usize>,
    cap: usize,
) -> (matches: Vec<StringMatch>)
    ensures
        matches.deep_view() == all_unfiltered(
            capped_candidates(candidates.deep_view(), keep_candidate_id, cap as nat),
        ),
{
    let count: usize = candidates.len();
    let ghost rows = candidates.deep_view();
    assert(rows.len() == count);
    if count <= cap {
        assert(rows.take(count as int) =~= rows);
        return to_matches(candidates, count);
    }
    let keep: Option<usize> = match keep_candidate_id {
        Some(id) => find_candidate(candidates, id),
        None => None,
    };
    proof {
        if keep_candidate_id is Some {
            lemma_first_where(rows.len(), candidate_is(rows, keep_candidate_id->0), 0);
        }
    }
    let keep_index: usize = match keep {
        Some(index) => if index >= cap {
            index
        } else {
            return to_matches(candidates, cap);
        },
        None => {
            return to_matches(candidates, cap);
        },
    };
    // Room for the kept entry comes from the tail; it is then reinserted in sorted order.
    let head: usize = if cap == 0 {
        0
    } else {
        cap - 1
    };
    let mut matches: Vec<StringMatch> = to_matches(candidates, head);
    let ghost shown = rows.take(head as int);
    let keep_id: usize = candidates[keep_index].id;
    assert(keep_id == rows[keep_index as int].id);
    let mut insert_at: usize = 0;
    assert(matches.deep_view().len() == matches@.len());
    while insert_at < matches.len() && matches[insert_at].candidate_id < keep_id
        invariant
            insert_at <= matches@.len(),
            matches@.len() == shown.len() <= usize::MAX,
            matches.deep_view() == all_unfiltered(shown),
            insertion_point(shown, keep_id) == match first_where(
                shown.len(),
                candidate_not_before(shown, keep_id),
                insert_at as int,
            ) {
                Some(index) => index as int,
                None => shown.len() as int,
            },
        decreases matches@.len() - insert_at,
    {
        assert(matches.deep_view()[insert_at as int].candidate_id == shown[insert_at as int].id);
        insert_at = insert_at + 1;
    }
    proof {
        if insert_at < matches@.len() {
            assert(matches.deep_view()[insert_at as int].candidate_id
                == shown[insert_at as int].id);
        }
        assert(insert_at == insertion_point(shown, keep_id));
    }
    let ghost before = matches.deep_view();
    let entry_match: StringMatch = to_match(&candidates[keep_index]);
    assert(candidates@[keep_index as int]@ == rows[keep_index as int]);
    let ghost entry = entry_match@;
    matches.insert(insert_at, entry_match);
    proof {
        assert(matches.deep_view() =~= before.insert(insert_at as int, entry));
        assert(matches.deep_view() =~= all_unfiltered(
            shown.insert(insert_at as int, rows[keep_index as int]),
        ));
    }
    matches
}

/// The first row of that id.
fn find_candidate(candidates: &[StringMatchCandidate], id: usize) -> (found: Option<usize>)
    ensures
        found == first_where(
            candidates.deep_view().len(),
            candidate_is(candidates.deep_view(), id),
            0,
        ),
{
    let ghost rows = candidates.deep_view();
    let mut index: usize = 0;
    while index < candidates.len()
        invariant
            index <= candidates@.len(),
            rows == candidates.deep_view(),
            first_where(rows.len(), candidate_is(rows, id), 0) == first_where(
                rows.len(),
                candidate_is(rows, id),
                index as int,
            ),
        decreases candidates@.len() - index,
    {
        assert(rows[index as int] == candidates@[index as int]@);
        if candidates[index].id == id {
            return Some(index);
        }
        index = index + 1;
    }
    None
}

/// The rows are listed by their positions: ids double as listing indices.
pub open spec fn ids_are_indices(candidates: Seq<CandidateView>) -> bool {
    forall|i: int| 0 <= i < candidates.len() ==> (#[trigger] candidates[i]).id == i
}

/// A capped listing of rows by their positions has at most `cap` of them, and as many as it can;
/// each is one of the rows, they stay in order, and the row to keep is displayed.
pub proof fn law_capped_listing_keeps_the_current_row(
    candidates: Seq<CandidateView>,
    keep_candidate_id: Option<usize>,
    cap: nat,
)
    requires
        ids_are_indices(candidates),
        candidates.len() <= usize::MAX,
        cap > 0,
    ensures
        ({
            let shown = capped_candidates(candidates, keep_candidate_id, cap);
            &&& shown.len() == if candidates.len() <= cap {
                candidates.len()
            } else {
                cap
            }
            &&& forall|r: int|
                0 <= r < shown.len() ==> (#[trigger] shown[r]).id < candidates.len() && shown[r]
                    == candidates[shown[r].id as int]
            &&& forall|r: int, q: int| 0 <= r < q < shown.len() ==> shown[r].id < shown[q].id
            &&& keep_candidate_id matches Some(id) ==> (id < candidates.len() ==> shown.contains(
                candidates[id as int],
            ))
            &&& forall|r: int| 0 <= r < shown.len() - 1 ==> (#[trigger] shown[r]) == candidates[r]
        }),
{
    let shown = capped_candidates(candidates, keep_candidate_id, cap);
    if keep_candidate_id is Some {
        lemma_first_where(candidates.len(), candidate_is(candidates, keep_candidate_id->0), 0);
    }
    if let Some(id) = keep_candidate_id {
        if id < candidates.len() {
            assert(candidate_is(candidates, id)(id as int));
        }
    }
    if candidates.len() > cap {
        match kept_past_the_cap(candidates, keep_candidate_id, cap) {
            None => {
                if let Some(id) = keep_candidate_id {
                    if id < candidates.len() {
                        assert(shown[id as int] == candidates[id as int]);
                    }
                }
            },
            Some(keep) => {
                let rows = candidates.take(cap - 1);
                lemma_first_where(rows.len(), candidate_not_before(rows, keep.id), 0);
                if let Some(index) = first_where(
                    rows.len(),
                    candidate_not_before(rows, keep.id),
                    0,
                ) {
                    assert(rows[index as int] == candidates[index as int]);
                }
                assert(insertion_point(rows, keep.id) == rows.len());
                assert(shown =~= rows.push(keep));
                assert(shown[cap - 1] == keep);
            },
        }
    } else if let Some(id) = keep_candidate_id {
        if id < candidates.len() {
            assert(shown[id as int] == candidates[id as int]);
        }
    }
}

/// The filter state both kinds of dropdown list their rows from.
#[derive(Debug, PartialEq, Eq)]
pub struct BreadcrumbPickerCore {
    /// Rebuilt only alongside the backing listing.
    pub candidates: Vec<StringMatchCandidate>,
    pub matches: Vec<StringMatch>,
    pub query: String,
    pub selected_index: usize,
}

impl Default for BreadcrumbPickerCore {
    fn default() -> (core: BreadcrumbPickerCore)
        ensures
            core.candidates@.len() == 0,
            core.matches@.len() == 0,
            core.query@.len() == 0,
            core.selected_index == 0,
    {
        BreadcrumbPickerCore {
            candidates: Vec::new(),
            matches: Vec::new(),
            query: String::new(),
            selected_index: 0,
        }
    }
}

/// What a segment's trigger adds around its label, horizontally, in logical pixels: a pixel a side.
pub const SEGMENT_TRIGGER_PADDING: u32 = 2;

/// The handle that a segment's dropdown opens through. Only the active segment carries the one that
/// navigation reopens through, where it is of the dropdown's own kind; every other opens through a
/// `fresh` one.
pub fn segment_popover_handle<H>(
    is_active_segment: bool,
    shared_popover_handle: Option<H>,
    fresh: H,
) -> (handle: H)
    ensures
        handle == if is_active_segment && shared_popover_handle is Some {
            shared_popover_handle->0
        } else {
            fresh
        },
{
    if is_active_segment {
        match shared_popover_handle {
            Some(handle) => handle,
            None => fresh,
        }
    } else {
        fresh
    }
}

} // verus!
