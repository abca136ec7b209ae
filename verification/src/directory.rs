//! The dropdown of a directory: its entries, what choosing one of them does, and how they look.

use vstd::prelude::*;

use crate::delegate::MatchUpdate;
use crate::entries::{
    breadcrumb_directory_entries, compares_paths, is_listed, listed_at, lists_entry,
    lists_in_order, BreadcrumbDirectoryEntry, DirectoryEntryView, WorktreeEntry,
};
use crate::listing::{first_where, indices_where, lemma_first_where, lemma_indices_where};
use crate::picker::{
    all_unfiltered, cap_empty_query_matches, capped_candidates, ids_are_indices,
    law_capped_listing_keeps_the_current_row, CandidateView, MatchView, StringMatch,
    StringMatchCandidate, MAX_BREADCRUMB_MENU_ENTRIES,
};
use crate::rel_path::RelPath;
use crate::settings::{
    BreadcrumbDirectoryListingSettings, ProjectPanelSortMode, ProjectPanelSortOrder,
    ShowDiagnostics,
};
use crate::status::{
    breadcrumb_diagnostic_severity, breadcrumb_entry_icon_color, severity, severity_color,
    unchanged, Color, DiagnosticSeverity, DiagnosticSummary, GitSummary,
};
use crate::target::WorktreeId;

verus! {

/// Guards against a pathologically deep chain or a symlink cycle.
pub const MAX_BREADCRUMB_DESCENT_DEPTH: usize = 64;

/// The only child of a directory, where that is a directory too.
pub open spec fn only_child_directory(children: Seq<(RelPath, bool)>) -> Option<RelPath> {
    if children.len() == 1 && children[0].1 {
        Some(children[0].0)
    } else {
        None
    }
}

/// `chain` leads from a directory through directories that are the only child of the one before,
/// by the listings that `child_entries` gave, until one is not or the chain is as long as it may
/// get.
pub open spec fn is_descent<F: Fn(&RelPath) -> Vec<(RelPath, bool)>>(
    child_entries: F,
    chain: Seq<RelPath>,
    listings: Seq<Vec<(RelPath, bool)>>,
) -> bool {
    let steps = chain.len() - 1;
    &&& 0 <= steps <= MAX_BREADCRUMB_DESCENT_DEPTH
    &&& listings.len() == if steps < MAX_BREADCRUMB_DESCENT_DEPTH {
        steps + 1
    } else {
        steps
    }
    &&& forall|k: int|
        0 <= k < listings.len() ==> call_ensures(
            child_entries,
            (&chain[k],),
            #[trigger] listings[k],
        )
    &&& forall|k: int|
        0 <= k < steps ==> only_child_directory((#[trigger] listings[k])@) == Some(chain[k + 1])
    &&& steps < MAX_BREADCRUMB_DESCENT_DEPTH ==> only_child_directory(listings[steps]@) is None
}

/// The directory that a chain of only children leads to from `start`.
pub fn descend_single_child_directories<F: Fn(&RelPath) -> Vec<(RelPath, bool)>>(
    start: RelPath,
    child_entries: F,
) -> (reached: RelPath)
    requires
        forall|path: &RelPath| #[trigger] call_requires(child_entries, (path,)),
    ensures
        exists|chain: Seq<RelPath>, listings: Seq<Vec<(RelPath, bool)>>|
            {
                &&& #[trigger] is_descent(child_entries, chain, listings)
                &&& chain[0] == start
                &&& chain.last() == reached
            },
{
    let mut current: RelPath = start;
    let ghost mut chain: Seq<RelPath> = seq![start];
    let ghost mut listings: Seq<Vec<(RelPath, bool)>> = Seq::empty();
    let mut steps: usize = 0;
    while steps < MAX_BREADCRUMB_DESCENT_DEPTH
        invariant
            forall|path: &RelPath| #[trigger] call_requires(child_entries, (path,)),
            steps <= MAX_BREADCRUMB_DESCENT_DEPTH,
            chain.len() == steps + 1,
            listings.len() == steps,
            chain[0] == start,
            chain.last() == current,
            forall|k: int|
                0 <= k < steps ==> call_ensures(
                    child_entries,
                    (&chain[k],),
                    #[trigger] listings[k],
                ),
            forall|k: int|
                0 <= k < steps ==> only_child_directory((#[trigger] listings[k])@) == Some(
                    chain[k + 1],
                ),
        decreases MAX_BREADCRUMB_DESCENT_DEPTH - steps,
    {
        let mut children: Vec<(RelPath, bool)> = child_entries(&current);
        let ghost before = chain;
        proof {
            listings = listings.push(children);
        }
        if children.len() != 1 {
            assert(is_descent(child_entries, chain, listings));
            return current;
        }
        match children.pop() {
            Some((only_child_path, only_child_is_dir)) => {
                if !only_child_is_dir {
                    assert(is_descent(child_entries, chain, listings));
                    return current;
                }
                current = only_child_path;
                proof {
                    chain = chain.push(current);
                    assert forall|k: int| 0 <= k < steps + 1 implies only_child_directory(
                        (#[trigger] listings[k])@,
                    ) == Some(chain[k + 1]) by {
                        if k < steps {
                            assert(chain[k + 1] == before[k + 1]);
                        }
                    }
                }
            },
            None => {
                return current;
            },
        }
        steps = steps + 1;
    }
    assert(is_descent(child_entries, chain, listings));
    current
}

/// The children of a directory that its dropdown would list, as far as telling a single one from
/// several takes.
pub open spec fn first_children(
    settings: BreadcrumbDirectoryListingSettings,
    entries: Seq<WorktreeEntry>,
) -> Seq<(Seq<Seq<char>>, bool)> {
    let listing = indices_where(entries.len(), listed_at(settings, entries));
    Seq::new(
        if listing.len() < 2 {
            listing.len()
        } else {
            2
        },
        |i: int| (entries[listing[i] as int].path@, entries[listing[i] as int].is_dir),
    )
}

proof fn lemma_indices_where_extends(count: nat, more: nat, keep: spec_fn(int) -> bool)
    requires
        count <= more,
    ensures
        indices_where(count, keep).len() <= indices_where(more, keep).len(),
        indices_where(count, keep) == indices_where(more, keep).take(
            indices_where(count, keep).len() as int,
        ),
    decreases more - count,
{
    if count < more {
        lemma_indices_where_extends(count, (more - 1) as nat, keep);
        let shorter = indices_where((more - 1) as nat, keep);
        let longer = indices_where(more, keep);
        assert(longer.take(indices_where(count, keep).len() as int) =~= shorter.take(
            indices_where(count, keep).len() as int,
        ));
    } else {
        assert(indices_where(count, keep) =~= indices_where(more, keep).take(
            indices_where(count, keep).len() as int,
        ));
    }
}

/// Applies the listing's own hidden-entry predicates directly to the worktree snapshot and stops
/// after two entries.
pub fn breadcrumb_directory_children(
    settings: &BreadcrumbDirectoryListingSettings,
    entries: &[WorktreeEntry],
) -> (children: Vec<(RelPath, bool)>)
    ensures
        children.deep_view() == first_children(*settings, entries@),
{
    let mut children: Vec<(RelPath, bool)> = Vec::new();
    let ghost keep = listed_at(*settings, entries@);
    let ghost listing = indices_where(entries@.len(), keep);
    let mut index: usize = 0;
    while index < entries.len() && children.len() < 2
        invariant
            index <= entries@.len(),
            keep == listed_at(*settings, entries@),
            listing == indices_where(entries@.len(), keep),
            children@.len() <= 2,
            children@.len() == indices_where(index as nat, keep).len(),
            forall|i: int|
                0 <= i < children@.len() ==> (#[trigger] children@[i]).0@
                    == entries@[indices_where(index as nat, keep)[i] as int].path@
                    && children@[i].1
                    == entries@[indices_where(index as nat, keep)[i] as int].is_dir,
        decreases entries@.len() - index,
    {
        if lists_entry(settings, &entries[index]) {
            children.push((entries[index].path.clone(), entries[index].is_dir));
        }
        index = index + 1;
    }
    proof {
        lemma_indices_where_extends(index as nat, entries@.len(), keep);
        let found = indices_where(index as nat, keep);
        assert forall|i: int| 0 <= i < children@.len() implies (#[trigger] children@[i]).0@
            == entries@[listing[i] as int].path@ && children@[i].1
            == entries@[listing[i] as int].is_dir by {
            assert(found[i] == listing[i]);
        }
        assert(children.deep_view() =~= first_children(*settings, entries@));
    }
    children
}

/// Where the icon of a row comes from.
#[derive(Clone, Copy, Debug, PartialEq, Eq, Structural)]
pub enum BreadcrumbEntryIconSource {
    File,
    Folder,
    Chevron,
    NoIcon,
}

/// Where the icon of a row comes from.
pub open spec fn icon_source(
    is_dir: bool,
    show_file_icons: bool,
    show_folder_icons: bool,
) -> BreadcrumbEntryIconSource {
    if is_dir && show_folder_icons {
        BreadcrumbEntryIconSource::Folder
    } else if is_dir {
        BreadcrumbEntryIconSource::Chevron
    } else if show_file_icons {
        BreadcrumbEntryIconSource::File
    } else {
        BreadcrumbEntryIconSource::NoIcon
    }
}

pub fn breadcrumb_entry_icon_source(
    is_dir: bool,
    show_file_icons: bool,
    show_folder_icons: bool,
) -> (source: BreadcrumbEntryIconSource)
    ensures
        source == icon_source(is_dir, show_file_icons, show_folder_icons),
{
    if is_dir {
        if show_folder_icons {
            BreadcrumbEntryIconSource::Folder
        } else {
            BreadcrumbEntryIconSource::Chevron
        }
    } else if show_file_icons {
        BreadcrumbEntryIconSource::File
    } else {
        BreadcrumbEntryIconSource::NoIcon
    }
}

/// The git summary that colors a row.
pub open spec fn shown_summary(entry: DirectoryEntryView, git_status_enabled: bool) -> GitSummary {
    if git_status_enabled {
        entry.git_summary
    } else {
        unchanged()
    }
}

/// The color of a row's label. `palette` colors an entry by its git summary, whether it is ignored
/// and whether it is the active file.
pub fn breadcrumb_entry_label_color<P: Fn(GitSummary, bool, bool) -> Color>(
    entry: &BreadcrumbDirectoryEntry,
    git_status_enabled: bool,
    is_active_file: bool,
    palette: P,
) -> (color: Color)
    requires
        call_requires(
            palette,
            (shown_summary(entry@, git_status_enabled), entry.is_ignored, is_active_file),
        ),
    ensures
        call_ensures(
            palette,
            (shown_summary(entry@, git_status_enabled), entry.is_ignored, is_active_file),
            color,
        ),
{
    let git_summary: GitSummary = if git_status_enabled {
        entry.git_summary
    } else {
        GitSummary::default()
    };
    palette(git_summary, entry.is_ignored, is_active_file)
}

/// The directory dropdown's contents. Choosing a directory navigates into it; a file opens it.
#[derive(Debug, PartialEq, Eq)]
pub struct BreadcrumbDirectoryDelegate {
    pub worktree_id: WorktreeId,
    pub current_path: RelPath,
    /// The file that the bar belongs to.
    pub active_path: Option<RelPath>,
    pub entries: Vec<BreadcrumbDirectoryEntry>,
    /// Rebuilt only alongside `entries`.
    pub candidates: Vec<StringMatchCandidate>,
    pub matches: Vec<StringMatch>,
    pub query: String,
    pub selected_index: usize,
    /// Whether any row draws an icon; reserving the column for none would indent the list.
    pub show_icons: bool,
}

/// The rows of a directory's entries.
pub open spec fn entry_candidates(entries: Seq<DirectoryEntryView>) -> Seq<CandidateView> {
    Seq::new(entries.len(), |i: int| CandidateView { id: i as usize, string: entries[i].name })
}

/// The rows of a directory's entries.
fn build_candidates(entries: &Vec<BreadcrumbDirectoryEntry>) -> (candidates: Vec<
    StringMatchCandidate,
>)
    ensures
        candidates.deep_view() == entry_candidates(entries.deep_view()),
{
    let mut candidates: Vec<StringMatchCandidate> = Vec::new();
    let mut index: usize = 0;
    while index < entries.len()
        invariant
            index <= entries@.len(),
            candidates@.len() == index,
            forall|i: int|
                0 <= i < index ==> (#[trigger] candidates@[i])@ == entry_candidates(
                    entries.deep_view(),
                )[i],
        decreases entries@.len() - index,
    {
        assert(entries.deep_view()[index as int] == entries@[index as int]@);
        candidates.push(StringMatchCandidate { id: index, string: entries[index].name.clone() });
        index = index + 1;
    }
    assert(candidates.deep_view() =~= entry_candidates(entries.deep_view()));
    candidates
}

/// Some row draws an icon.
pub open spec fn any_icon(
    entries: Seq<DirectoryEntryView>,
    settings: BreadcrumbDirectoryListingSettings,
) -> bool {
    exists|i: int|
        0 <= i < entries.len() && icon_source(
            (#[trigger] entries[i]).is_dir,
            settings.file_icons,
            settings.folder_icons,
        ) != BreadcrumbEntryIconSource::NoIcon
}

/// Whether some row draws an icon.
fn check_any_icon(
    entries: &Vec<BreadcrumbDirectoryEntry>,
    settings: &BreadcrumbDirectoryListingSettings,
) -> (any: bool)
    ensures
        any == any_icon(entries.deep_view(), *settings),
{
    let mut index: usize = 0;
    while index < entries.len()
        invariant
            index <= entries@.len(),
            forall|i: int|
                0 <= i < index ==> icon_source(
                    (#[trigger] entries.deep_view()[i]).is_dir,
                    settings.file_icons,
                    settings.folder_icons,
                ) == BreadcrumbEntryIconSource::NoIcon,
        decreases entries@.len() - index,
    {
        assert(entries.deep_view()[index as int] == entries@[index as int]@);
        let source: BreadcrumbEntryIconSource = breadcrumb_entry_icon_source(
            entries[index].is_dir,
            settings.file_icons,
            settings.folder_icons,
        );
        if source != BreadcrumbEntryIconSource::NoIcon {
            return true;
        }
        index = index + 1;
    }
    false
}

/// The condition of an entry of lying on the way to `active_path`.
pub open spec fn entry_leads_to(
    entries: Seq<DirectoryEntryView>,
    active_path: Seq<Seq<char>>,
) -> spec_fn(int) -> bool {
    |i: int| entries[i].path.is_prefix_of(active_path)
}

/// The condition of a row of lying on the way to `active_path`.
pub open spec fn match_leads_to(
    entries: Seq<DirectoryEntryView>,
    matches: Seq<MatchView>,
    active_path: Seq<Seq<char>>,
) -> spec_fn(int) -> bool {
    |i: int|
        matches[i].candidate_id < entries.len()
            && entries[matches[i].candidate_id as int].path.is_prefix_of(active_path)
}

/// The row that is selected for the active file: the first on the way to it, or else the first of
/// all.
pub open spec fn active_selection(
    entries: Seq<DirectoryEntryView>,
    matches: Seq<MatchView>,
    active_path: Seq<Seq<char>>,
) -> usize {
    match first_where(matches.len(), match_leads_to(entries, matches, active_path), 0) {
        Some(index) => index,
        None => 0,
    }
}

/// The rows that an empty query lists, with the one on the way to the active file among them.
pub open spec fn unqueried_matches(
    entries: Seq<DirectoryEntryView>,
    candidates: Seq<CandidateView>,
    active_path: Option<Seq<Seq<char>>>,
) -> Seq<MatchView> {
    all_unfiltered(
        capped_candidates(
            candidates,
            match active_path {
                Some(active_path) => first_where(
                    entries.len(),
                    entry_leads_to(entries, active_path),
                    0,
                ),
                None => None,
            },
            MAX_BREADCRUMB_MENU_ENTRIES as nat,
        ),
    )
}

impl BreadcrumbDirectoryDelegate {
    /// The dropdown lists and selects what an empty query does.
    pub open spec fn shows_all(&self, selected_before: usize) -> bool {
        let entries = self.entries.deep_view();
        let matches = unqueried_matches(
            entries,
            self.candidates.deep_view(),
            self.active_path.deep_view(),
        );
        &&& self.matches.deep_view() == matches
        &&& self.selected_index == match self.active_path {
            Some(active_path) => active_selection(entries, matches, active_path@),
            None => selected_before,
        }
    }

    /// The dropdown lists the entries of `source`, filtered and ordered.
    pub open spec fn lists_source<
        F: Fn(&RelPath, bool, &RelPath, bool, ProjectPanelSortMode, ProjectPanelSortOrder) -> bool,
    >(
        &self,
        source: Seq<WorktreeEntry>,
        settings: BreadcrumbDirectoryListingSettings,
        compare_by: F,
    ) -> bool {
        &&& lists_in_order(settings, source, compare_by, self.entries.deep_view())
        &&& self.candidates.deep_view() == entry_candidates(self.entries.deep_view())
        &&& self.show_icons == any_icon(self.entries.deep_view(), settings)
    }

    /// An empty dropdown.
    pub fn new(
        worktree_id: WorktreeId,
        current_path: RelPath,
        active_path: Option<RelPath>,
    ) -> (delegate: BreadcrumbDirectoryDelegate)
        ensures
            delegate.worktree_id == worktree_id,
            delegate.current_path == current_path,
            delegate.active_path == active_path,
            delegate.entries@.len() == 0,
            delegate.candidates@.len() == 0,
            delegate.matches@.len() == 0,
            delegate.query@.len() == 0,
            delegate.selected_index == 0,
            !delegate.show_icons,
    {
        BreadcrumbDirectoryDelegate {
            worktree_id,
            current_path,
            active_path,
            entries: Vec::new(),
            candidates: Vec::new(),
            matches: Vec::new(),
            query: String::new(),
            selected_index: 0,
            show_icons: false,
        }
    }

    /// Lists the entries of the directory anew, or nothing where its worktree is gone. The rows are
    /// cleared with the entries they were made from; the query is to be run again.
    pub fn reload_entries<
        F: Fn(&RelPath, bool, &RelPath, bool, ProjectPanelSortMode, ProjectPanelSortOrder) -> bool,
    >(
        &mut self,
        source: Option<&[WorktreeEntry]>,
        settings: &BreadcrumbDirectoryListingSettings,
        compare_by: F,
    )
        requires
            compares_paths(compare_by),
        ensures
            *final(self) == (BreadcrumbDirectoryDelegate {
                entries: final(self).entries,
                candidates: final(self).candidates,
                matches: final(self).matches,
                show_icons: final(self).show_icons,
                ..*old(self)
            }),
            final(self).matches@.len() == 0,
            match source {
                Some(source) => final(self).lists_source(source@, *settings, compare_by),
                None => {
                    &&& final(self).entries@.len() == 0
                    &&& final(self).candidates@.len() == 0
                    &&& final(self).show_icons == old(self).show_icons
                },
            },
    {
        match source {
            None => {
                self.entries = Vec::new();
                self.candidates = Vec::new();
                self.matches = Vec::new();
            },
            Some(source) => {
                let entries: Vec<BreadcrumbDirectoryEntry> = breadcrumb_directory_entries(
                    settings,
                    source,
                    compare_by,
                );
                self.candidates = build_candidates(&entries);
                self.show_icons = check_any_icon(&entries, settings);
                self.entries = entries;
                // `matches` holds positions into the entries just replaced above.
                self.matches = Vec::new();
            },
        }
    }

    /// Selects the row on the way to the active file, where there is one.
    pub fn select_active_path(&mut self)
        ensures
            *final(self) == (BreadcrumbDirectoryDelegate {
                selected_index: match old(self).active_path {
                    Some(active_path) => active_selection(
                        old(self).entries.deep_view(),
                        old(self).matches.deep_view(),
                        active_path@,
                    ),
                    None => old(self).selected_index,
                },
                ..*old(self)
            }),
    {
        let ghost entries = self.entries.deep_view();
        let ghost rows = self.matches.deep_view();
        let selected: usize = match &self.active_path {
            None => {
                return;
            },
            Some(active_path) => {
                let ghost keep = match_leads_to(entries, rows, active_path@);
                let mut selected: usize = 0;
                let mut index: usize = 0;
                while index < self.matches.len()
                    invariant_except_break
                        index <= self.matches@.len(),
                        selected == 0,
                        first_where(rows.len(), keep, 0) == first_where(
                            rows.len(),
                            keep,
                            index as int,
                        ),
                    invariant
                        entries == self.entries.deep_view(),
                        rows == self.matches.deep_view(),
                        keep == match_leads_to(entries, rows, active_path@),
                    ensures
                        selected == active_selection(entries, rows, active_path@),
                    decreases self.matches@.len() - index,
                {
                    assert(rows[index as int] == self.matches@[index as int]@);
                    let candidate_id: usize = self.matches[index].candidate_id;
                    if candidate_id < self.entries.len() {
                        assert(entries[candidate_id as int] == self.entries@[candidate_id as int]@);
                        if active_path.starts_with(&self.entries[candidate_id].path) {
                            selected = index;
                            break;
                        }
                    }
                    index = index + 1;
                }
                selected
            },
        };
        self.selected_index = selected;
    }

    /// The first entry on the way to the active file.
    fn find_active_entry(&self) -> (found: Option<usize>)
        ensures
            found == match self.active_path {
                Some(active_path) => first_where(
                    self.entries.deep_view().len(),
                    entry_leads_to(self.entries.deep_view(), active_path@),
                    0,
                ),
                None => None,
            },
    {
        let ghost entries = self.entries.deep_view();
        match &self.active_path {
            None => None,
            Some(active_path) => {
                let ghost keep = entry_leads_to(entries, active_path@);
                let mut index: usize = 0;
                while index < self.entries.len()
                    invariant
                        index <= self.entries@.len(),
                        self.active_path == Some(*active_path),
                        entries == self.entries.deep_view(),
                        keep == entry_leads_to(entries, active_path@),
                        first_where(entries.len(), keep, 0) == first_where(
                            entries.len(),
                            keep,
                            index as int,
                        ),
                    decreases self.entries@.len() - index,
                {
                    assert(entries[index as int] == self.entries@[index as int]@);
                    if active_path.starts_with(&self.entries[index].path) {
                        return Some(index);
                    }
                    index = index + 1;
                }
                None
            },
        }
    }

    /// Follows a changed query: an empty one lists the entries at once, any other leaves them to be
    /// filtered.
    pub fn update_matches(&mut self, query: String) -> (update: MatchUpdate)
        ensures
            *final(self) == (BreadcrumbDirectoryDelegate {
                query,
                matches: final(self).matches,
                selected_index: final(self).selected_index,
                ..*old(self)
            }),
            if query@.len() == 0 {
                &&& update == MatchUpdate::Done
                &&& final(self).shows_all(old(self).selected_index)
            } else {
                &&& update == MatchUpdate::Filter
                &&& final(self).matches == old(self).matches
                &&& final(self).selected_index == old(self).selected_index
            },
    {
        let is_empty: bool = query.as_str().is_empty();
        self.query = query;
        if !is_empty {
            return MatchUpdate::Filter;
        }
        let active_candidate_id: Option<usize> = self.find_active_entry();
        self.matches =
        cap_empty_query_matches(
            self.candidates.as_slice(),
            active_candidate_id,
            MAX_BREADCRUMB_MENU_ENTRIES,
        );
        self.select_active_path();
        MatchUpdate::Done
    }

    /// Lists the rows that a query matched, best first, and selects the best.
    pub fn apply_filtered_matches(&mut self, matches: Vec<StringMatch>)
        ensures
            *final(self) == (BreadcrumbDirectoryDelegate {
                matches,
                selected_index: 0,
                ..*old(self)
            }),
    {
        self.matches = matches;
        self.selected_index = 0;
    }

    /// The dropdown of a directory as it opens: its entries, of which the one on the way to the
    /// active file is selected.
    pub fn picker<
        F: Fn(&RelPath, bool, &RelPath, bool, ProjectPanelSortMode, ProjectPanelSortOrder) -> bool,
    >(
        worktree_id: WorktreeId,
        current_path: RelPath,
        active_path: Option<RelPath>,
        source: Option<&[WorktreeEntry]>,
        settings: &BreadcrumbDirectoryListingSettings,
        compare_by: F,
    ) -> (delegate: BreadcrumbDirectoryDelegate)
        requires
            compares_paths(compare_by),
        ensures
            delegate.worktree_id == worktree_id,
            delegate.current_path == current_path,
            delegate.active_path == active_path,
            delegate.query@.len() == 0,
            delegate.shows_all(0),
            match source {
                Some(source) => delegate.lists_source(source@, *settings, compare_by),
                None => {
                    &&& delegate.entries@.len() == 0
                    &&& delegate.candidates@.len() == 0
                    &&& !delegate.show_icons
                },
            },
    {
        let mut delegate = BreadcrumbDirectoryDelegate::new(worktree_id, current_path, active_path);
        delegate.reload_entries(source, settings, compare_by);
        delegate.update_matches(String::new());
        delegate.select_active_path();
        delegate
    }
}

/// The entry in the row at `index`.
pub open spec fn entry_in_row(
    entries: Seq<BreadcrumbDirectoryEntry>,
    matches: Seq<StringMatch>,
    index: int,
) -> Option<BreadcrumbDirectoryEntry> {
    if 0 <= index < matches.len() && matches[index].candidate_id < entries.len() {
        Some(entries[matches[index].candidate_id as int])
    } else {
        None
    }
}

/// What choosing a row does.
#[derive(Debug, PartialEq, Eq)]
pub enum DirectoryAction {
    Nothing,
    /// Opens the file, and dismisses the dropdown.
    OpenFile { worktree_id: WorktreeId, path: RelPath },
    /// Moves the dropdown to the directory; it reopens under that directory's own segment.
    Navigate { worktree_id: WorktreeId, path: RelPath },
}

/// What a [`DirectoryAction`] holds.
#[verifier::ext_equal]
pub enum DirectoryActionView {
    Nothing,
    OpenFile { worktree_id: WorktreeId, path: Seq<Seq<char>> },
    Navigate { worktree_id: WorktreeId, path: Seq<Seq<char>> },
}

impl View for DirectoryAction {
    type V = DirectoryActionView;

    open spec fn view(&self) -> DirectoryActionView {
        match self {
            DirectoryAction::Nothing => DirectoryActionView::Nothing,
            DirectoryAction::OpenFile { worktree_id, path } => DirectoryActionView::OpenFile {
                worktree_id: *worktree_id,
                path: path@,
            },
            DirectoryAction::Navigate { worktree_id, path } => DirectoryActionView::Navigate {
                worktree_id: *worktree_id,
                path: path@,
            },
        }
    }
}

/// The only entry that the settings let be listed, where that is a directory.
pub open spec fn only_listed_directory(
    settings: BreadcrumbDirectoryListingSettings,
    entries: Seq<WorktreeEntry>,
) -> Option<Seq<Seq<char>>> {
    let children = first_children(settings, entries);
    if children.len() == 1 && children[0].1 {
        Some(children[0].0)
    } else {
        None
    }
}

/// `chain` leads from a directory through directories that are all that the one before lists, by
/// the entries that `child_entries` gave, until one is not or the chain is as long as it may get.
pub open spec fn is_fold<S: Fn(&RelPath) -> Vec<WorktreeEntry>>(
    settings: BreadcrumbDirectoryListingSettings,
    child_entries: S,
    chain: Seq<RelPath>,
    folders: Seq<Vec<WorktreeEntry>>,
) -> bool {
    let steps = chain.len() - 1;
    &&& 0 <= steps <= MAX_BREADCRUMB_DESCENT_DEPTH
    &&& folders.len() == if steps < MAX_BREADCRUMB_DESCENT_DEPTH {
        steps + 1
    } else {
        steps
    }
    &&& forall|k: int|
        0 <= k < folders.len() ==> call_ensures(child_entries, (&chain[k],), #[trigger] folders[k])
    &&& forall|k: int|
        0 <= k < steps ==> only_listed_directory(settings, (#[trigger] folders[k])@) == Some(
            chain[k + 1]@,
        )
    &&& steps < MAX_BREADCRUMB_DESCENT_DEPTH ==> only_listed_directory(
        settings,
        folders[steps]@,
    ) is None
}

/// Folding leads from `start` to `reached`.
pub open spec fn folds_to<S: Fn(&RelPath) -> Vec<WorktreeEntry>>(
    settings: BreadcrumbDirectoryListingSettings,
    child_entries: S,
    start: Seq<Seq<char>>,
    reached: Seq<Seq<char>>,
) -> bool {
    exists|chain: Seq<RelPath>, folders: Seq<Vec<WorktreeEntry>>|
        {
            &&& #[trigger] is_fold(settings, child_entries, chain, folders)
            &&& chain[0]@ == start
            &&& chain.last()@ == reached
        }
}

/// The children that the settings let be listed came from what `child_entries` gave.
spec fn listed_children<S: Fn(&RelPath) -> Vec<WorktreeEntry>>(
    settings: &BreadcrumbDirectoryListingSettings,
    child_entries: &S,
    path: &RelPath,
    children: Vec<(RelPath, bool)>,
) -> bool {
    exists|entries: Vec<WorktreeEntry>| #[trigger]
        call_ensures(*child_entries, (path,), entries) && children.deep_view() == first_children(
            *settings,
            entries@,
        )
}

/// The directory that `start` folds to.
fn fold_directories<S: Fn(&RelPath) -> Vec<WorktreeEntry>>(
    settings: &BreadcrumbDirectoryListingSettings,
    start: RelPath,
    child_entries: S,
) -> (reached: RelPath)
    requires
        forall|path: &RelPath| #[trigger] call_requires(child_entries, (path,)),
    ensures
        folds_to(*settings, child_entries, start@, reached@),
{
    let list_children = |path: &RelPath| -> (children: Vec<(RelPath, bool)>)
        ensures
            listed_children(settings, &child_entries, path, children),
        {
            let entries: Vec<WorktreeEntry> = child_entries(path);
            breadcrumb_directory_children(settings, entries.as_slice())
        };
    let reached: RelPath = descend_single_child_directories(start, &list_children);
    proof {
        let (chain, listings) = choose|chain: Seq<RelPath>, listings: Seq<Vec<(RelPath, bool)>>|
            {
                &&& #[trigger] is_descent(&list_children, chain, listings)
                &&& chain[0] == start
                &&& chain.last() == reached
            };
        let steps = chain.len() - 1;
        let folders = Seq::new(
            listings.len(),
            |k: int|
                choose|entries: Vec<WorktreeEntry>| #[trigger]
                    call_ensures(child_entries, (&chain[k],), entries) && listings[k].deep_view()
                        == first_children(*settings, entries@),
        );
        assert forall|k: int| 0 <= k < folders.len() implies call_ensures(
            child_entries,
            (&chain[k],),
            #[trigger] folders[k],
        ) && listings[k].deep_view() == first_children(*settings, folders[k]@) by {
            assert(call_ensures(&list_children, (&chain[k],), listings[k]));
            assert(listed_children(settings, &child_entries, &chain[k], listings[k]));
        }
        assert forall|k: int| 0 <= k < folders.len() implies only_listed_directory(
            *settings,
            (#[trigger] folders[k])@,
        ) == (match only_child_directory(listings[k]@) {
            Some(path) => Some(path@),
            None => None,
        }) by {
            assert(listings[k].deep_view() == first_children(*settings, folders[k]@));
            if listings[k]@.len() == 1 {
                assert(listings[k].deep_view()[0] == listings[k]@[0].deep_view());
            }
        }
        assert forall|k: int| 0 <= k < steps implies only_listed_directory(
            *settings,
            (#[trigger] folders[k])@,
        ) == Some(chain[k + 1]@) by {
            assert(only_child_directory(listings[k]@) == Some(chain[k + 1]));
        }
        assert(is_fold(*settings, child_entries, chain, folders));
    }
    reached
}

/// `action` is what choosing an entry does: a file opens, a directory is navigated into, through
/// directories that hold nothing but another one where those are folded.
pub open spec fn chooses<S: Fn(&RelPath) -> Vec<WorktreeEntry>>(
    worktree_id: WorktreeId,
    entry: DirectoryEntryView,
    has_worktree: bool,
    settings: BreadcrumbDirectoryListingSettings,
    child_entries: S,
    action: DirectoryActionView,
) -> bool {
    if !entry.is_dir {
        action == (DirectoryActionView::OpenFile { worktree_id, path: entry.path })
    } else if !has_worktree {
        action == DirectoryActionView::Nothing
    } else if settings.auto_fold_dirs {
        action is Navigate && action->Navigate_worktree_id == worktree_id && folds_to(
            settings,
            child_entries,
            entry.path,
            action->Navigate_path,
        )
    } else {
        action == (DirectoryActionView::Navigate { worktree_id, path: entry.path })
    }
}

/// What an empty dropdown says.
pub open spec fn no_entries_text(entry_count: nat) -> Seq<char> {
    if entry_count == 0 {
        "Empty directory"@
    } else {
        "No matches"@
    }
}

/// The icon of a row.
#[derive(Clone, Copy, Debug, PartialEq, Eq, Structural)]
pub enum EntryIcon {
    /// The icon of the file's type.
    File,
    /// The folder's icon, open on the way to the active file.
    Folder { open: bool },
    Chevron,
    NoIcon,
}

/// A row of the dropdown, as it is painted.
#[derive(Debug, PartialEq, Eq)]
pub struct DirectoryRow {
    pub selected: bool,
    pub name: String,
    /// The bytes of the name that the query matched.
    pub positions: Vec<usize>,
    pub icon: EntryIcon,
    pub icon_color: Color,
    pub label_color: Color,
    /// A column is reserved for icons.
    pub show_icons: bool,
}

/// The icon of a row.
pub open spec fn row_icon(
    entry: DirectoryEntryView,
    active_path: Option<Seq<Seq<char>>>,
    settings: BreadcrumbDirectoryListingSettings,
) -> EntryIcon {
    match icon_source(entry.is_dir, settings.file_icons, settings.folder_icons) {
        BreadcrumbEntryIconSource::File => EntryIcon::File,
        BreadcrumbEntryIconSource::Folder => EntryIcon::Folder {
            open: active_path is Some && entry.path.is_prefix_of(active_path->0),
        },
        BreadcrumbEntryIconSource::Chevron => EntryIcon::Chevron,
        BreadcrumbEntryIconSource::NoIcon => EntryIcon::NoIcon,
    }
}

impl BreadcrumbDirectoryDelegate {
    /// The entry in the row at `index`.
    pub fn entry_at(&self, index: usize) -> (entry: Option<&BreadcrumbDirectoryEntry>)
        ensures
            match entry {
                Some(entry) => entry_in_row(self.entries@, self.matches@, index as int) == Some(
                    *entry,
                ),
                None => entry_in_row(self.entries@, self.matches@, index as int) is None,
            },
    {
        if index < self.matches.len() {
            let candidate_id: usize = self.matches[index].candidate_id;
            if candidate_id < self.entries.len() {
                return Some(&self.entries[candidate_id]);
            }
        }
        None
    }

    /// The severity that marks a row. Resolved per row, not for the whole listing, so opening a
    /// huge directory stays cheap; `diagnostics` knows nothing once the project is gone.
    pub fn row_diagnostic_severity<D: Fn(WorktreeId, &RelPath) -> Option<DiagnosticSummary>>(
        &self,
        entry: &BreadcrumbDirectoryEntry,
        show_diagnostics: ShowDiagnostics,
        diagnostics: D,
    ) -> (marked: Option<DiagnosticSeverity>)
        requires
            call_requires(diagnostics, (self.worktree_id, &entry.path)),
        ensures
            entry.is_dir ==> marked is None,
            !entry.is_dir ==> exists|summary: Option<DiagnosticSummary>| #[trigger]
                call_ensures(diagnostics, (self.worktree_id, &entry.path), summary) && marked
                    == match summary {
                    Some(summary) => severity(summary, show_diagnostics),
                    None => None,
                },
    {
        if entry.is_dir {
            return None;
        }
        match diagnostics(self.worktree_id, &entry.path) {
            Some(summary) => breadcrumb_diagnostic_severity(summary, show_diagnostics),
            None => None,
        }
    }

    pub fn match_count(&self) -> (count: usize)
        ensures
            count == self.matches@.len(),
    {
        self.matches.len()
    }

    pub fn selected_index(&self) -> (index: usize)
        ensures
            index == self.selected_index,
    {
        self.selected_index
    }

    pub fn set_selected_index(&mut self, index: usize)
        ensures
            *final(self) == (BreadcrumbDirectoryDelegate { selected_index: index, ..*old(self) }),
    {
        self.selected_index = index;
    }

    pub fn placeholder_text(&self) -> (text: String)
        ensures
            text@ == "Search this folder…"@,
    {
        "Search this folder…".to_string()
    }

    pub fn no_matches_text(&self) -> (text: Option<String>)
        ensures
            text.deep_view() == Some(no_entries_text(self.entries@.len())),
    {
        Some(
            if self.entries.len() == 0 {
                "Empty directory".to_string()
            } else {
                "No matches".to_string()
            },
        )
    }

    /// What choosing the selected row does. `child_entries` lists what a directory holds.
    pub fn confirm<S: Fn(&RelPath) -> Vec<WorktreeEntry>>(
        &self,
        has_worktree: bool,
        settings: &BreadcrumbDirectoryListingSettings,
        child_entries: S,
    ) -> (action: DirectoryAction)
        requires
            forall|path: &RelPath| #[trigger] call_requires(child_entries, (path,)),
        ensures
            match entry_in_row(self.entries@, self.matches@, self.selected_index as int) {
                Some(entry) => chooses(
                    self.worktree_id,
                    entry@,
                    has_worktree,
                    *settings,
                    child_entries,
                    action@,
                ),
                None => action is Nothing,
            },
    {
        let entry: &BreadcrumbDirectoryEntry = match self.entry_at(self.selected_index) {
            Some(entry) => entry,
            None => {
                return DirectoryAction::Nothing;
            },
        };
        let entry_path: RelPath = entry.path.clone();
        if !entry.is_dir {
            return DirectoryAction::OpenFile { worktree_id: self.worktree_id, path: entry_path };
        }
        if !has_worktree {
            return DirectoryAction::Nothing;
        }
        let path: RelPath = if settings.auto_fold_dirs {
            fold_directories(settings, entry_path, child_entries)
        } else {
            entry_path
        };
        DirectoryAction::Navigate { worktree_id: self.worktree_id, path }
    }

    /// What stepping into the selected row does, where it is a directory; anything but nothing
    /// keeps the key from the query's cursor, which it otherwise moves.
    pub fn select_child<S: Fn(&RelPath) -> Vec<WorktreeEntry>>(
        &self,
        has_worktree: bool,
        settings: &BreadcrumbDirectoryListingSettings,
        child_entries: S,
    ) -> (action: Option<DirectoryAction>)
        requires
            forall|path: &RelPath| #[trigger] call_requires(child_entries, (path,)),
        ensures
            match entry_in_row(self.entries@, self.matches@, self.selected_index as int) {
                Some(entry) => if self.query@.len() > 0 || !entry.is_dir {
                    action is None
                } else {
                    action is Some && chooses(
                        self.worktree_id,
                        entry@,
                        has_worktree,
                        *settings,
                        child_entries,
                        action->0@,
                    )
                },
                None => action is None,
            },
    {
        if !self.query.as_str().is_empty() {
            return None;
        }
        match self.entry_at(self.selected_index) {
            Some(entry) => if entry.is_dir {
                Some(self.confirm(has_worktree, settings, child_entries))
            } else {
                None
            },
            None => None,
        }
    }

    /// Where stepping out of the directory leads to; nowhere from the worktree's root, nor while a
    /// query is typed.
    pub fn select_parent(&self) -> (step: Option<(WorktreeId, RelPath)>)
        ensures
            if self.query@.len() > 0 || self.current_path@.len() == 0 {
                step is None
            } else {
                step matches Some((worktree_id, path)) && worktree_id == self.worktree_id && path@
                    == self.current_path@.drop_last()
            },
    {
        if !self.query.as_str().is_empty() {
            return None;
        }
        match self.current_path.parent() {
            Some(parent) => Some((self.worktree_id, parent)),
            None => None,
        }
    }

    /// The row at `index`.
    pub fn render_match<
        D: Fn(WorktreeId, &RelPath) -> Option<DiagnosticSummary>,
        P: Fn(GitSummary, bool, bool) -> Color,
    >(
        &self,
        index: usize,
        selected: bool,
        settings: &BreadcrumbDirectoryListingSettings,
        diagnostics: D,
        palette: P,
    ) -> (row: Option<DirectoryRow>)
        requires
            forall|worktree_id: WorktreeId, path: &RelPath| #[trigger]
                call_requires(diagnostics, (worktree_id, path)),
            forall|summary: GitSummary, ignored: bool, active: bool| #[trigger]
                call_requires(palette, (summary, ignored, active)),
        ensures
            match entry_in_row(self.entries@, self.matches@, index as int) {
                Some(entry) => {
                    &&& row is Some
                    &&& row->0.selected == selected
                    &&& row->0.name@ == entry.name@
                    &&& row->0.positions@ == self.matches@[index as int].positions@
                    &&& row->0.icon == row_icon(entry@, self.active_path.deep_view(), *settings)
                    &&& row->0.show_icons == self.show_icons
                    &&& if entry.is_dir {
                        row->0.icon_color == Color::Muted
                    } else {
                        exists|summary: Option<DiagnosticSummary>| #[trigger]
                            call_ensures(diagnostics, (self.worktree_id, &entry.path), summary)
                                && row->0.icon_color == severity_color(
                                match summary {
                                    Some(summary) => severity(summary, settings.show_diagnostics),
                                    None => None,
                                },
                            )
                    }
                    &&& call_ensures(
                        palette,
                        (
                            shown_summary(entry@, settings.git_status),
                            entry.is_ignored,
                            !entry.is_dir && self.active_path.deep_view() == Some(entry.path@),
                        ),
                        row->0.label_color,
                    )
                },
                None => row is None,
            },
    {
        let entry: &BreadcrumbDirectoryEntry = match self.entry_at(index) {
            Some(entry) => entry,
            None => {
                return None;
            },
        };
        let leads_to_active_path: bool = entry.is_dir && match &self.active_path {
            Some(active_path) => active_path.starts_with(&entry.path),
            None => false,
        };
        let is_active_file: bool = !entry.is_dir && match &self.active_path {
            Some(active_path) => active_path.same(&entry.path),
            None => false,
        };
        let icon: EntryIcon = match breadcrumb_entry_icon_source(
            entry.is_dir,
            settings.file_icons,
            settings.folder_icons,
        ) {
            BreadcrumbEntryIconSource::File => EntryIcon::File,
            BreadcrumbEntryIconSource::Folder => EntryIcon::Folder { open: leads_to_active_path },
            BreadcrumbEntryIconSource::Chevron => EntryIcon::Chevron,
            BreadcrumbEntryIconSource::NoIcon => EntryIcon::NoIcon,
        };
        let marked: Option<DiagnosticSeverity> = self.row_diagnostic_severity(
            entry,
            settings.show_diagnostics,
            diagnostics,
        );
        let label_color: Color = breadcrumb_entry_label_color(
            entry,
            settings.git_status,
            is_active_file,
            palette,
        );
        let positions: Vec<usize> = self.matches[index].positions.clone();
        assert(positions@ =~= self.matches@[index as int].positions@);
        Some(
            DirectoryRow {
                selected,
                name: entry.name.clone(),
                positions,
                icon,
                icon_color: breadcrumb_entry_icon_color(marked),
                label_color,
                show_icons: self.show_icons,
            },
        )
    }
}

/// Opens the dropdown of a directory; nothing opens once its worktree is gone.
pub fn open_directory_menu<
    F: Fn(&RelPath, bool, &RelPath, bool, ProjectPanelSortMode, ProjectPanelSortOrder) -> bool,
>(
    worktree_id: WorktreeId,
    path: RelPath,
    active_path: Option<RelPath>,
    source: Option<&[WorktreeEntry]>,
    settings: &BreadcrumbDirectoryListingSettings,
    compare_by: F,
) -> (menu: Option<BreadcrumbDirectoryDelegate>)
    requires
        compares_paths(compare_by),
    ensures
        match source {
            Some(source) => {
                &&& menu is Some
                &&& menu->0.worktree_id == worktree_id
                &&& menu->0.current_path == path
                &&& menu->0.active_path == active_path
                &&& menu->0.query@.len() == 0
                &&& menu->0.lists_source(source@, *settings, compare_by)
                &&& menu->0.shows_all(0)
            },
            None => menu is None,
        },
{
    if source.is_none() {
        return None;
    }
    Some(
        BreadcrumbDirectoryDelegate::picker(
            worktree_id,
            path,
            active_path,
            source,
            settings,
            compare_by,
        ),
    )
}

#[derive(Clone, Copy, Debug, PartialEq, Eq, Structural)]
pub enum MouseButton {
    Left,
    Right,
    Middle,
    Other,
}

/// Whether a mouse-down on a directory segment reveals it in the project panel. Mouse-down, not
/// click: the popover's dismiss handler swallows the second click.
pub fn reveals_in_project_panel(button: MouseButton, click_count: usize) -> (reveals: bool)
    ensures
        reveals == (button == MouseButton::Left && click_count >= 2),
{
    button == MouseButton::Left && click_count >= 2
}

/// What the project is told about its panel.
#[derive(Clone, Copy, Debug, PartialEq, Eq, Structural)]
pub enum ProjectEvent {
    ActivateProjectPanel,
    /// The entry, by its id.
    RevealInProjectPanel(u64),
}

/// What revealing a directory tells the project, in this order; nothing where the directory is not
/// an entry of it.
pub fn reveal_breadcrumb_directory_in_project_panel(entry_id: Option<u64>) -> (events: Vec<
    ProjectEvent,
>)
    ensures
        events@ == match entry_id {
            Some(entry_id) => seq![
                ProjectEvent::ActivateProjectPanel,
                ProjectEvent::RevealInProjectPanel(entry_id),
            ],
            None => Seq::empty(),
        },
{
    let mut events: Vec<ProjectEvent> = Vec::new();
    if let Some(entry_id) = entry_id {
        events.push(ProjectEvent::ActivateProjectPanel);
        events.push(ProjectEvent::RevealInProjectPanel(entry_id));
    }
    events
}

/// A descent never leaves the chain of only children, and is never longer than it may get; where it
/// stops short, what it reached does not hold a directory alone.
pub proof fn law_descent_stops_where_the_chain_ends<F: Fn(&RelPath) -> Vec<(RelPath, bool)>>(
    child_entries: F,
    chain: Seq<RelPath>,
    listings: Seq<Vec<(RelPath, bool)>>,
)
    requires
        is_descent(child_entries, chain, listings),
    ensures
        1 <= chain.len() <= MAX_BREADCRUMB_DESCENT_DEPTH + 1,
        chain.len() <= MAX_BREADCRUMB_DESCENT_DEPTH ==> listings.len() == chain.len()
            && call_ensures(child_entries, (&chain.last(),), listings.last())
            && only_child_directory(listings.last()@) is None,
{
    if chain.len() <= MAX_BREADCRUMB_DESCENT_DEPTH {
        assert(listings[chain.len() - 1] == listings.last());
    }
}

/// `path` is a directory among the entries that the settings let be listed.
pub open spec fn is_listed_directory(
    settings: BreadcrumbDirectoryListingSettings,
    entries: Seq<WorktreeEntry>,
    path: Seq<Seq<char>>,
) -> bool {
    exists|i: int|
        0 <= i < entries.len() && is_listed(settings, #[trigger] entries[i]) && entries[i].is_dir
            && entries[i].path@ == path
}

proof fn lemma_only_listed_directory(
    settings: BreadcrumbDirectoryListingSettings,
    entries: Seq<WorktreeEntry>,
)
    requires
        entries.len() <= usize::MAX,
    ensures
        only_listed_directory(settings, entries) matches Some(path) ==> is_listed_directory(
            settings,
            entries,
            path,
        ),
{
    let keep = listed_at(settings, entries);
    let listing = indices_where(entries.len(), keep);
    lemma_indices_where(entries.len(), keep);
    if only_listed_directory(settings, entries) is Some {
        let i = listing[0] as int;
        assert(keep(i));
        assert(is_listed(settings, entries[i]));
    }
}

/// A descent through the children that the settings let be listed never enters a directory that
/// they hide: each directory it comes to is listed in the one before. `entries_of` are the entries
/// of a directory.
pub proof fn law_a_descent_only_enters_listed_directories<
    F: Fn(&RelPath) -> Vec<(RelPath, bool)>,
>(
    settings: BreadcrumbDirectoryListingSettings,
    child_entries: F,
    entries_of: spec_fn(Seq<Seq<char>>) -> Seq<WorktreeEntry>,
    chain: Seq<RelPath>,
    listings: Seq<Vec<(RelPath, bool)>>,
    k: int,
)
    requires
        forall|path: Seq<Seq<char>>| (#[trigger] entries_of(path)).len() <= usize::MAX,
        forall|path: &RelPath, children: Vec<(RelPath, bool)>| #[trigger]
            call_ensures(child_entries, (path,), children) ==> children.deep_view()
                == first_children(settings, entries_of(path@)),
        is_descent(child_entries, chain, listings),
        0 < k < chain.len(),
    ensures
        is_listed_directory(settings, entries_of(chain[k - 1]@), chain[k]@),
{
    let entries = entries_of(chain[k - 1]@);
    let children = listings[k - 1];
    assert(call_ensures(child_entries, (&chain[k - 1],), children));
    assert(children.deep_view() == first_children(settings, entries));
    assert(only_child_directory(children@) == Some(chain[k]));
    assert(children.deep_view()[0] == children@[0].deep_view());
    lemma_only_listed_directory(settings, entries);
}

/// Choosing a directory never folds into one that the settings hide: each directory on the way is
/// listed in the one before.
pub proof fn law_folding_only_enters_listed_directories<S: Fn(&RelPath) -> Vec<WorktreeEntry>>(
    settings: BreadcrumbDirectoryListingSettings,
    child_entries: S,
    chain: Seq<RelPath>,
    folders: Seq<Vec<WorktreeEntry>>,
    k: int,
)
    requires
        is_fold(settings, child_entries, chain, folders),
        0 < k < chain.len(),
        folders[k - 1]@.len() <= usize::MAX,
    ensures
        call_ensures(child_entries, (&chain[k - 1],), folders[k - 1]),
        is_listed_directory(settings, folders[k - 1]@, chain[k]@),
{
    lemma_only_listed_directory(settings, folders[k - 1]@);
}

/// The rows of a directory's entries are known by their positions.
pub proof fn law_entry_rows_are_known_by_position(entries: Seq<DirectoryEntryView>)
    requires
        entries.len() <= usize::MAX,
    ensures
        entry_candidates(entries).len() == entries.len(),
        ids_are_indices(entry_candidates(entries)),
{
}

/// The entry on the way to the active file is listed under an empty query even past the cap, and
/// selected.
pub proof fn law_the_active_entry_is_listed_and_selected(
    entries: Seq<DirectoryEntryView>,
    active_path: Seq<Seq<char>>,
    index: int,
)
    requires
        0 <= index < entries.len() <= usize::MAX,
        entries[index].path.is_prefix_of(active_path),
    ensures
        ({
            let matches = unqueried_matches(
                entries,
                entry_candidates(entries),
                Some(active_path),
            );
            let selected = active_selection(entries, matches, active_path);
            &&& matches.len() <= MAX_BREADCRUMB_MENU_ENTRIES
            &&& selected < matches.len()
            &&& matches[selected as int].candidate_id < entries.len()
            &&& entries[matches[selected as int].candidate_id as int].path.is_prefix_of(active_path)
        }),
{
    let candidates = entry_candidates(entries);
    let keep = entry_leads_to(entries, active_path);
    lemma_first_where(entries.len(), keep, 0);
    assert(keep(index));
    let id = first_where(entries.len(), keep, 0);
    law_capped_listing_keeps_the_current_row(
        candidates,
        id,
        MAX_BREADCRUMB_MENU_ENTRIES as nat,
    );
    let shown = capped_candidates(candidates, id, MAX_BREADCRUMB_MENU_ENTRIES as nat);
    let matches = unqueried_matches(entries, candidates, Some(active_path));
    let leads = match_leads_to(entries, matches, active_path);
    let r = choose|r: int| 0 <= r < shown.len() && shown[r] == candidates[id->0 as int];
    assert(matches[r].candidate_id == shown[r].id);
    assert(leads(r));
    lemma_first_where(matches.len(), leads, 0);
}

} // verus!
