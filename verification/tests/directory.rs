use breadcrumbs::delegate::MatchUpdate;
use breadcrumbs::directory::{
    breadcrumb_directory_children, breadcrumb_entry_icon_source, breadcrumb_entry_label_color,
    descend_single_child_directories, open_directory_menu,
    reveal_breadcrumb_directory_in_project_panel,
    reveals_in_project_panel, BreadcrumbDirectoryDelegate, BreadcrumbEntryIconSource,
    DirectoryAction, EntryIcon, MouseButton, ProjectEvent, MAX_BREADCRUMB_DESCENT_DEPTH,
};
use breadcrumbs::entries::{breadcrumb_directory_entries, BreadcrumbDirectoryEntry, WorktreeEntry};
use breadcrumbs::picker::{StringMatch, MAX_BREADCRUMB_MENU_ENTRIES};
use breadcrumbs::rel_path::RelPath;
use breadcrumbs::settings::{
    BreadcrumbDirectoryListingSettings, ProjectPanelSortMode, ProjectPanelSortOrder,
    ShowDiagnostics,
};
use breadcrumbs::status::{Color, DiagnosticSeverity, DiagnosticSummary, GitSummary};
use breadcrumbs::target::WorktreeId;
use std::collections::HashMap;

fn rel_path(text: &str) -> RelPath {
    RelPath::from_unix_str(text).unwrap()
}

fn settings() -> BreadcrumbDirectoryListingSettings {
    BreadcrumbDirectoryListingSettings {
        sort_mode: ProjectPanelSortMode::DirectoriesFirst,
        sort_order: ProjectPanelSortOrder::Default,
        hide_gitignore: false,
        hide_hidden: false,
        file_icons: true,
        folder_icons: true,
        git_status: true,
        show_diagnostics: ShowDiagnostics::All,
        diagnostic_badges: false,
        auto_fold_dirs: true,
    }
}

fn entry(path: &str, is_dir: bool) -> WorktreeEntry {
    WorktreeEntry {
        path: rel_path(path),
        is_dir,
        is_ignored: false,
        is_hidden: false,
        git_summary: GitSummary::default(),
    }
}

/// What a path is sorted by.
fn sort_key(
    path: &RelPath,
    is_file: bool,
    sort_mode: ProjectPanelSortMode,
    sort_order: ProjectPanelSortOrder,
) -> (bool, String) {
    let text = path.as_unix_str();
    (
        match sort_mode {
            ProjectPanelSortMode::DirectoriesFirst => is_file,
            ProjectPanelSortMode::Mixed => false,
            ProjectPanelSortMode::FilesFirst => !is_file,
        },
        match sort_order {
            ProjectPanelSortOrder::Unicode => text,
            _ => text.to_lowercase(),
        },
    )
}

fn panel_order(
    a: &RelPath,
    a_is_file: bool,
    b: &RelPath,
    b_is_file: bool,
    sort_mode: ProjectPanelSortMode,
    sort_order: ProjectPanelSortOrder,
) -> bool {
    sort_key(a, a_is_file, sort_mode, sort_order) <= sort_key(b, b_is_file, sort_mode, sort_order)
}

fn names(entries: &[BreadcrumbDirectoryEntry]) -> Vec<&str> {
    entries.iter().map(|entry| entry.name.as_str()).collect()
}

fn open(
    current_path: &str,
    active_path: Option<&str>,
    source: &[WorktreeEntry],
) -> BreadcrumbDirectoryDelegate {
    BreadcrumbDirectoryDelegate::picker(
        WorktreeId(0),
        rel_path(current_path),
        active_path.map(rel_path),
        Some(source),
        &settings(),
        panel_order,
    )
}

fn row_names(delegate: &BreadcrumbDirectoryDelegate) -> Vec<&str> {
    (0..delegate.match_count())
        .map(|index| delegate.entry_at(index).unwrap().name.as_str())
        .collect()
}

#[test]
fn test_breadcrumb_directory_entries_sorts_like_project_panel() {
    let source = [
        entry("banana.txt", false),
        entry("Cherry.txt", false),
        entry("Apple", true),
    ];
    let entries = breadcrumb_directory_entries(&settings(), &source, panel_order);
    assert_eq!(names(&entries), vec!["Apple", "banana.txt", "Cherry.txt"]);

    let files_first = BreadcrumbDirectoryListingSettings {
        sort_mode: ProjectPanelSortMode::FilesFirst,
        sort_order: ProjectPanelSortOrder::Unicode,
        ..settings()
    };
    let entries = breadcrumb_directory_entries(&files_first, &source, panel_order);
    assert_eq!(names(&entries), vec!["Cherry.txt", "banana.txt", "Apple"]);
}

#[test]
fn test_breadcrumb_directory_entries_honors_hide_gitignore_setting() {
    let mut ignored = entry("ignored.txt", false);
    ignored.is_ignored = true;
    let source = [entry(".gitignore", false), ignored, entry("kept.txt", false)];
    let entries = breadcrumb_directory_entries(&settings(), &source, panel_order);
    let ignored_entry = entries
        .iter()
        .find(|entry| entry.name == "ignored.txt")
        .expect("gitignored entry is shown, not hidden, by default");
    assert!(ignored_entry.is_ignored);

    let hiding = BreadcrumbDirectoryListingSettings {
        hide_gitignore: true,
        ..settings()
    };
    let entries = breadcrumb_directory_entries(&hiding, &source, panel_order);
    assert_eq!(
        names(&entries),
        vec![".gitignore", "kept.txt"],
        "hide_gitignore should drop the ignored entry entirely, not just dim it",
    );
}

#[test]
fn test_breadcrumb_directory_entries_honors_hide_hidden_setting() {
    let mut hidden = entry(".hidden", false);
    hidden.is_hidden = true;
    let source = [hidden, entry("kept.txt", false)];
    let entries = breadcrumb_directory_entries(&settings(), &source, panel_order);
    assert_eq!(
        names(&entries),
        vec![".hidden", "kept.txt"],
        "hidden entry is shown by default"
    );

    let hiding = BreadcrumbDirectoryListingSettings {
        hide_hidden: true,
        ..settings()
    };
    let entries = breadcrumb_directory_entries(&hiding, &source, panel_order);
    assert_eq!(
        names(&entries),
        vec!["kept.txt"],
        "hide_hidden should drop the hidden entry entirely, not just dim it",
    );
}

#[test]
fn equal_entries_keep_their_order_and_the_root_is_left_out() {
    let source = [
        entry("b", false),
        entry("", true),
        entry("a", false),
        entry("d", false),
        entry("c", false),
    ];
    let entries = breadcrumb_directory_entries(&settings(), &source, |_, _, _, _, _, _| true);
    assert_eq!(names(&entries), vec!["b", "a", "d", "c"]);
}

#[test]
fn a_long_listing_is_sorted() {
    let source: Vec<WorktreeEntry> = (0..300)
        .map(|index| entry(&format!("file_{:04}", (index * 7919) % 300), false))
        .collect();
    let entries = breadcrumb_directory_entries(&settings(), &source, panel_order);
    let expected: Vec<String> = (0..300).map(|index| format!("file_{index:04}")).collect();
    assert_eq!(names(&entries), expected);
}

fn test_entry(git_summary: GitSummary) -> BreadcrumbDirectoryEntry {
    BreadcrumbDirectoryEntry {
        name: "file.txt".to_string(),
        path: rel_path("file.txt"),
        is_dir: false,
        is_ignored: false,
        git_summary,
    }
}

fn untracked() -> GitSummary {
    GitSummary {
        untracked: 1,
        count: 1,
        ..GitSummary::default()
    }
}

fn palette(summary: GitSummary, ignored: bool, active: bool) -> Color {
    if summary.untracked > 0 {
        Color::Created
    } else if ignored {
        Color::Ignored
    } else if active {
        Color::Default
    } else {
        Color::Muted
    }
}

#[test]
fn test_breadcrumb_entry_label_color_honors_git_status_setting() {
    let entry = test_entry(untracked());

    assert_eq!(
        breadcrumb_entry_label_color(&entry, true, false, palette),
        Color::Created
    );

    assert_eq!(
        breadcrumb_entry_label_color(&entry, false, false, palette),
        Color::Muted
    );
}

#[test]
fn test_breadcrumb_entry_icon_source() {
    assert_eq!(
        breadcrumb_entry_icon_source(true, true, true),
        BreadcrumbEntryIconSource::Folder
    );
    assert_eq!(
        breadcrumb_entry_icon_source(true, false, true),
        BreadcrumbEntryIconSource::Folder
    );
    assert_eq!(
        breadcrumb_entry_icon_source(true, true, false),
        BreadcrumbEntryIconSource::Chevron
    );
    assert_eq!(
        breadcrumb_entry_icon_source(true, false, false),
        BreadcrumbEntryIconSource::Chevron
    );
    assert_eq!(
        breadcrumb_entry_icon_source(false, true, true),
        BreadcrumbEntryIconSource::File
    );
    assert_eq!(
        breadcrumb_entry_icon_source(false, true, false),
        BreadcrumbEntryIconSource::File
    );
    assert_eq!(
        breadcrumb_entry_icon_source(false, false, true),
        BreadcrumbEntryIconSource::NoIcon
    );
    assert_eq!(
        breadcrumb_entry_icon_source(false, false, false),
        BreadcrumbEntryIconSource::NoIcon
    );
}

fn children_in<'a>(
    tree: &'a HashMap<&'static str, Vec<(&'static str, bool)>>,
) -> impl Fn(&RelPath) -> Vec<(RelPath, bool)> + 'a {
    move |path| {
        tree.get(path.as_unix_str().as_str())
            .into_iter()
            .flatten()
            .map(|(child, is_dir)| (rel_path(child), *is_dir))
            .collect()
    }
}

#[test]
fn test_descend_single_child_directories_stops_at_fork() {
    let tree: HashMap<&str, Vec<(&str, bool)>> = HashMap::from_iter([
        ("a", vec![("a/b", true)]),
        ("a/b", vec![("a/b/c", true), ("a/b/d", true)]),
    ]);

    let result = descend_single_child_directories(rel_path("a"), children_in(&tree));

    assert_eq!(result, rel_path("a/b"));
}

#[test]
fn test_descend_single_child_directories_stops_short_of_lone_file() {
    let tree: HashMap<&str, Vec<(&str, bool)>> =
        HashMap::from_iter([("repository", vec![("repository/Repositories.kt", false)])]);

    let result = descend_single_child_directories(rel_path("repository"), children_in(&tree));

    assert_eq!(result, rel_path("repository"));
}

#[test]
fn test_descend_single_child_directories_caps_depth() {
    // Simulates a symlink cycle; the cap must stop the walk instead of looping forever.
    let result = descend_single_child_directories(rel_path("a"), |path| {
        vec![(rel_path(&format!("{}/x", path.as_unix_str())), true)]
    });

    assert_eq!(
        result.as_unix_str().matches('/').count(),
        MAX_BREADCRUMB_DESCENT_DEPTH
    );
}

#[test]
fn test_descend_single_child_directories_stops_at_empty_directory() {
    let result = descend_single_child_directories(rel_path("empty"), |_| Vec::new());

    assert_eq!(result, rel_path("empty"));
}

#[test]
fn telling_a_single_child_takes_two_listed_ones() {
    let mut hidden = entry("a/.hidden", true);
    hidden.is_hidden = true;
    let source = [
        hidden,
        entry("a/b", true),
        entry("a/c.txt", false),
        entry("a/d.txt", false),
    ];
    let hiding = BreadcrumbDirectoryListingSettings {
        hide_hidden: true,
        ..settings()
    };
    assert_eq!(
        breadcrumb_directory_children(&hiding, &source),
        vec![(rel_path("a/b"), true), (rel_path("a/c.txt"), false)]
    );
    assert_eq!(
        breadcrumb_directory_children(&settings(), &source),
        vec![(rel_path("a/.hidden"), true), (rel_path("a/b"), true)]
    );
    assert_eq!(
        breadcrumb_directory_children(&hiding, &source[..2]),
        vec![(rel_path("a/b"), true)]
    );
}

fn entries_in<'a>(
    tree: &'a HashMap<&'static str, Vec<(&'static str, bool)>>,
) -> impl Fn(&RelPath) -> Vec<WorktreeEntry> + 'a {
    move |path| {
        tree.get(path.as_unix_str().as_str())
            .into_iter()
            .flatten()
            .map(|(child, is_dir)| entry(child, *is_dir))
            .collect()
    }
}

fn confirm_row(
    delegate: &mut BreadcrumbDirectoryDelegate,
    name: &str,
    auto_fold_dirs: bool,
    tree: &HashMap<&'static str, Vec<(&'static str, bool)>>,
) -> DirectoryAction {
    let index = row_names(delegate)
        .iter()
        .position(|row| *row == name)
        .expect("row is listed");
    delegate.set_selected_index(index);
    let settings = BreadcrumbDirectoryListingSettings {
        auto_fold_dirs,
        ..settings()
    };
    delegate.confirm(true, &settings, entries_in(tree))
}

#[test]
fn test_breadcrumb_directory_browser_choose_descends_single_child_directories() {
    let tree = HashMap::from_iter([("a", vec![("a/b", true)]), ("a/b", vec![("a/b/c.txt", false)])]);
    let mut delegate = open("", None, &[entry("a", true)]);
    assert_eq!(
        confirm_row(&mut delegate, "a", true, &tree),
        DirectoryAction::Navigate {
            worktree_id: WorktreeId(0),
            path: rel_path("a/b"),
        }
    );
}

#[test]
fn test_breadcrumb_directory_browser_choose_respects_auto_fold_dirs_off() {
    let tree = HashMap::from_iter([("a", vec![("a/b", true)]), ("a/b", vec![("a/b/c.txt", false)])]);
    let mut delegate = open("", None, &[entry("a", true)]);
    assert_eq!(
        confirm_row(&mut delegate, "a", false, &tree),
        DirectoryAction::Navigate {
            worktree_id: WorktreeId(0),
            path: rel_path("a"),
        },
        "with auto_fold_dirs off, confirm must land on the chosen directory itself"
    );
}

#[test]
fn test_auto_fold_does_not_descend_into_a_directory_the_settings_hide() {
    let hiding = BreadcrumbDirectoryListingSettings {
        hide_gitignore: true,
        ..settings()
    };
    let listing = |path: &RelPath| {
        let mut ignored = entry("a/b", true);
        ignored.is_ignored = true;
        if path.as_unix_str() == "a" {
            vec![ignored]
        } else {
            vec![entry("a/b/c.txt", false)]
        }
    };
    let mut delegate = open("", None, &[entry("a", true)]);
    delegate.set_selected_index(0);
    assert_eq!(
        delegate.confirm(true, &settings(), listing),
        DirectoryAction::Navigate {
            worktree_id: WorktreeId(0),
            path: rel_path("a/b"),
        },
        "nothing is hidden, so a folds into b"
    );
    assert_eq!(
        delegate.confirm(true, &hiding, listing),
        DirectoryAction::Navigate {
            worktree_id: WorktreeId(0),
            path: rel_path("a"),
        },
        "b is hidden, so the listing shows a as a leaf"
    );
}

#[test]
fn choosing_a_file_opens_it_and_choosing_nothing_does_nothing() {
    let tree = HashMap::new();
    let mut delegate = open("", None, &[entry("a", true), entry("b.txt", false)]);
    assert_eq!(
        confirm_row(&mut delegate, "b.txt", true, &tree),
        DirectoryAction::OpenFile {
            worktree_id: WorktreeId(0),
            path: rel_path("b.txt"),
        }
    );
    delegate.set_selected_index(7);
    assert_eq!(
        delegate.confirm(true, &settings(), entries_in(&tree)),
        DirectoryAction::Nothing
    );
    delegate.set_selected_index(0);
    assert_eq!(
        delegate.confirm(false, &settings(), entries_in(&tree)),
        DirectoryAction::Nothing,
        "a directory of a worktree that is gone leads nowhere"
    );
}

#[test]
fn test_select_parent_and_child_only_drill_with_an_empty_query() {
    let tree = HashMap::new();
    let mut delegate = open(
        "alpha",
        None,
        &[entry("alpha/one.txt", false), entry("alpha/beta", true)],
    );
    assert_eq!(
        delegate.entry_at(0).map(|entry| entry.name.as_str()),
        Some("beta"),
        "directories sort before files"
    );
    assert_eq!(
        delegate.select_child(true, &settings(), entries_in(&tree)),
        Some(DirectoryAction::Navigate {
            worktree_id: WorktreeId(0),
            path: rel_path("alpha/beta"),
        }),
        "an empty query lets right drill into the selected directory"
    );
    assert_eq!(delegate.select_parent(), Some((WorktreeId(0), RelPath::empty())));

    delegate.set_selected_index(1);
    assert_eq!(
        delegate.select_child(true, &settings(), entries_in(&tree)),
        None,
        "a file has nothing to drill into"
    );
    delegate.set_selected_index(0);

    assert_eq!(delegate.update_matches("beta".to_string()), MatchUpdate::Filter);
    assert_eq!(delegate.select_child(true, &settings(), entries_in(&tree)), None);
    assert_eq!(delegate.select_parent(), None);
}

#[test]
fn test_select_parent_with_an_empty_query_steps_out_to_the_parent_directory() {
    let delegate = open("alpha/beta", None, &[entry("alpha/beta/child.txt", false)]);
    assert_eq!(
        delegate.select_parent(),
        Some((WorktreeId(0), rel_path("alpha"))),
        "left steps out to the parent of the directory the picker opened at"
    );
    let delegate = open("", None, &[]);
    assert_eq!(delegate.select_parent(), None, "the root has no parent");
}

#[test]
fn test_update_matches_does_not_relist_entries() {
    let mut delegate = open("alpha", None, &[entry("alpha/one.txt", false)]);
    let entries_before = delegate.entries.len();
    assert_eq!(entries_before, 1, "just one.txt at the start");
    delegate.update_matches("one".to_string());
    assert_eq!(delegate.entries.len(), entries_before);
    assert_eq!(delegate.candidates.len(), entries_before);
}

#[test]
fn test_reload_entries_clears_stale_matches() {
    let source = [entry("alpha/one.txt", false), entry("alpha/two.txt", false)];
    let mut delegate = open("alpha", None, &source);
    assert_eq!(delegate.update_matches("one".to_string()), MatchUpdate::Filter);
    delegate.apply_filtered_matches(vec![StringMatch {
        candidate_id: 0,
        string: "one.txt".to_string(),
        positions: vec![0, 1, 2],
    }]);
    assert_eq!(delegate.matches.len(), 1, "query narrows to one.txt");
    assert_eq!(delegate.selected_index(), 0);

    delegate.reload_entries(Some(&source), &settings(), panel_order);
    assert!(
        delegate.matches.is_empty(),
        "reload must drop matches whose candidate ids point into the entries just replaced"
    );
    assert_eq!(delegate.entries.len(), 2);
    assert_eq!(delegate.query, "one");

    delegate.reload_entries(None, &settings(), panel_order);
    assert!(delegate.entries.is_empty());
    assert!(delegate.candidates.is_empty());
    assert!(delegate.show_icons, "the column stays reserved");
}

#[test]
fn test_update_matches_caps_the_empty_query_display_and_keeps_the_active_entry() {
    let entry_count = MAX_BREADCRUMB_MENU_ENTRIES + 50;
    let source: Vec<WorktreeEntry> = (0..entry_count)
        .map(|index| entry(&format!("alpha/file_{index:04}.txt"), false))
        .collect();
    // The highest-numbered file sorts last, well past the cap.
    let active_path = format!("alpha/file_{:04}.txt", entry_count - 1);

    let delegate = open("alpha", Some(&active_path), &source);
    assert_eq!(
        delegate.matches.len(),
        MAX_BREADCRUMB_MENU_ENTRIES,
        "the empty-query display is capped the same way a typed filter is"
    );
    assert!(
        delegate
            .matches
            .iter()
            .any(|entry_match| delegate.entries[entry_match.candidate_id].path
                == rel_path(&active_path)),
        "the active entry stays among the displayed rows even though it sorts past the cap"
    );
    let selected = delegate
        .entry_at(delegate.selected_index())
        .expect("a row is selected");
    assert_eq!(
        selected.path,
        rel_path(&active_path),
        "the active entry is preselected"
    );
}

#[test]
fn the_directory_on_the_way_to_the_active_file_is_selected() {
    let source = [entry("alpha", true), entry("beta", true), entry("beta.txt", false)];
    let delegate = open("", Some("beta/gamma/file.txt"), &source);
    assert_eq!(row_names(&delegate), vec!["alpha", "beta", "beta.txt"]);
    assert_eq!(delegate.selected_index(), 1);
    let delegate = open("", Some("elsewhere.txt"), &source);
    assert_eq!(delegate.selected_index(), 0);
}

#[test]
fn test_row_diagnostic_severity_is_resolved_per_row_not_at_listing_time() {
    let delegate = open("", None, &[entry("dir", true), entry("flagged.txt", false)]);
    let flagged = delegate.entry_at(1).unwrap();
    assert_eq!(flagged.name, "flagged.txt");
    let clean = |_: WorktreeId, _: &RelPath| {
        Some(DiagnosticSummary { error_count: 0, warning_count: 0 })
    };
    let failing = |_: WorktreeId, path: &RelPath| {
        assert_eq!(path.as_unix_str(), "flagged.txt");
        Some(DiagnosticSummary { error_count: 1, warning_count: 0 })
    };
    assert_eq!(
        delegate.row_diagnostic_severity(flagged, ShowDiagnostics::All, clean),
        None,
        "nothing reported yet"
    );
    assert_eq!(
        delegate.row_diagnostic_severity(flagged, ShowDiagnostics::All, failing),
        Some(DiagnosticSeverity::Error),
    );
    assert_eq!(
        delegate.row_diagnostic_severity(flagged, ShowDiagnostics::Off, failing),
        None,
        "off suppresses diagnostics regardless of what is reported"
    );
    assert_eq!(
        delegate.row_diagnostic_severity(flagged, ShowDiagnostics::All, |_, _| None),
        None,
        "a project that is gone knows nothing"
    );
    let dir_entry = delegate.entry_at(0).unwrap();
    assert_eq!(
        delegate.row_diagnostic_severity(dir_entry, ShowDiagnostics::All, failing),
        None,
        "directories never carry a severity"
    );
}

#[test]
fn rows_show_icons_colors_and_the_match() {
    let mut flagged = entry("flagged.txt", false);
    flagged.git_summary = untracked();
    let source = [entry("dir", true), flagged, entry("other.txt", false)];
    let delegate = open("", Some("dir/inner/file.txt"), &source);
    let diagnostics = |_: WorktreeId, path: &RelPath| {
        Some(DiagnosticSummary {
            error_count: 0,
            warning_count: if path.as_unix_str() == "flagged.txt" { 2 } else { 0 },
        })
    };
    let row = delegate
        .render_match(0, true, &settings(), diagnostics, palette)
        .unwrap();
    assert!(row.selected);
    assert_eq!(row.name, "dir");
    assert_eq!(row.icon, EntryIcon::Folder { open: true });
    assert_eq!(row.icon_color, Color::Muted);
    assert_eq!(row.label_color, Color::Muted);
    assert!(row.show_icons);

    let row = delegate
        .render_match(1, false, &settings(), diagnostics, palette)
        .unwrap();
    assert!(!row.selected);
    assert_eq!(row.icon, EntryIcon::File);
    assert_eq!(row.icon_color, Color::Warning);
    assert_eq!(row.label_color, Color::Created);

    let plain = BreadcrumbDirectoryListingSettings {
        file_icons: false,
        folder_icons: false,
        git_status: false,
        ..settings()
    };
    let row = delegate
        .render_match(0, false, &plain, diagnostics, palette)
        .unwrap();
    assert_eq!(row.icon, EntryIcon::Chevron);
    let row = delegate
        .render_match(1, false, &plain, diagnostics, palette)
        .unwrap();
    assert_eq!(row.icon, EntryIcon::NoIcon);
    assert_eq!(row.label_color, Color::Muted);
    assert_eq!(
        delegate.render_match(9, false, &plain, diagnostics, palette),
        None
    );

    let mut active = open("", Some("other.txt"), &[entry("other.txt", false)]);
    active.update_matches("ot".to_string());
    active.apply_filtered_matches(vec![StringMatch {
        candidate_id: 0,
        string: "other.txt".to_string(),
        positions: vec![0, 1],
    }]);
    let row = active
        .render_match(0, true, &settings(), diagnostics, palette)
        .unwrap();
    assert_eq!(row.label_color, Color::Default, "the active file stands out");
    assert_eq!(row.positions, vec![0, 1]);
}

#[test]
fn an_empty_directory_says_so() {
    let delegate = open("", None, &[]);
    assert_eq!(delegate.placeholder_text(), "Search this folder…");
    assert_eq!(delegate.no_matches_text(), Some("Empty directory".to_string()));
    assert!(!delegate.show_icons);
    let delegate = open("", None, &[entry("a.txt", false)]);
    assert_eq!(delegate.no_matches_text(), Some("No matches".to_string()));
}

#[test]
fn test_revealing_a_breadcrumb_directory_emits_for_the_project_panel() {
    assert_eq!(
        reveal_breadcrumb_directory_in_project_panel(Some(12)),
        vec![
            ProjectEvent::ActivateProjectPanel,
            ProjectEvent::RevealInProjectPanel(12),
        ],
        "a closed panel has to open, not just have its selection moved"
    );
    assert_eq!(
        reveal_breadcrumb_directory_in_project_panel(None),
        vec![],
        "a path with no entry reveals nothing rather than panicking"
    );
    assert!(reveals_in_project_panel(MouseButton::Left, 2));
    assert!(reveals_in_project_panel(MouseButton::Left, 3));
    assert!(!reveals_in_project_panel(MouseButton::Left, 1));
    assert!(!reveals_in_project_panel(MouseButton::Right, 2));
}

#[test]
fn test_breadcrumb_directory_picker_navigates_from_the_keyboard() {
    let source = [entry("alpha", true), entry("beta", true)];
    let mut delegate = open("", None, &source);
    delegate.set_selected_index(delegate.selected_index() + 1);
    assert_eq!(
        delegate
            .entry_at(delegate.selected_index())
            .map(|entry| entry.name.as_str()),
        Some("beta"),
    );
    let action = delegate.confirm(true, &settings(), |_| vec![entry("beta/three.txt", false)]);
    assert_eq!(
        action,
        DirectoryAction::Navigate {
            worktree_id: WorktreeId(0),
            path: rel_path("beta"),
        },
        "confirming a directory row navigates the bar into it"
    );
}

#[test]
fn test_update_matches_reuses_cached_candidates() {
    let source = [entry("alpha/one.txt", false), entry("alpha/two.txt", false)];
    let mut delegate = open("alpha", None, &source);
    let before: Vec<usize> = delegate
        .candidates
        .iter()
        .map(|candidate| candidate.string.as_ptr() as usize)
        .collect();
    delegate.update_matches("one".to_string());
    delegate.update_matches("on".to_string());
    let after: Vec<usize> = delegate
        .candidates
        .iter()
        .map(|candidate| candidate.string.as_ptr() as usize)
        .collect();
    assert_eq!(
        before, after,
        "successive keystrokes must reuse the same candidate list, not rebuild it"
    );
}

#[test]
fn no_dropdown_opens_once_the_worktree_is_gone() {
    let source = [entry("src/main.rs", false), entry("src/lib.rs", false)];
    let menu = open_directory_menu(
        WorktreeId(3),
        rel_path("src"),
        Some(rel_path("src/main.rs")),
        Some(&source[..]),
        &settings(),
        panel_order,
    )
    .unwrap();
    assert_eq!(menu.worktree_id, WorktreeId(3));
    assert_eq!(menu.current_path, rel_path("src"));
    assert_eq!(row_names(&menu), vec!["lib.rs", "main.rs"]);
    assert_eq!(menu.selected_index(), 1);
    assert!(open_directory_menu(
        WorktreeId(3),
        rel_path("src"),
        None,
        None,
        &settings(),
        panel_order,
    )
    .is_none());
}
