use breadcrumbs::settings::{
    BreadcrumbDirectoryListingSettings, GitSettingsContent, ProjectPanelSettingsContent,
    ProjectPanelSortMode, ProjectPanelSortOrder, SettingsContent, ShowDiagnostics,
};
use breadcrumbs::status::{
    bar_file_icon_color, breadcrumb_diagnostic_severity, breadcrumb_entry_icon_color, Color,
    DiagnosticSeverity, DiagnosticSummary, GitSummary,
};

#[test]
fn test_breadcrumb_entry_icon_color_follows_diagnostic_severity() {
    assert_eq!(breadcrumb_entry_icon_color(None), Color::Muted);
    assert_eq!(
        breadcrumb_entry_icon_color(Some(DiagnosticSeverity::Warning)),
        Color::Warning
    );
    assert_eq!(
        breadcrumb_entry_icon_color(Some(DiagnosticSeverity::Error)),
        Color::Error
    );
}

#[test]
fn the_severity_follows_the_summary_and_the_setting() {
    let clean = DiagnosticSummary { error_count: 0, warning_count: 0 };
    let warnings = DiagnosticSummary { error_count: 0, warning_count: 3 };
    let both = DiagnosticSummary { error_count: 1, warning_count: 3 };
    let cases = [
        (clean, ShowDiagnostics::All, None),
        (warnings, ShowDiagnostics::All, Some(DiagnosticSeverity::Warning)),
        (warnings, ShowDiagnostics::Errors, None),
        (warnings, ShowDiagnostics::Off, None),
        (both, ShowDiagnostics::All, Some(DiagnosticSeverity::Error)),
        (both, ShowDiagnostics::Errors, Some(DiagnosticSeverity::Error)),
        (both, ShowDiagnostics::Off, None),
    ];
    for (summary, show, severity) in cases {
        assert_eq!(
            breadcrumb_diagnostic_severity(summary, show),
            severity,
            "{summary:?} {show:?}"
        );
    }
}

#[test]
fn the_bar_tints_the_file_icon_by_diagnostics_alone() {
    let both = DiagnosticSummary { error_count: 1, warning_count: 3 };
    assert_eq!(bar_file_icon_color(Some(both), ShowDiagnostics::All), Color::Error);
    assert_eq!(bar_file_icon_color(Some(both), ShowDiagnostics::Off), Color::Muted);
    assert_eq!(bar_file_icon_color(None, ShowDiagnostics::All), Color::Muted);
}

fn content(git_status: bool, git: Option<GitSettingsContent>) -> SettingsContent {
    SettingsContent {
        project_panel: Some(ProjectPanelSettingsContent {
            sort_mode: Some(ProjectPanelSortMode::FilesFirst),
            sort_order: Some(ProjectPanelSortOrder::Unicode),
            hide_gitignore: Some(true),
            hide_hidden: Some(false),
            file_icons: Some(true),
            folder_icons: Some(false),
            git_status: Some(git_status),
            show_diagnostics: Some(ShowDiagnostics::Errors),
            diagnostic_badges: Some(true),
            auto_fold_dirs: Some(false),
        }),
        git,
    }
}

#[test]
fn listing_settings_follow_the_panel_and_the_git_setting() {
    let enabled = Some(GitSettingsContent { git_status_enabled: Some(true) });
    let disabled = Some(GitSettingsContent { git_status_enabled: Some(false) });
    let settings = BreadcrumbDirectoryListingSettings::from_settings(&content(true, enabled));
    assert_eq!(
        settings,
        BreadcrumbDirectoryListingSettings {
            sort_mode: ProjectPanelSortMode::FilesFirst,
            sort_order: ProjectPanelSortOrder::Unicode,
            hide_gitignore: true,
            hide_hidden: false,
            file_icons: true,
            folder_icons: false,
            git_status: true,
            show_diagnostics: ShowDiagnostics::Errors,
            diagnostic_badges: true,
            auto_fold_dirs: false,
        }
    );
    let settings = BreadcrumbDirectoryListingSettings::from_settings(&content(true, disabled));
    assert!(!settings.git_status, "git status is off everywhere");
    let settings = BreadcrumbDirectoryListingSettings::from_settings(&content(false, None));
    assert!(!settings.git_status, "the panel does not show git status");
}

#[test]
fn git_has_nothing_to_say_by_default() {
    let summary = GitSummary::default();
    assert_eq!(summary.count, 0);
    assert_eq!(summary.untracked, 0);
    assert_eq!(summary.conflict, 0);
    assert_eq!(summary.index.added, 0);
    assert_eq!(summary.worktree.modified, 0);
}

#[test]
fn test_bar_file_icon_tint_does_not_require_diagnostic_badges() {
    let error = DiagnosticSummary { error_count: 1, warning_count: 0 };
    assert_eq!(
        bar_file_icon_color(Some(error), ShowDiagnostics::All),
        Color::Error,
        "the bar tint must not depend on the picker-only diagnostic_badges setting"
    );
}
