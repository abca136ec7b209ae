//! How directories are listed. The bar always follows the project panel.

use vstd::prelude::*;

verus! {

#[derive(Clone, Copy, Debug, PartialEq, Eq, Structural)]
pub enum ProjectPanelSortMode {
    DirectoriesFirst,
    Mixed,
    FilesFirst,
}

#[derive(Clone, Copy, Debug, PartialEq, Eq, Structural)]
pub enum ProjectPanelSortOrder {
    Default,
    Upper,
    Lower,
    Unicode,
}

/// Which diagnostics mark a file.
#[derive(Clone, Copy, Debug, PartialEq, Eq, Structural)]
pub enum ShowDiagnostics {
    Off,
    Errors,
    All,
}

/// What the settings files say about the project panel; a setting that none of them mentions is
/// missing.
#[derive(Clone, Copy, Debug, PartialEq, Eq, Structural)]
pub struct ProjectPanelSettingsContent {
    pub sort_mode: Option<ProjectPanelSortMode>,
    pub sort_order: Option<ProjectPanelSortOrder>,
    pub hide_gitignore: Option<bool>,
    pub hide_hidden: Option<bool>,
    pub file_icons: Option<bool>,
    pub folder_icons: Option<bool>,
    pub git_status: Option<bool>,
    pub show_diagnostics: Option<ShowDiagnostics>,
    pub diagnostic_badges: Option<bool>,
    pub auto_fold_dirs: Option<bool>,
}

/// What the settings files say about git.
#[derive(Clone, Copy, Debug, PartialEq, Eq, Structural)]
pub struct GitSettingsContent {
    /// Whether git status is shown anywhere.
    pub git_status_enabled: Option<bool>,
}

/// What the settings files say.
#[derive(Clone, Copy, Debug, PartialEq, Eq, Structural)]
pub struct SettingsContent {
    pub project_panel: Option<ProjectPanelSettingsContent>,
    pub git: Option<GitSettingsContent>,
}

impl SettingsContent {
    /// No setting that the listing reads is missing, as under the default settings file. Whether
    /// git status is enabled is only read where the panel shows it.
    pub open spec fn is_complete(self) -> bool {
        &&& self.project_panel matches Some(panel) && {
            &&& panel.sort_mode is Some
            &&& panel.sort_order is Some
            &&& panel.hide_gitignore is Some
            &&& panel.hide_hidden is Some
            &&& panel.file_icons is Some
            &&& panel.folder_icons is Some
            &&& panel.git_status is Some
            &&& panel.show_diagnostics is Some
            &&& panel.diagnostic_badges is Some
            &&& panel.auto_fold_dirs is Some
            &&& panel.git_status->0 ==> self.git is Some && self.git->0.git_status_enabled is Some
        }
    }
}

/// Deliberately exposes no breadcrumb-specific overrides; the bar always follows the panel.
#[derive(Clone, Copy, Debug, PartialEq, Eq, Structural)]
pub struct BreadcrumbDirectoryListingSettings {
    pub sort_mode: ProjectPanelSortMode,
    pub sort_order: ProjectPanelSortOrder,
    pub hide_gitignore: bool,
    pub hide_hidden: bool,
    pub file_icons: bool,
    pub folder_icons: bool,
    pub git_status: bool,
    pub show_diagnostics: ShowDiagnostics,
    pub diagnostic_badges: bool,
    pub auto_fold_dirs: bool,
}

impl BreadcrumbDirectoryListingSettings {
    pub fn from_settings(content: &SettingsContent) -> (settings:
        BreadcrumbDirectoryListingSettings)
        requires
            content.is_complete(),
        ensures
            ({
                let panel = content.project_panel->0;
                settings == BreadcrumbDirectoryListingSettings {
                    sort_mode: panel.sort_mode->0,
                    sort_order: panel.sort_order->0,
                    hide_gitignore: panel.hide_gitignore->0,
                    hide_hidden: panel.hide_hidden->0,
                    file_icons: panel.file_icons->0,
                    folder_icons: panel.folder_icons->0,
                    git_status: panel.git_status->0 && content.git->0.git_status_enabled->0,
                    show_diagnostics: panel.show_diagnostics->0,
                    diagnostic_badges: panel.diagnostic_badges->0,
                    auto_fold_dirs: panel.auto_fold_dirs->0,
                }
            }),
    {
        let panel: ProjectPanelSettingsContent = content.project_panel.unwrap();
        BreadcrumbDirectoryListingSettings {
            sort_mode: panel.sort_mode.unwrap(),
            sort_order: panel.sort_order.unwrap(),
            hide_gitignore: panel.hide_gitignore.unwrap(),
            hide_hidden: panel.hide_hidden.unwrap(),
            file_icons: panel.file_icons.unwrap(),
            folder_icons: panel.folder_icons.unwrap(),
            git_status: panel.git_status.unwrap()
                && content.git.unwrap().git_status_enabled.unwrap(),
            show_diagnostics: panel.show_diagnostics.unwrap(),
            diagnostic_badges: panel.diagnostic_badges.unwrap(),
            auto_fold_dirs: panel.auto_fold_dirs.unwrap(),
        }
    }
}

} // verus!
