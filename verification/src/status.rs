//! What diagnostics and git say of a file, and the colors that show it.

use vstd::prelude::*;

use crate::settings::ShowDiagnostics;

verus! {

/// A color by what it means; the theme decides how it looks.
#[derive(Clone, Copy, Debug, PartialEq, Eq, Structural)]
pub enum Color {
    Default,
    Accent,
    Muted,
    Placeholder,
    Created,
    Modified,
    Deleted,
    Conflict,
    Ignored,
    Warning,
    Error,
}

#[derive(Clone, Copy, Debug, PartialEq, Eq, Structural)]
pub enum DiagnosticSeverity {
    Error,
    Warning,
}

/// How many diagnostics a file has.
#[derive(Clone, Copy, Debug, PartialEq, Eq, Structural)]
pub struct DiagnosticSummary {
    pub error_count: usize,
    pub warning_count: usize,
}

/// The severity that marks a file with these diagnostics.
pub open spec fn severity(
    summary: DiagnosticSummary,
    show_diagnostics: ShowDiagnostics,
) -> Option<DiagnosticSeverity> {
    if show_diagnostics == ShowDiagnostics::Off {
        None
    } else if summary.error_count > 0 {
        Some(DiagnosticSeverity::Error)
    } else if show_diagnostics == ShowDiagnostics::All && summary.warning_count > 0 {
        Some(DiagnosticSeverity::Warning)
    } else {
        None
    }
}

/// Reads the aggregated per-path summary rather than walking diagnostics, since this runs on every
/// render.
pub fn breadcrumb_diagnostic_severity(
    summary: DiagnosticSummary,
    show_diagnostics: ShowDiagnostics,
) -> (marked: Option<DiagnosticSeverity>)
    ensures
        marked == severity(summary, show_diagnostics),
{
    if show_diagnostics == ShowDiagnostics::Off {
        return None;
    }
    if summary.error_count > 0 {
        Some(DiagnosticSeverity::Error)
    } else if show_diagnostics == ShowDiagnostics::All && summary.warning_count > 0 {
        Some(DiagnosticSeverity::Warning)
    } else {
        None
    }
}

/// The color of an icon under that severity.
pub open spec fn severity_color(diagnostic_severity: Option<DiagnosticSeverity>) -> Color {
    match diagnostic_severity {
        None => Color::Muted,
        Some(DiagnosticSeverity::Warning) => Color::Warning,
        Some(DiagnosticSeverity::Error) => Color::Error,
    }
}

pub fn breadcrumb_entry_icon_color(diagnostic_severity: Option<DiagnosticSeverity>) -> (color:
    Color)
    ensures
        color == severity_color(diagnostic_severity),
{
    match diagnostic_severity {
        None => Color::Muted,
        Some(DiagnosticSeverity::Warning) => Color::Warning,
        Some(DiagnosticSeverity::Error) => Color::Error,
    }
}

/// The color of the bar's file icon.
pub open spec fn file_icon_color(
    summary: Option<DiagnosticSummary>,
    show_diagnostics: ShowDiagnostics,
) -> Color {
    match summary {
        Some(summary) => severity_color(severity(summary, show_diagnostics)),
        None => Color::Muted,
    }
}

/// The color of the bar's file icon; there is no summary for a file outside the project.
/// Deliberately not gated on `diagnostic_badges`: that setting only affects picker rows.
pub fn bar_file_icon_color(
    summary: Option<DiagnosticSummary>,
    show_diagnostics: ShowDiagnostics,
) -> (color: Color)
    ensures
        color == file_icon_color(summary, show_diagnostics),
{
    let marked: Option<DiagnosticSeverity> = match summary {
        Some(summary) => breadcrumb_diagnostic_severity(summary, show_diagnostics),
        None => None,
    };
    breadcrumb_entry_icon_color(marked)
}

/// An error outranks any number of warnings, and showing more never hides one.
pub proof fn law_errors_outrank_warnings(summary: DiagnosticSummary)
    ensures
        severity(summary, ShowDiagnostics::Off) is None,
        summary.error_count > 0 ==> severity(summary, ShowDiagnostics::Errors) == Some(
            DiagnosticSeverity::Error,
        ) && severity(summary, ShowDiagnostics::All) == Some(DiagnosticSeverity::Error),
        severity(summary, ShowDiagnostics::Errors) is Some ==> severity(
            summary,
            ShowDiagnostics::All,
        ) == severity(summary, ShowDiagnostics::Errors),
        severity(summary, ShowDiagnostics::All) is None <==> summary.error_count == 0
            && summary.warning_count == 0,
{
}

/// How many tracked files under an entry changed, and how.
#[derive(Clone, Copy, Debug, PartialEq, Eq, Structural)]
pub struct TrackedSummary {
    pub added: usize,
    pub modified: usize,
    pub deleted: usize,
}

/// What git says of an entry.
#[derive(Clone, Copy, Debug, PartialEq, Eq, Structural)]
pub struct GitSummary {
    pub index: TrackedSummary,
    pub worktree: TrackedSummary,
    pub conflict: usize,
    pub untracked: usize,
    pub count: usize,
}

/// The summary of an entry that git has nothing to say of.
pub open spec fn unchanged() -> GitSummary {
    GitSummary {
        index: TrackedSummary { added: 0, modified: 0, deleted: 0 },
        worktree: TrackedSummary { added: 0, modified: 0, deleted: 0 },
        conflict: 0,
        untracked: 0,
        count: 0,
    }
}

impl Default for GitSummary {
    fn default() -> (summary: GitSummary)
        ensures
            summary == unchanged(),
    {
        GitSummary {
            index: TrackedSummary { added: 0, modified: 0, deleted: 0 },
            worktree: TrackedSummary { added: 0, modified: 0, deleted: 0 },
            conflict: 0,
            untracked: 0,
            count: 0,
        }
    }
}

} // verus!
