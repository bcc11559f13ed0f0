//! Metadata of CI workflow jobs shown in the build-log view.

use vstd::prelude::*;

verus! {

/// Outcome of one CI job.
#[derive(Debug, Clone, Copy, PartialEq, Eq, Structural)]
pub enum JobStatus {
    Success,
    Failure,
    Cancelled,
    Skipped,
    InProgress,
    Unknown,
}

impl JobStatus {
    /// The display icon for this status.
    pub fn icon(&self) -> (r: &'static str)
        ensures
            *self == JobStatus::Success ==> r@ == "✓"@,
            *self == JobStatus::Failure ==> r@ == "✗"@,
            *self == JobStatus::Cancelled ==> r@ == "⊘"@,
            *self == JobStatus::Skipped ==> r@ == "⊝"@,
            *self == JobStatus::InProgress ==> r@ == "⋯"@,
            *self == JobStatus::Unknown ==> r@ == "?"@,
    {
        match self {
            JobStatus::Success => "✓",
            JobStatus::Failure => "✗",
            JobStatus::Cancelled => "⊘",
            JobStatus::Skipped => "⊝",
            JobStatus::InProgress => "⋯",
            JobStatus::Unknown => "?",
        }
    }
}

/// Metadata of one CI job, as reported by the hosting service.
#[derive(Debug, Clone)]
pub struct JobMetadata {
    /// Full job name (e.g. "lint (macos-latest, clippy)").
    pub name: String,
    /// Workflow name (e.g. "CI").
    pub workflow_name: String,
    /// Outcome of the job.
    pub status: JobStatus,
    /// Number of errors found in its log.
    pub error_count: usize,
    /// Job duration in milliseconds, when finished.
    pub duration_ms: Option<u64>,
    /// URL of the job on the hosting service.
    pub html_url: String,
}

/// Pre-determined style of one row of the PR table.
#[derive(Debug, Clone, Copy, PartialEq, Eq, Structural)]
pub enum RowStyle {
    /// Regular row.
    Normal,
    /// Selected for a bulk operation.
    Selected,
    /// Under the keyboard cursor.
    Cursor,
    /// Both selected and under the cursor.
    SelectedCursor,
}

/// The pull request a build log belongs to.
#[derive(Debug, Clone)]
pub struct PrContext {
    /// PR number.
    pub number: usize,
    /// PR title.
    pub title: String,
    /// Author username.
    pub author: String,
}

} // verus!
