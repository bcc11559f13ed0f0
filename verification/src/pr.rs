//! Domain model of a pull request and its loading state.

use vstd::prelude::*;

verus! {

/// Mergeable status of a pull request.
#[derive(Debug, Clone, Copy, PartialEq, Eq, Structural)]
pub enum MergeableStatus {
    /// Not yet checked.
    Unknown,
    /// Background check in progress.
    Checking,
    /// Ready to merge.
    Ready,
    /// Branch is behind, needs rebase.
    NeedsRebase,
    /// CI/build checks failed.
    BuildFailed,
    /// Has merge conflicts.
    Conflicted,
    /// Blocked by reviews or other checks.
    Blocked,
    /// Currently rebasing.
    Rebasing,
    /// Currently merging.
    Merging,
}

impl Default for MergeableStatus {
    fn default() -> (r: Self)
        ensures
            r == MergeableStatus::Unknown,
    {
        MergeableStatus::Unknown
    }
}

impl MergeableStatus {
    /// The display icon for this status.
    pub fn icon(&self) -> (r: &'static str)
        ensures
            *self == MergeableStatus::Unknown ==> r@ == "?"@,
            *self == MergeableStatus::Checking ==> r@ == "⋯"@,
            *self == MergeableStatus::Ready ==> r@ == "✓"@,
            *self == MergeableStatus::NeedsRebase ==> r@ == "↻"@,
            *self == MergeableStatus::BuildFailed ==> r@ == "✗"@,
            *self == MergeableStatus::Conflicted ==> r@ == "✗"@,
            *self == MergeableStatus::Blocked ==> r@ == "⊗"@,
            *self == MergeableStatus::Rebasing ==> r@ == "⟳"@,
            *self == MergeableStatus::Merging ==> r@ == "⇒"@,
    {
        match self {
            MergeableStatus::Unknown => "?",
            MergeableStatus::Checking => "⋯",
            MergeableStatus::Ready => "✓",
            MergeableStatus::NeedsRebase => "↻",
            MergeableStatus::BuildFailed => "✗",
            MergeableStatus::Conflicted => "✗",
            MergeableStatus::Blocked => "⊗",
            MergeableStatus::Rebasing => "⟳",
            MergeableStatus::Merging => "⇒",
        }
    }

    /// The display label for this status.
    pub fn label(&self) -> (r: &'static str)
        ensures
            *self == MergeableStatus::Unknown ==> r@ == "Unknown"@,
            *self == MergeableStatus::Checking ==> r@ == "Checking..."@,
            *self == MergeableStatus::Ready ==> r@ == "Ready"@,
            *self == MergeableStatus::NeedsRebase ==> r@ == "Needs Rebase"@,
            *self == MergeableStatus::BuildFailed ==> r@ == "Build Failed"@,
            *self == MergeableStatus::Conflicted ==> r@ == "Conflicts"@,
            *self == MergeableStatus::Blocked ==> r@ == "Blocked"@,
            *self == MergeableStatus::Rebasing ==> r@ == "Rebasing..."@,
            *self == MergeableStatus::Merging ==> r@ == "Merging..."@,
    {
        match self {
            MergeableStatus::Unknown => "Unknown",
            MergeableStatus::Checking => "Checking...",
            MergeableStatus::Ready => "Ready",
            MergeableStatus::NeedsRebase => "Needs Rebase",
            MergeableStatus::BuildFailed => "Build Failed",
            MergeableStatus::Conflicted => "Conflicts",
            MergeableStatus::Blocked => "Blocked",
            MergeableStatus::Rebasing => "Rebasing...",
            MergeableStatus::Merging => "Merging...",
        }
    }
}

/// Loading state for pull-request data.
#[derive(Debug, Clone, PartialEq, Eq)]
pub enum LoadingState {
    /// Not started loading.
    Idle,
    /// Currently loading.
    Loading,
    /// Successfully loaded.
    Loaded,
    /// Failed to load, with the error text.
    Error(String),
}

impl Default for LoadingState {
    fn default() -> (r: Self)
        ensures
            r == LoadingState::Idle,
    {
        LoadingState::Idle
    }
}

/// A GitHub pull request.
#[derive(Debug, Clone)]
pub struct Pr {
    /// PR number.
    pub number: usize,
    /// PR title.
    pub title: String,
    /// PR body text.
    pub body: String,
    /// Author username.
    pub author: String,
    /// Number of comments.
    pub comments: usize,
    /// Current mergeable status.
    pub mergeable: MergeableStatus,
    /// Whether the PR is behind its base branch.
    pub needs_rebase: bool,
    /// HEAD commit SHA.
    pub head_sha: String,
    /// When the PR was created, as seconds since the epoch.
    pub created_at: i64,
    /// When the PR was last updated, as seconds since the epoch.
    pub updated_at: i64,
    /// URL for viewing the PR in a browser.
    pub html_url: String,
}

/// Relies on `chrono::Utc::now` and `DateTime::timestamp`: the current
/// wall-clock time as seconds since the epoch.  Nothing can be promised
/// of a clock reading.  `Utc::now` itself aborts when the system clock
/// reads before the Unix epoch; that is a property of the clock, not of
/// any input, so no precondition can exclude it.
#[verifier::external_body]
fn now_epoch_seconds() -> i64 {
    chrono::Utc::now().timestamp()
}

impl Pr {
    /// A new pull request with the given data, stamped with the current
    /// time.
    pub fn new(number: usize, title: &str, author: &str, head_sha: &str) -> (r: Pr)
        ensures
            r.number == number,
            r.title@ == title@,
            r.body@ == Seq::<char>::empty(),
            r.author@ == author@,
            r.comments == 0,
            r.mergeable == MergeableStatus::Unknown,
            !r.needs_rebase,
            r.head_sha@ == head_sha@,
            r.created_at == r.updated_at,
            r.html_url@ == Seq::<char>::empty(),
    {
        let now = now_epoch_seconds();
        Pr {
            number,
            title: title.to_owned(),
            body: String::new(),
            author: author.to_owned(),
            comments: 0,
            mergeable: MergeableStatus::Unknown,
            needs_rebase: false,
            head_sha: head_sha.to_owned(),
            created_at: now,
            updated_at: now,
            html_url: String::new(),
        }
    }

    /// This PR with its browser URL set.
    pub fn with_html_url(self, url: &str) -> (r: Pr)
        ensures
            r == (Pr { html_url: r.html_url, ..self }),
            r.html_url@ == url@,
    {
        Pr { html_url: url.to_owned(), ..self }
    }
}

} // verus!
