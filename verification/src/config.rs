//! Application configuration values.  Reading and parsing the
//! configuration file happens outside the library; the library holds the
//! values and their defaults.

use vstd::prelude::*;

verus! {

/// Configuration of one external issue tracker.
#[derive(Debug, Clone)]
pub struct IssueTrackerConfig {
    /// Display name of the tracker (e.g. "Jira").
    pub name: String,
    /// Regular expression matching issue references.
    pub pattern: String,
    /// URL template with `$ISSUE_NO`, `$ORG`, `$REPO` and `$HOST`
    /// variables.
    pub url: String,
    /// Glob patterns of the repositories the tracker applies to; empty
    /// means all repositories.
    pub repos: Vec<String>,
}

/// Application configuration.
#[derive(Debug, Clone)]
pub struct AppConfig {
    /// Command used to open files in an IDE.
    pub ide_command: String,
    /// Directory used for temporary clones.
    pub temp_dir: String,
    /// Default message for PR approvals.
    pub approval_message: String,
    /// The configured issue trackers.
    pub issue_tracker: Vec<IssueTrackerConfig>,
}

/// The default IDE command.
pub fn default_ide_command() -> (r: String)
    ensures
        r@ == "code"@,
{
    let r = String::from_str("code");
    r
}

/// The default approval message.
pub fn default_approval_message() -> (r: String)
    ensures
        r@ == ":rocket: thanks for your contribution"@,
{
    let r = String::from_str(":rocket: thanks for your contribution");
    r
}

/// The fallback temporary directory; callers that know the machine's
/// real temporary directory pass their own value instead.
pub fn default_temp_dir() -> (r: String)
    ensures
        r@ == "/tmp/gh-pr-lander"@,
        r@.len() > 0,
    {
    proof {
        reveal_strlit("/tmp/gh-pr-lander");
    }
    let r = String::from_str("/tmp/gh-pr-lander");
    r
}

impl Default for AppConfig {
    fn default() -> (r: Self)
        ensures
            r.ide_command@ == "code"@,
            r.temp_dir@ == "/tmp/gh-pr-lander"@,
            r.approval_message@ == ":rocket: thanks for your contribution"@,
            r.issue_tracker@ == Seq::<IssueTrackerConfig>::empty(),
    {
        AppConfig {
            ide_command: default_ide_command(),
            temp_dir: default_temp_dir(),
            approval_message: default_approval_message(),
            issue_tracker: Vec::new(),
        }
    }
}

} // verus!
