//! Issue extraction from pull-request text: configurable patterns find
//! issue references and URL templates turn them into links.  Pattern
//! matching itself is done by the regex crate behind trusted wrappers;
//! everything around it — repository scoping, URL building, tracker
//! bookkeeping — is verified.

use vstd::prelude::*;

use crate::config::IssueTrackerConfig;
use crate::text::replace_all;
use crate::text::replace_seq;

verus! {

/// Repository context for issue extraction.
#[derive(Debug, Clone)]
pub struct RepoContext {
    /// Organization or owner name.
    pub org: String,
    /// Repository name.
    pub repo: String,
    /// Host name (e.g. "github.com").
    pub host: String,
}

impl Default for RepoContext {
    fn default() -> (r: Self)
        ensures
            r.org@ == Seq::<char>::empty(),
            r.repo@ == Seq::<char>::empty(),
            r.host@ == Seq::<char>::empty(),
    {
        RepoContext { org: String::new(), repo: String::new(), host: String::new() }
    }
}

impl RepoContext {
    /// A context from its parts.
    pub fn new(org: &str, repo: &str, host: &str) -> (r: RepoContext)
        ensures
            r.org@ == org@,
            r.repo@ == repo@,
            r.host@ == host@,
    {
        RepoContext { org: org.to_owned(), repo: repo.to_owned(), host: host.to_owned() }
    }
}

/// A matched issue with its tracker and URL.
#[derive(Debug, Clone, PartialEq, Eq, Hash)]
pub struct MatchedIssue {
    /// Display name of the tracker.
    pub tracker_name: String,
    /// The matched issue reference, as it appeared.
    pub issue_id: String,
    /// The full URL to open the issue.
    pub url: String,
}

/// The mathematical model of a matched issue.
#[verifier::ext_equal]
pub ghost struct IssueView {
    pub tracker_name: Seq<char>,
    pub issue_id: Seq<char>,
    pub url: Seq<char>,
}

impl MatchedIssue {
    pub open spec fn to_view(self) -> IssueView {
        IssueView { tracker_name: self.tracker_name@, issue_id: self.issue_id@, url: self.url@ }
    }

    /// An exact copy.
    pub fn duplicate(&self) -> (r: MatchedIssue)
        ensures
            r == *self,
    {
        MatchedIssue {
            tracker_name: self.tracker_name.clone(),
            issue_id: self.issue_id.clone(),
            url: self.url.clone(),
        }
    }
}

/// Glob matching with `*` matching any (possibly empty) stretch of
/// characters and every other character matching itself.
pub open spec fn glob_spec(p: Seq<char>, t: Seq<char>) -> bool
    decreases p.len(), t.len(),
{
    if p.len() == 0 {
        t.len() == 0
    } else if p[0] == '*' {
        glob_spec(p.skip(1), t) || (t.len() > 0 && glob_spec(p, t.skip(1)))
    } else {
        t.len() > 0 && p[0] == t[0] && glob_spec(p.skip(1), t.skip(1))
    }
}

/// Whether the glob `pattern` matches the whole of `text`.
pub fn glob_match(pattern: &str, text: &str) -> (r: bool)
    ensures
        r == glob_spec(pattern@, text@),
{
    proof {
        assert(pattern@.skip(0) =~= pattern@);
        assert(text@.skip(0) =~= text@);
    }
    glob_from(pattern, text, 0, 0)
}

/// Matches `p[i..]` against `t[j..]`.
fn glob_from(p: &str, t: &str, i: usize, j: usize) -> (r: bool)
    requires
        i <= p@.len(),
        j <= t@.len(),
    ensures
        r == glob_spec(p@.skip(i as int), t@.skip(j as int)),
    decreases p@.len() - i, t@.len() - j,
{
    let pn = p.unicode_len();
    let tn = t.unicode_len();
    if i >= pn {
        return j >= tn;
    }
    let pc = p.get_char(i);
    proof {
        assert(p@.skip(i as int)[0] == p@[i as int]);
        assert(p@.skip(i as int).skip(1) =~= p@.skip(i + 1));
    }
    if pc == '*' {
        let a = glob_from(p, t, i + 1, j);
        if a {
            true
        } else if j < tn {
            proof {
                assert(t@.skip(j as int)[0] == t@[j as int]);
                assert(t@.skip(j as int).skip(1) =~= t@.skip(j + 1));
            }
            glob_from(p, t, i, j + 1)
        } else {
            false
        }
    } else {
        if j >= tn {
            return false;
        }
        let tc = t.get_char(j);
        proof {
            assert(t@.skip(j as int)[0] == t@[j as int]);
            assert(t@.skip(j as int).skip(1) =~= t@.skip(j + 1));
        }
        if pc == tc {
            glob_from(p, t, i + 1, j + 1)
        } else {
            false
        }
    }
}

/// Whether the pattern compiles as a regular expression.  The answer
/// depends on the pattern alone.
pub uninterp spec fn regex_valid(pattern: Seq<char>) -> bool;

/// The leftmost match of the pattern in the text: the whole matched
/// text and, when the pattern has a first capture group that
/// participated, that group's text.  `None` when the pattern does not
/// compile or nothing matches.  The answer depends on the pattern and
/// the text alone.
pub uninterp spec fn regex_first_capture(pattern: Seq<char>, text: Seq<char>) -> Option<
    (Seq<char>, Option<Seq<char>>),
>;

/// Relies on `regex::Regex::new`: a pattern either compiles or it does
/// not, deterministically.
#[verifier::external_body]
fn regex_compiles(pattern: &str) -> (r: bool)
    ensures
        r == regex_valid(pattern@),
{
    regex::Regex::new(pattern).is_ok()
}

/// The model of an optional capture result.
pub open spec fn capture_view(r: Option<(String, Option<String>)>) -> Option<
    (Seq<char>, Option<Seq<char>>),
> {
    match r {
        None => None,
        Some((full, g1)) => Some(
            (
                full@,
                match g1 {
                    Some(g) => Some(g@),
                    None => None,
                },
            ),
        ),
    }
}

/// Relies on `regex::Regex::new` and `regex::Regex::captures`: the
/// leftmost match of the compiled pattern, with capture group 0 being
/// the whole match and group 1 the first parenthesised group.
#[verifier::external_body]
fn regex_capture_first(pattern: &str, text: &str) -> (r: Option<(String, Option<String>)>)
    ensures
        capture_view(r) == regex_first_capture(pattern@, text@),
{
    let re = match regex::Regex::new(pattern) {
        Ok(re) => re,
        Err(_) => return None,
    };
    let caps = re.captures(text)?;
    let full = caps.get(0)?.as_str().to_string();
    let group = caps.get(1).map(|m| m.as_str().to_string());
    Some((full, group))
}

/// One issue tracker with a validated pattern.
#[derive(Debug, Clone)]
pub struct IssueTracker {
    /// Display name of the tracker.
    pub name: String,
    /// The (compiling) regular expression matching issue references.
    pub pattern: String,
    /// URL template with `$ISSUE_NO`, `$ORG`, `$REPO` and `$HOST`.
    pub url_template: String,
    /// Glob patterns scoping the tracker to repositories.
    pub repo_patterns: Vec<String>,
}

/// The mathematical model of a tracker.
#[verifier::ext_equal]
pub ghost struct TrackerView {
    pub name: Seq<char>,
    pub pattern: Seq<char>,
    pub url_template: Seq<char>,
    pub repo_patterns: Seq<Seq<char>>,
}

impl IssueTracker {
    pub open spec fn to_view(self) -> TrackerView {
        TrackerView {
            name: self.name@,
            pattern: self.pattern@,
            url_template: self.url_template@,
            repo_patterns: self.repo_patterns@.map_values(|s: String| s@),
        }
    }

    /// A tracker from its configuration; `None` when the pattern does
    /// not compile.
    pub fn new(config: &IssueTrackerConfig) -> (r: Option<IssueTracker>)
        ensures
            r is Some <==> regex_valid(config.pattern@),
            r matches Some(tr) ==> tr.to_view() == config_view(*config),
    {
        if !regex_compiles(config.pattern.as_str()) {
            return None;
        }
        let mut patterns: Vec<String> = Vec::new();
        let n = config.repos.len();
        let mut i: usize = 0;
        while i < n
            invariant
                i <= n,
                n == config.repos@.len(),
                patterns@ == config.repos@.take(i as int),
            decreases n - i,
        {
            proof {
                assert(config.repos@.take(i + 1) =~= config.repos@.take(i as int).push(
                    config.repos@[i as int],
                ));
            }
            patterns.push(config.repos[i].clone());
            i = i + 1;
        }
        proof {
            assert(config.repos@.take(n as int) =~= config.repos@);
        }
        let tr = IssueTracker {
            name: config.name.clone(),
            pattern: config.pattern.clone(),
            url_template: config.url.clone(),
            repo_patterns: patterns,
        };
        proof {
            assert(tr.to_view() =~~= config_view(*config));
        }
        Some(tr)
    }

    /// Whether this tracker applies to the repository: it does when it
    /// has no repository patterns, or when one of them glob-matches
    /// "org/repo".
    pub fn matches_repo(&self, ctx: &RepoContext) -> (r: bool)
        ensures
            r == applies_to(self.to_view().repo_patterns, ctx.org@ + "/"@ + ctx.repo@),
    {
        let n = self.repo_patterns.len();
        if n == 0 {
            return true;
        }
        let head = crate::text::concat_str(ctx.org.as_str(), "/");
        let path = crate::text::concat_str(head.as_str(), ctx.repo.as_str());
        let ghost pats = self.to_view().repo_patterns;
        let mut i: usize = 0;
        while i < n
            invariant
                i <= n,
                n == self.repo_patterns@.len(),
                n > 0,
                pats == self.to_view().repo_patterns,
                path@ == ctx.org@ + "/"@ + ctx.repo@,
                forall|q: int| 0 <= q < i ==> !glob_spec(#[trigger] pats[q], path@),
            decreases n - i,
        {
            proof {
                assert(pats[i as int] == self.repo_patterns@[i as int]@);
            }
            if glob_match(self.repo_patterns[i].as_str(), path.as_str()) {
                return true;
            }
            i = i + 1;
        }
        false
    }

    /// Extracts the first issue reference from the text and builds its
    /// URL.  `None` when the tracker does not apply to the repository or
    /// nothing matches.
    pub fn extract(&self, text: &str, ctx: &RepoContext) -> (r: Option<MatchedIssue>)
        ensures
            issue_opt_view(r) == extract_spec(self.to_view(), text@, ctx_view(*ctx)),
    {
        if !self.matches_repo(ctx) {
            return None;
        }
        let caps = regex_capture_first(self.pattern.as_str(), text);
        let Some((full, group)) = caps else {
            return None;
        };
        let issue_no: &String = match &group {
            Some(g) => g,
            None => &full,
        };
        proof {
            reveal_strlit("$ISSUE_NO");
            reveal_strlit("$ORG");
            reveal_strlit("$REPO");
            reveal_strlit("$HOST");
        }
        let step1 = replace_all(self.url_template.as_str(), "$ISSUE_NO", issue_no.as_str());
        let step2 = replace_all(step1.as_str(), "$ORG", ctx.org.as_str());
        let step3 = replace_all(step2.as_str(), "$REPO", ctx.repo.as_str());
        let url = replace_all(step3.as_str(), "$HOST", ctx.host.as_str());
        let r = MatchedIssue { tracker_name: self.name.clone(), issue_id: full, url };
        proof {
            assert(issue_opt_view(Some(r)) =~~= extract_spec(
                self.to_view(),
                text@,
                ctx_view(*ctx),
            ));
        }
        Some(r)
    }
}

/// The model of a tracker configuration.
pub open spec fn config_view(c: IssueTrackerConfig) -> TrackerView {
    TrackerView {
        name: c.name@,
        pattern: c.pattern@,
        url_template: c.url@,
        repo_patterns: c.repos@.map_values(|s: String| s@),
    }
}

/// The model of a repository context.
#[verifier::ext_equal]
pub ghost struct CtxView {
    pub org: Seq<char>,
    pub repo: Seq<char>,
    pub host: Seq<char>,
}

pub open spec fn ctx_view(c: RepoContext) -> CtxView {
    CtxView { org: c.org@, repo: c.repo@, host: c.host@ }
}

/// The model of an optional matched issue.
pub open spec fn issue_opt_view(r: Option<MatchedIssue>) -> Option<IssueView> {
    match r {
        Some(m) => Some(m.to_view()),
        None => None,
    }
}

/// A tracker applies when it has no repository patterns or one of them
/// matches the "org/repo" path.
pub open spec fn applies_to(patterns: Seq<Seq<char>>, path: Seq<char>) -> bool {
    patterns.len() == 0 || exists|i: int| 0 <= i < patterns.len() && glob_spec(patterns[i], path)
}

/// What one tracker extracts from the text in the given context: the
/// first match of its pattern, with the URL template's variables
/// substituted.  The issue number is the first capture group when the
/// pattern has one, else the whole match; the displayed id is always the
/// whole match.
pub open spec fn extract_spec(tr: TrackerView, text: Seq<char>, ctx: CtxView) -> Option<IssueView> {
    if !applies_to(tr.repo_patterns, ctx.org + "/"@ + ctx.repo) {
        None
    } else {
        match regex_first_capture(tr.pattern, text) {
            None => None,
            Some((full, group)) => {
                let issue_no = match group {
                    Some(g) => g,
                    None => full,
                };
                let url = replace_seq(
                    replace_seq(
                        replace_seq(
                            replace_seq(tr.url_template, "$ISSUE_NO"@, issue_no),
                            "$ORG"@,
                            ctx.org,
                        ),
                        "$REPO"@,
                        ctx.repo,
                    ),
                    "$HOST"@,
                    ctx.host,
                );
                Some(IssueView { tracker_name: tr.name, issue_id: full, url })
            },
        }
    }
}

/// The trackers built from a configuration list, skipping entries whose
/// pattern does not compile.
pub open spec fn built_trackers(cfgs: Seq<IssueTrackerConfig>) -> Seq<TrackerView>
    decreases cfgs,
{
    if cfgs.len() == 0 {
        Seq::empty()
    } else {
        let rest = built_trackers(cfgs.skip(1));
        if regex_valid(cfgs[0].pattern@) {
            seq![config_view(cfgs[0])] + rest
        } else {
            rest
        }
    }
}

proof fn lemma_built_trackers_snoc(cfgs: Seq<IssueTrackerConfig>, i: int)
    requires
        0 <= i < cfgs.len(),
    ensures
        built_trackers(cfgs.take(i + 1)) == (if regex_valid(cfgs[i].pattern@) {
            built_trackers(cfgs.take(i)).push(config_view(cfgs[i]))
        } else {
            built_trackers(cfgs.take(i))
        }),
    decreases i + 1,
{
    let a = cfgs.take(i + 1);
    if i == 0 {
        assert(a.skip(1) =~= cfgs.take(0));
        if regex_valid(cfgs[0].pattern@) {
            assert(built_trackers(a) =~~= built_trackers(cfgs.take(0)).push(config_view(cfgs[0])));
        }
    } else {
        lemma_built_trackers_snoc(cfgs.skip(1), i - 1);
        assert(a.skip(1) =~= cfgs.skip(1).take(i));
        assert(cfgs.take(i).skip(1) =~= cfgs.skip(1).take(i - 1));
        assert(a[0] == cfgs[0]);
        assert(cfgs.take(i)[0] == cfgs[0]);
        assert(cfgs.skip(1)[i - 1] == cfgs[i]);
        if regex_valid(cfgs[i].pattern@) {
            assert(built_trackers(cfgs.take(i + 1)) =~~= built_trackers(cfgs.take(i)).push(
                config_view(cfgs[i]),
            ));
        }
    }
}

/// The models of a tracker sequence.
pub open spec fn trackers_view(s: Seq<IssueTracker>) -> Seq<TrackerView> {
    s.map_values(|t: IssueTracker| t.to_view())
}

/// What all trackers together extract, one match per tracker, in
/// configuration order.
pub open spec fn extract_all_spec(trs: Seq<TrackerView>, text: Seq<char>, ctx: CtxView) -> Seq<
    IssueView,
>
    decreases trs,
{
    if trs.len() == 0 {
        Seq::empty()
    } else {
        let rest = extract_all_spec(trs.skip(1), text, ctx);
        match extract_spec(trs[0], text, ctx) {
            Some(m) => seq![m] + rest,
            None => rest,
        }
    }
}

proof fn lemma_extract_all_snoc(trs: Seq<TrackerView>, text: Seq<char>, ctx: CtxView, i: int)
    requires
        0 <= i < trs.len(),
    ensures
        extract_all_spec(trs.take(i + 1), text, ctx) == (match extract_spec(trs[i], text, ctx) {
            Some(m) => extract_all_spec(trs.take(i), text, ctx).push(m),
            None => extract_all_spec(trs.take(i), text, ctx),
        }),
    decreases i + 1,
{
    let a = trs.take(i + 1);
    if i == 0 {
        assert(a.skip(1) =~= trs.take(0));
        match extract_spec(trs[0], text, ctx) {
            Some(m) => {
                assert(extract_all_spec(a, text, ctx) =~~= extract_all_spec(
                    trs.take(0),
                    text,
                    ctx,
                ).push(m));
            },
            None => {},
        }
    } else {
        lemma_extract_all_snoc(trs.skip(1), text, ctx, i - 1);
        assert(a.skip(1) =~= trs.skip(1).take(i));
        assert(trs.take(i).skip(1) =~= trs.skip(1).take(i - 1));
        assert(a[0] == trs[0]);
        assert(trs.take(i)[0] == trs[0]);
        assert(trs.skip(1)[i - 1] == trs[i]);
        match extract_spec(trs[i], text, ctx) {
            Some(m) => {
                assert(extract_all_spec(trs.take(i + 1), text, ctx) =~~= extract_all_spec(
                    trs.take(i),
                    text,
                    ctx,
                ).push(m));
            },
            None => {},
        }
    }
}

/// The configured issue trackers.
#[derive(Debug, Clone)]
pub struct IssueExtractor {
    /// The trackers whose patterns compiled, in configuration order.
    pub trackers: Vec<IssueTracker>,
}

impl Default for IssueExtractor {
    fn default() -> (r: Self)
        ensures
            r.trackers@ == Seq::<IssueTracker>::empty(),
    {
        IssueExtractor { trackers: Vec::new() }
    }
}

impl IssueExtractor {
    /// Builds the extractor from configuration, skipping trackers whose
    /// pattern does not compile.
    pub fn from_config(configs: &[IssueTrackerConfig]) -> (r: IssueExtractor)
        ensures
            trackers_view(r.trackers@) == built_trackers(configs@),
    {
        let mut trackers: Vec<IssueTracker> = Vec::new();
        let n = configs.len();
        let mut i: usize = 0;
        proof {
            assert(configs@.take(0) =~= Seq::<IssueTrackerConfig>::empty());
            assert(trackers_view(trackers@) =~= built_trackers(configs@.take(0)));
        }
        while i < n
            invariant
                i <= n,
                n == configs@.len(),
                trackers_view(trackers@) == built_trackers(configs@.take(i as int)),
            decreases n - i,
        {
            proof {
                lemma_built_trackers_snoc(configs@, i as int);
            }
            match IssueTracker::new(&configs[i]) {
                Some(tr) => {
                    let ghost before = trackers@;
                    trackers.push(tr);
                    proof {
                        assert(trackers_view(trackers@) =~~= trackers_view(before).push(
                            tr.to_view(),
                        ));
                    }
                },
                None => {},
            }
            i = i + 1;
        }
        proof {
            assert(configs@.take(n as int) =~= configs@);
        }
        IssueExtractor { trackers }
    }

    /// All matching issues from all configured trackers: at most one
    /// match per tracker, in configuration order, scoped by repository.
    pub fn extract_all(&self, text: &str, ctx: &RepoContext) -> (r: Vec<MatchedIssue>)
        ensures
            r@.map_values(|m: MatchedIssue| m.to_view()) == extract_all_spec(
                trackers_view(self.trackers@),
                text@,
                ctx_view(*ctx),
            ),
    {
        let ghost trs = trackers_view(self.trackers@);
        let mut out: Vec<MatchedIssue> = Vec::new();
        let n = self.trackers.len();
        let mut i: usize = 0;
        proof {
            assert(trs.take(0) =~= Seq::<TrackerView>::empty());
            assert(out@.map_values(|m: MatchedIssue| m.to_view()) =~= extract_all_spec(
                trs.take(0),
                text@,
                ctx_view(*ctx),
            ));
        }
        while i < n
            invariant
                i <= n,
                n == self.trackers@.len(),
                trs == trackers_view(self.trackers@),
                out@.map_values(|m: MatchedIssue| m.to_view()) == extract_all_spec(
                    trs.take(i as int),
                    text@,
                    ctx_view(*ctx),
                ),
            decreases n - i,
        {
            proof {
                lemma_extract_all_snoc(trs, text@, ctx_view(*ctx), i as int);
                assert(trs[i as int] == self.trackers@[i as int].to_view());
            }
            match self.trackers[i].extract(text, ctx) {
                Some(m) => {
                    let ghost before = out@;
                    out.push(m);
                    proof {
                        assert(out@.map_values(|q: MatchedIssue| q.to_view()) =~~= before
                            .map_values(|q: MatchedIssue| q.to_view()).push(m.to_view()));
                    }
                },
                None => {},
            }
            i = i + 1;
        }
        proof {
            assert(trs.take(n as int) =~= trs);
        }
        out
    }

    /// Whether no trackers are configured.
    pub fn is_empty(&self) -> (r: bool)
        ensures
            r == (self.trackers@.len() == 0),
    {
        self.trackers.len() == 0
    }
}

} // verus!
