//! The diff model: an immutable description of a pull request's files,
//! hunks and lines, loaded wholesale from an external source.

use vstd::prelude::*;

use crate::text::split_seq;
use crate::text::split_char;

verus! {

/// Status of one changed file.
#[derive(Debug, Clone, Copy, PartialEq, Eq, Structural)]
pub enum FileStatus {
    Added,
    Deleted,
    Modified,
    Renamed,
    Copied,
}

/// Kind of one diff line.
#[derive(Debug, Clone, Copy, PartialEq, Eq, Structural)]
pub enum LineKind {
    Context,
    Addition,
    Deletion,
    /// A placeholder standing for collapsed context, replaced on demand.
    Expansion,
}

/// One line of a hunk.
#[derive(Debug, Clone)]
pub struct DiffLine {
    /// Text of the line.
    pub content: String,
    /// Kind of the line.
    pub kind: LineKind,
    /// Line number in the old file, when present.
    pub old_line: Option<usize>,
    /// Line number in the new file, when present.
    pub new_line: Option<usize>,
    /// Whether a placeholder has been (or should be) replaced by fetched
    /// context.
    pub is_expanded: bool,
}

impl DiffLine {
    /// The line number a comment on this line refers to: the new line
    /// number when present, else the old one.
    pub open spec fn spec_effective_line(self) -> Option<usize> {
        if self.new_line is Some {
            self.new_line
        } else {
            self.old_line
        }
    }

    /// A context line, present in both files.
    pub fn context(content: &str, old_line: usize, new_line: usize) -> (r: DiffLine)
        ensures
            r.content@ == content@,
            r.kind == LineKind::Context,
            r.old_line == Some(old_line),
            r.new_line == Some(new_line),
            !r.is_expanded,
    {
        DiffLine {
            content: content.to_owned(),
            kind: LineKind::Context,
            old_line: Some(old_line),
            new_line: Some(new_line),
            is_expanded: false,
        }
    }

    /// An added line, present only in the new file.
    pub fn addition(content: &str, new_line: usize) -> (r: DiffLine)
        ensures
            r.content@ == content@,
            r.kind == LineKind::Addition,
            r.old_line is None,
            r.new_line == Some(new_line),
            !r.is_expanded,
    {
        DiffLine {
            content: content.to_owned(),
            kind: LineKind::Addition,
            old_line: None,
            new_line: Some(new_line),
            is_expanded: false,
        }
    }

    /// A deleted line, present only in the old file.
    pub fn deletion(content: &str, old_line: usize) -> (r: DiffLine)
        ensures
            r.content@ == content@,
            r.kind == LineKind::Deletion,
            r.old_line == Some(old_line),
            r.new_line is None,
            !r.is_expanded,
    {
        DiffLine {
            content: content.to_owned(),
            kind: LineKind::Deletion,
            old_line: Some(old_line),
            new_line: None,
            is_expanded: false,
        }
    }

    /// An expansion placeholder covering collapsed context around the
    /// given old/new positions.
    pub fn expansion(old_line: usize, new_line: usize) -> (r: DiffLine)
        ensures
            r.content@ == Seq::<char>::empty(),
            r.kind == LineKind::Expansion,
            r.old_line == Some(old_line),
            r.new_line == Some(new_line),
            !r.is_expanded,
    {
        DiffLine {
            content: String::new(),
            kind: LineKind::Expansion,
            old_line: Some(old_line),
            new_line: Some(new_line),
            is_expanded: false,
        }
    }

    /// The effective line number for comments.
    pub fn effective_line(&self) -> (r: Option<usize>)
        ensures
            r == self.spec_effective_line(),
    {
        match self.new_line {
            Some(n) => Some(n),
            None => self.old_line,
        }
    }
}

/// A contiguous block of a file's diff; the order of its lines is
/// significant and never re-sorted.
#[derive(Debug, Clone)]
pub struct Hunk {
    /// First line covered in the old file.
    pub old_start: usize,
    /// Number of old-file lines covered.
    pub old_count: usize,
    /// First line covered in the new file.
    pub new_start: usize,
    /// Number of new-file lines covered.
    pub new_count: usize,
    /// Header text of the hunk.
    pub header: String,
    /// The lines, in stored order.
    pub lines: Vec<DiffLine>,
}

impl Hunk {
    /// An empty hunk covering the given ranges.
    pub fn new(old_start: usize, old_count: usize, new_start: usize, new_count: usize) -> (r: Hunk)
        ensures
            r.old_start == old_start,
            r.old_count == old_count,
            r.new_start == new_start,
            r.new_count == new_count,
            r.header@ == Seq::<char>::empty(),
            r.lines@ == Seq::<DiffLine>::empty(),
    {
        Hunk {
            old_start,
            old_count,
            new_start,
            new_count,
            header: String::new(),
            lines: Vec::new(),
        }
    }
}

/// How many lines of the given kind a line sequence holds.
pub open spec fn count_lines(lines: Seq<DiffLine>, k: LineKind) -> nat
    decreases lines,
{
    if lines.len() == 0 {
        0
    } else {
        (if lines[0].kind == k {
            1nat
        } else {
            0nat
        }) + count_lines(lines.skip(1), k)
    }
}

/// How many lines of the given kind all hunks together hold.
pub open spec fn count_hunk_lines(hunks: Seq<Hunk>, k: LineKind) -> nat
    decreases hunks,
{
    if hunks.len() == 0 {
        0
    } else {
        count_lines(hunks[0].lines@, k) + count_hunk_lines(hunks.skip(1), k)
    }
}

/// A natural number clamped into `usize`.
pub open spec fn clamp_usize(n: nat) -> usize {
    if n <= usize::MAX {
        n as usize
    } else {
        usize::MAX
    }
}

pub proof fn lemma_count_lines_snoc(lines: Seq<DiffLine>, k: LineKind, i: int)
    requires
        0 <= i < lines.len(),
    ensures
        count_lines(lines.take(i + 1), k) == count_lines(lines.take(i), k) + (
        if lines[i].kind == k {
            1nat
        } else {
            0nat
        }),
    decreases i + 1,
{
    let a = lines.take(i + 1);
    if i == 0 {
        assert(a.skip(1) =~= lines.take(0));
    } else {
        lemma_count_lines_snoc(lines.skip(1), k, i - 1);
        assert(a.skip(1) =~= lines.skip(1).take(i));
        assert(lines.take(i).skip(1) =~= lines.skip(1).take(i - 1));
        assert(a[0] == lines[0]);
        assert(lines.take(i)[0] == lines[0]);
        assert(lines.skip(1)[i - 1] == lines[i]);
    }
}

pub proof fn lemma_count_hunk_lines_snoc(hunks: Seq<Hunk>, k: LineKind, i: int)
    requires
        0 <= i < hunks.len(),
    ensures
        count_hunk_lines(hunks.take(i + 1), k) == count_hunk_lines(hunks.take(i), k) + count_lines(
            hunks[i].lines@,
            k,
        ),
    decreases i + 1,
{
    let a = hunks.take(i + 1);
    if i == 0 {
        assert(a.skip(1) =~= hunks.take(0));
    } else {
        lemma_count_hunk_lines_snoc(hunks.skip(1), k, i - 1);
        assert(a.skip(1) =~= hunks.skip(1).take(i));
        assert(hunks.take(i).skip(1) =~= hunks.skip(1).take(i - 1));
        assert(a[0] == hunks[0]);
        assert(hunks.take(i)[0] == hunks[0]);
        assert(hunks.skip(1)[i - 1] == hunks[i]);
    }
}

/// How many lines of the given kind one hunk holds, saturating at
/// `usize::MAX`.
fn count_lines_exec(lines: &Vec<DiffLine>, k: LineKind) -> (r: usize)
    ensures
        r == clamp_usize(count_lines(lines@, k)),
{
    let mut total: usize = 0;
    let mut i: usize = 0;
    while i < lines.len()
        invariant
            i <= lines@.len(),
            total == clamp_usize(count_lines(lines@.take(i as int), k)),
        decreases lines@.len() - i,
    {
        proof {
            lemma_count_lines_snoc(lines@, k, i as int);
        }
        let matches_kind = match (lines[i].kind, k) {
            (LineKind::Context, LineKind::Context) => true,
            (LineKind::Addition, LineKind::Addition) => true,
            (LineKind::Deletion, LineKind::Deletion) => true,
            (LineKind::Expansion, LineKind::Expansion) => true,
            _ => false,
        };
        if matches_kind && total < usize::MAX {
            total = total + 1;
        }
        i = i + 1;
    }
    proof {
        assert(lines@.take(lines@.len() as int) =~= lines@);
    }
    total
}

/// One changed file: its path, status, counts and hunks.
#[derive(Debug, Clone)]
pub struct FileDiff {
    /// Path of the file, the unique key.
    pub path: String,
    /// Status of the change.
    pub status: FileStatus,
    /// Number of added lines.
    pub additions: usize,
    /// Number of deleted lines.
    pub deletions: usize,
    /// The hunks, in order.
    pub hunks: Vec<Hunk>,
}

impl FileDiff {
    /// A fresh file diff for the given path, marked modified, with no
    /// hunks yet.
    pub fn new(path: &str) -> (r: FileDiff)
        ensures
            r.path@ == path@,
            r.status == FileStatus::Modified,
            r.additions == 0,
            r.deletions == 0,
            r.hunks@ == Seq::<Hunk>::empty(),
    {
        FileDiff {
            path: path.to_owned(),
            status: FileStatus::Modified,
            additions: 0,
            deletions: 0,
            hunks: Vec::new(),
        }
    }

    /// The last segment of the path.
    pub fn display_name(&self) -> (r: String)
        ensures
            r@ == split_seq(self.path@, '/').last(),
    {
        let segs = split_char(self.path.as_str(), '/');
        proof {
            crate::text::lemma_split_seq_len(self.path@, '/');
            assert(segs@.map_values(|t: String| t@).len() == split_seq(self.path@, '/').len());
            assert(segs@.map_values(|t: String| t@).last() == split_seq(self.path@, '/').last());
        }
        let r = segs[segs.len() - 1].clone();
        r
    }

    /// Recomputes the addition and deletion counts from the stored lines,
    /// saturating at `usize::MAX`.
    pub fn recalculate_stats(&mut self)
        ensures
            final(self).additions == clamp_usize(
                count_hunk_lines(old(self).hunks@, LineKind::Addition),
            ),
            final(self).deletions == clamp_usize(
                count_hunk_lines(old(self).hunks@, LineKind::Deletion),
            ),
            final(self).path == old(self).path,
            final(self).status == old(self).status,
            final(self).hunks == old(self).hunks,
    {
        let mut adds: usize = 0;
        let mut dels: usize = 0;
        let mut i: usize = 0;
        while i < self.hunks.len()
            invariant
                i <= self.hunks@.len(),
                *self == *old(self),
                adds == clamp_usize(
                    count_hunk_lines(self.hunks@.take(i as int), LineKind::Addition),
                ),
                dels == clamp_usize(
                    count_hunk_lines(self.hunks@.take(i as int), LineKind::Deletion),
                ),
            decreases self.hunks@.len() - i,
        {
            proof {
                lemma_count_hunk_lines_snoc(self.hunks@, LineKind::Addition, i as int);
                lemma_count_hunk_lines_snoc(self.hunks@, LineKind::Deletion, i as int);
            }
            let ha = count_lines_exec(&self.hunks[i].lines, LineKind::Addition);
            let hd = count_lines_exec(&self.hunks[i].lines, LineKind::Deletion);
            if ha > usize::MAX - adds {
                adds = usize::MAX;
            } else {
                adds = adds + ha;
            }
            if hd > usize::MAX - dels {
                dels = usize::MAX;
            } else {
                dels = dels + hd;
            }
            i = i + 1;
        }
        proof {
            assert(self.hunks@.take(self.hunks@.len() as int) =~= self.hunks@);
        }
        self.additions = adds;
        self.deletions = dels;
    }
}

/// Sum of the stored addition counts of a file sequence.
pub open spec fn sum_additions(files: Seq<FileDiff>) -> nat
    decreases files,
{
    if files.len() == 0 {
        0
    } else {
        files[0].additions as nat + sum_additions(files.skip(1))
    }
}

/// Sum of the stored deletion counts of a file sequence.
pub open spec fn sum_deletions(files: Seq<FileDiff>) -> nat
    decreases files,
{
    if files.len() == 0 {
        0
    } else {
        files[0].deletions as nat + sum_deletions(files.skip(1))
    }
}

proof fn lemma_sum_additions_snoc(files: Seq<FileDiff>, i: int)
    requires
        0 <= i < files.len(),
    ensures
        sum_additions(files.take(i + 1)) == sum_additions(files.take(i)) + files[i].additions,
        sum_deletions(files.take(i + 1)) == sum_deletions(files.take(i)) + files[i].deletions,
    decreases i + 1,
{
    let a = files.take(i + 1);
    if i == 0 {
        assert(a.skip(1) =~= files.take(0));
    } else {
        lemma_sum_additions_snoc(files.skip(1), i - 1);
        assert(a.skip(1) =~= files.skip(1).take(i));
        assert(files.take(i).skip(1) =~= files.skip(1).take(i - 1));
        assert(a[0] == files[0]);
        assert(files.take(i)[0] == files[0]);
        assert(files.skip(1)[i - 1] == files[i]);
    }
}

/// The whole loaded diff of one pull request.
#[derive(Debug, Clone)]
pub struct PullRequestDiff {
    /// Base reference the diff was computed against.
    pub base_ref: String,
    /// Head reference of the pull request.
    pub head_ref: String,
    /// The changed files, in order.
    pub files: Vec<FileDiff>,
    /// Total added lines over all files.
    pub additions: usize,
    /// Total deleted lines over all files.
    pub deletions: usize,
}

impl PullRequestDiff {
    /// An empty diff between the two references.
    pub fn new(base_ref: &str, head_ref: &str) -> (r: PullRequestDiff)
        ensures
            r.base_ref@ == base_ref@,
            r.head_ref@ == head_ref@,
            r.files@ == Seq::<FileDiff>::empty(),
            r.additions == 0,
            r.deletions == 0,
    {
        PullRequestDiff {
            base_ref: base_ref.to_owned(),
            head_ref: head_ref.to_owned(),
            files: Vec::new(),
            additions: 0,
            deletions: 0,
        }
    }

    /// Recomputes the aggregate totals from the per-file counts,
    /// saturating at `usize::MAX`.
    pub fn recalculate_totals(&mut self)
        ensures
            final(self).additions == clamp_usize(sum_additions(old(self).files@)),
            final(self).deletions == clamp_usize(sum_deletions(old(self).files@)),
            final(self).base_ref == old(self).base_ref,
            final(self).head_ref == old(self).head_ref,
            final(self).files == old(self).files,
    {
        let mut adds: usize = 0;
        let mut dels: usize = 0;
        let mut i: usize = 0;
        while i < self.files.len()
            invariant
                i <= self.files@.len(),
                *self == *old(self),
                adds == clamp_usize(sum_additions(self.files@.take(i as int))),
                dels == clamp_usize(sum_deletions(self.files@.take(i as int))),
            decreases self.files@.len() - i,
        {
            proof {
                lemma_sum_additions_snoc(self.files@, i as int);
            }
            let fa = self.files[i].additions;
            let fd = self.files[i].deletions;
            if fa > usize::MAX - adds {
                adds = usize::MAX;
            } else {
                adds = adds + fa;
            }
            if fd > usize::MAX - dels {
                dels = usize::MAX;
            } else {
                dels = dels + fd;
            }
            i = i + 1;
        }
        proof {
            assert(self.files@.take(self.files@.len() as int) =~= self.files@);
        }
        self.additions = adds;
        self.deletions = dels;
    }
}

impl DiffLine {
    /// An exact copy of this line.
    pub fn duplicate(&self) -> (r: DiffLine)
        ensures
            r == *self,
    {
        DiffLine {
            content: self.content.clone(),
            kind: self.kind,
            old_line: self.old_line,
            new_line: self.new_line,
            is_expanded: self.is_expanded,
        }
    }
}

impl Hunk {
    /// A copy of this hunk, equal in the model.
    pub fn duplicate(&self) -> (r: Hunk)
        ensures
            r.to_view() == self.to_view(),
    {
        let mut lines: Vec<DiffLine> = Vec::new();
        let n = self.lines.len();
        let mut i: usize = 0;
        while i < n
            invariant
                i <= n,
                n == self.lines@.len(),
                lines@ == self.lines@.take(i as int),
            decreases n - i,
        {
            proof {
                assert(self.lines@.take(i + 1) =~= self.lines@.take(i as int).push(
                    self.lines@[i as int],
                ));
            }
            lines.push(self.lines[i].duplicate());
            i = i + 1;
        }
        proof {
            assert(self.lines@.take(n as int) =~= self.lines@);
        }
        let r = Hunk {
            old_start: self.old_start,
            old_count: self.old_count,
            new_start: self.new_start,
            new_count: self.new_count,
            header: self.header.clone(),
            lines,
        };
        proof {
            assert(r.to_view() =~= self.to_view());
        }
        r
    }
}

impl FileDiff {
    /// A copy of this file diff, equal in the model.
    pub fn duplicate(&self) -> (r: FileDiff)
        ensures
            r.to_view() == self.to_view(),
    {
        let mut hunks: Vec<Hunk> = Vec::new();
        let n = self.hunks.len();
        let mut i: usize = 0;
        while i < n
            invariant
                i <= n,
                n == self.hunks@.len(),
                hunks_view(hunks@) == hunks_view(self.hunks@).take(i as int),
            decreases n - i,
        {
            let ghost before = hunks@;
            let d = self.hunks[i].duplicate();
            hunks.push(d);
            proof {
                assert(hunks_view(hunks@) =~~= hunks_view(before).push(d.to_view()));
                assert(hunks_view(self.hunks@)[i as int] == self.hunks@[i as int].to_view());
                assert(hunks_view(hunks@) =~~= hunks_view(self.hunks@).take(i + 1));
            }
            i = i + 1;
        }
        proof {
            assert(hunks_view(self.hunks@).take(n as int) =~= hunks_view(self.hunks@));
        }
        let r = FileDiff {
            path: self.path.clone(),
            status: self.status,
            additions: self.additions,
            deletions: self.deletions,
            hunks,
        };
        proof {
            assert(r.to_view() =~= self.to_view());
        }
        r
    }
}

impl PullRequestDiff {
    /// A copy of the whole diff, equal in the model.
    pub fn duplicate(&self) -> (r: PullRequestDiff)
        ensures
            r.to_view() == self.to_view(),
    {
        let mut files: Vec<FileDiff> = Vec::new();
        let n = self.files.len();
        let mut i: usize = 0;
        while i < n
            invariant
                i <= n,
                n == self.files@.len(),
                files_view(files@) == files_view(self.files@).take(i as int),
            decreases n - i,
        {
            let ghost before = files@;
            let d = self.files[i].duplicate();
            files.push(d);
            proof {
                assert(files_view(files@) =~~= files_view(before).push(d.to_view()));
                assert(files_view(self.files@)[i as int] == self.files@[i as int].to_view());
                assert(files_view(files@) =~~= files_view(self.files@).take(i + 1));
            }
            i = i + 1;
        }
        proof {
            assert(files_view(self.files@).take(n as int) =~= files_view(self.files@));
        }
        let r = PullRequestDiff {
            base_ref: self.base_ref.clone(),
            head_ref: self.head_ref.clone(),
            files,
            additions: self.additions,
            deletions: self.deletions,
        };
        proof {
            assert(r.to_view() =~= self.to_view());
        }
        r
    }
}

/// The mathematical model of a diff line.
#[verifier::ext_equal]
pub ghost struct LineView {
    pub content: Seq<char>,
    pub kind: LineKind,
    pub old_line: Option<usize>,
    pub new_line: Option<usize>,
    pub is_expanded: bool,
}

/// The mathematical model of a hunk.
#[verifier::ext_equal]
pub ghost struct HunkView {
    pub old_start: usize,
    pub old_count: usize,
    pub new_start: usize,
    pub new_count: usize,
    pub header: Seq<char>,
    pub lines: Seq<LineView>,
}

/// The mathematical model of a file diff.
#[verifier::ext_equal]
pub ghost struct FileDiffView {
    pub path: Seq<char>,
    pub status: FileStatus,
    pub additions: usize,
    pub deletions: usize,
    pub hunks: Seq<HunkView>,
}

/// The mathematical model of a whole loaded diff.
#[verifier::ext_equal]
pub ghost struct DiffView {
    pub base_ref: Seq<char>,
    pub head_ref: Seq<char>,
    pub files: Seq<FileDiffView>,
    pub additions: usize,
    pub deletions: usize,
}

impl DiffLine {
    pub open spec fn to_view(self) -> LineView {
        LineView {
            content: self.content@,
            kind: self.kind,
            old_line: self.old_line,
            new_line: self.new_line,
            is_expanded: self.is_expanded,
        }
    }
}

/// The models of a line sequence.
pub open spec fn lines_view(s: Seq<DiffLine>) -> Seq<LineView> {
    s.map_values(|l: DiffLine| l.to_view())
}

impl Hunk {
    pub open spec fn to_view(self) -> HunkView {
        HunkView {
            old_start: self.old_start,
            old_count: self.old_count,
            new_start: self.new_start,
            new_count: self.new_count,
            header: self.header@,
            lines: lines_view(self.lines@),
        }
    }
}

/// The models of a hunk sequence.
pub open spec fn hunks_view(s: Seq<Hunk>) -> Seq<HunkView> {
    s.map_values(|h: Hunk| h.to_view())
}

impl FileDiff {
    pub open spec fn to_view(self) -> FileDiffView {
        FileDiffView {
            path: self.path@,
            status: self.status,
            additions: self.additions,
            deletions: self.deletions,
            hunks: hunks_view(self.hunks@),
        }
    }
}

/// The models of a file sequence.
pub open spec fn files_view(s: Seq<FileDiff>) -> Seq<FileDiffView> {
    s.map_values(|f: FileDiff| f.to_view())
}

impl PullRequestDiff {
    pub open spec fn to_view(self) -> DiffView {
        DiffView {
            base_ref: self.base_ref@,
            head_ref: self.head_ref@,
            files: files_view(self.files@),
            additions: self.additions,
            deletions: self.deletions,
        }
    }
}

/// Where a pending comment is anchored: a file and an effective line
/// number in it.
#[derive(Debug, Clone)]
pub struct CommentPosition {
    /// Path of the file the comment belongs to.
    pub path: String,
    /// Effective line number: the new line number when present, else the
    /// old one.
    pub line: usize,
}

/// An unsaved comment attached to a diff position, aggregated at
/// review-submission time.
#[derive(Debug, Clone)]
pub struct PendingComment {
    /// Where the comment is anchored.
    pub position: CommentPosition,
    /// Free text of the comment.
    pub body: String,
}

/// The mathematical model of a pending comment.
#[verifier::ext_equal]
pub ghost struct CommentView {
    pub path: Seq<char>,
    pub line: usize,
    pub body: Seq<char>,
}

impl PendingComment {
    pub open spec fn to_view(self) -> CommentView {
        CommentView { path: self.position.path@, line: self.position.line, body: self.body@ }
    }
}

/// The models of a pending-comment sequence.
pub open spec fn comments_view(s: Seq<PendingComment>) -> Seq<CommentView> {
    s.map_values(|c: PendingComment| c.to_view())
}

/// The effective line number of a line model: the new line number when
/// present, else the old one.
pub open spec fn line_effective(l: LineView) -> Option<usize> {
    if l.new_line is Some {
        l.new_line
    } else {
        l.old_line
    }
}

} // verus!
