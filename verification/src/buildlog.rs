//! The build-log panel: a three-level workflow/job/step tree with log
//! lines, a path-identified cursor over its visible rows, expand and
//! collapse state, and error-to-error navigation.

use vstd::prelude::*;

use crate::text::contains_seq;
use crate::text::contains_str;
use crate::text::lower_of;
use crate::text::lowercase;

verus! {

/// One line of a step's log.
#[derive(Debug, Clone)]
pub struct LogLine {
    /// The line's display text.
    pub display_content: String,
    /// `Some(b)` when the line carries a parsed workflow command, with
    /// `b` saying whether it is an error command; `None` for plain text.
    pub command_is_error: Option<bool>,
}

/// One step of a job, with its log lines.
#[derive(Debug, Clone)]
pub struct StepNode {
    /// Step name.
    pub name: String,
    /// Number of errors found in this step's log.
    pub error_count: usize,
    /// The step's log lines, in order.
    pub lines: Vec<LogLine>,
}

/// One job of a workflow, with its steps.
#[derive(Debug, Clone)]
pub struct JobNode {
    /// Job name.
    pub name: String,
    /// Number of errors found across the job's log.
    pub error_count: usize,
    /// The job's steps, in order.
    pub steps: Vec<StepNode>,
}

/// One workflow run, with its jobs.
#[derive(Debug, Clone)]
pub struct WorkflowNode {
    /// Workflow name.
    pub name: String,
    /// The workflow's jobs, in order.
    pub jobs: Vec<JobNode>,
}

/// The mathematical model of a log line.
#[verifier::ext_equal]
pub ghost struct LogLineV {
    pub content: Seq<char>,
    pub command_is_error: Option<bool>,
}

/// The mathematical model of a step.
#[verifier::ext_equal]
pub ghost struct StepV {
    pub error_count: usize,
    pub lines: Seq<LogLineV>,
}

/// The mathematical model of a job.
#[verifier::ext_equal]
pub ghost struct JobV {
    pub error_count: usize,
    pub steps: Seq<StepV>,
}

/// The mathematical model of a workflow.
#[verifier::ext_equal]
pub ghost struct WorkflowV {
    pub jobs: Seq<JobV>,
}

impl LogLine {
    pub open spec fn to_view(self) -> LogLineV {
        LogLineV { content: self.display_content@, command_is_error: self.command_is_error }
    }
}

impl StepNode {
    pub open spec fn to_view(self) -> StepV {
        StepV {
            error_count: self.error_count,
            lines: self.lines@.map_values(|l: LogLine| l.to_view()),
        }
    }
}

impl JobNode {
    pub open spec fn to_view(self) -> JobV {
        JobV {
            error_count: self.error_count,
            steps: self.steps@.map_values(|st: StepNode| st.to_view()),
        }
    }
}

impl WorkflowNode {
    pub open spec fn to_view(self) -> WorkflowV {
        WorkflowV { jobs: self.jobs@.map_values(|j: JobNode| j.to_view()) }
    }
}

/// The build-log panel state.
#[derive(Debug, Clone)]
pub struct LogPanel {
    /// The workflow tree shown.
    pub workflows: Vec<WorkflowNode>,
    /// The paths whose nodes are expanded.
    pub expanded_nodes: Vec<Vec<usize>>,
    /// The cursor, as a path: [workflow], [workflow, job],
    /// [workflow, job, step] or [workflow, job, step, line].
    pub cursor_path: Vec<usize>,
    /// First visible row.
    pub scroll_offset: usize,
    /// Rows visible on screen.
    pub viewport_height: usize,
    /// Columns scrolled off to the left, for long lines.
    pub horizontal_scroll: usize,
}

/// The mathematical model of the panel.
#[verifier::ext_equal]
pub ghost struct PanelV {
    pub workflows: Seq<WorkflowV>,
    pub expanded: Seq<Seq<usize>>,
    pub cursor: Seq<usize>,
    pub scroll: usize,
    pub height: usize,
}

pub open spec fn panel_view(p: LogPanel) -> PanelV {
    PanelV {
        workflows: p.workflows@.map_values(|w: WorkflowNode| w.to_view()),
        expanded: p.expanded_nodes@.map_values(|q: Vec<usize>| q@),
        cursor: p.cursor_path@,
        scroll: p.scroll_offset,
        height: p.viewport_height,
    }
}

/// Whether a path is in the expansion set.
pub open spec fn path_in(set: Seq<Seq<usize>>, p: Seq<usize>) -> bool {
    exists|i: int| 0 <= i < set.len() && set[i] == p
}

/// The first index of `p` in a path list, or -1.
pub open spec fn path_index(s: Seq<Seq<usize>>, p: Seq<usize>) -> int
    decreases s,
{
    if s.len() == 0 {
        -1
    } else if s[0] == p {
        0
    } else {
        let r = path_index(s.skip(1), p);
        if r == -1 {
            -1
        } else {
            r + 1
        }
    }
}

pub proof fn lemma_path_index(s: Seq<Seq<usize>>, p: Seq<usize>)
    ensures
        path_index(s, p) == -1 ==> forall|i: int| 0 <= i < s.len() ==> (#[trigger] s[i]) != p,
        path_index(s, p) != -1 ==> {
            let j = path_index(s, p);
            &&& 0 <= j < s.len()
            &&& s[j] == p
            &&& forall|i: int| 0 <= i < j ==> (#[trigger] s[i]) != p
        },
    decreases s,
{
    if s.len() > 0 {
        lemma_path_index(s.skip(1), p);
        assert(forall|i: int| 1 <= i < s.len() ==> s.skip(1)[i - 1] == #[trigger] s[i]);
    }
}

impl PanelV {
    /// The rows a step contributes: its own path and, when it is
    /// expanded, one path per log line.
    pub open spec fn vis_steps(self, w: int, j: int, s: int) -> Seq<Seq<usize>>
        decreases self.workflows[w].jobs[j].steps.len() - s,
        when 0 <= w < self.workflows.len() && 0 <= j < self.workflows[w].jobs.len() && 0 <= s
            <= self.workflows[w].jobs[j].steps.len()
            && self.workflows[w].jobs[j].steps.len() <= usize::MAX
    {
        let steps = self.workflows[w].jobs[j].steps;
        if s == steps.len() {
            Seq::empty()
        } else {
            seq![seq![w as usize, j as usize, s as usize]] + (if path_in(
                self.expanded,
                seq![w as usize, j as usize, s as usize],
            ) {
                Seq::new(
                    steps[s].lines.len(),
                    |l: int| seq![w as usize, j as usize, s as usize, l as usize],
                )
            } else {
                Seq::empty()
            }) + self.vis_steps(w, j, s + 1)
        }
    }

    /// The rows a job contributes: its own path and, when it is
    /// expanded, its steps' rows.
    pub open spec fn vis_jobs(self, w: int, j: int) -> Seq<Seq<usize>>
        decreases self.workflows[w].jobs.len() - j,
        when 0 <= w < self.workflows.len() && 0 <= j <= self.workflows[w].jobs.len()
            && self.workflows[w].jobs.len() <= usize::MAX
    {
        if j == self.workflows[w].jobs.len() {
            Seq::empty()
        } else {
            seq![seq![w as usize, j as usize]] + (if path_in(
                self.expanded,
                seq![w as usize, j as usize],
            ) {
                self.vis_steps(w, j, 0)
            } else {
                Seq::empty()
            }) + self.vis_jobs(w, j + 1)
        }
    }

    /// The rows the workflows from `w` on contribute.
    pub open spec fn vis_workflows(self, w: int) -> Seq<Seq<usize>>
        decreases self.workflows.len() - w,
        when 0 <= w <= self.workflows.len() && self.workflows.len() <= usize::MAX
    {
        if w == self.workflows.len() {
            Seq::empty()
        } else {
            seq![seq![w as usize]] + (if path_in(self.expanded, seq![w as usize]) {
                self.vis_jobs(w, 0)
            } else {
                Seq::empty()
            }) + self.vis_workflows(w + 1)
        }
    }

    /// The paths of all visible rows, in display order.
    pub open spec fn visible(self) -> Seq<Seq<usize>> {
        self.vis_workflows(0)
    }

    /// The scroll offset after a downward move to row `idx`: pulled down
    /// just enough when the row fell below the window.
    pub open spec fn scroll_after_down(self, idx: int) -> usize {
        let page: int = if self.height > 0 {
            self.height - 1
        } else {
            0
        };
        if idx > self.scroll + page {
            (idx - page) as usize
        } else {
            self.scroll
        }
    }

    /// The scroll offset keeping row `idx` in view, moved in either
    /// direction as needed.
    pub open spec fn scroll_into_view(self, idx: int) -> usize {
        scroll_into_view_at(self.scroll, self.height, idx)
    }

    /// One step down the visible rows: the cursor moves to the next row
    /// when it sits on one and a next row exists; the scroll follows.
    pub open spec fn nav_down(self) -> PanelV {
        let vis = self.visible();
        if vis.len() == 0 {
            self
        } else {
            let ci = path_index(vis, self.cursor);
            if ci >= 0 && ci < vis.len() - 1 {
                PanelV { cursor: vis[ci + 1], scroll: self.scroll_after_down(ci + 1), ..self }
            } else {
                self
            }
        }
    }

    /// One step up the visible rows; the scroll follows.
    pub open spec fn nav_up(self) -> PanelV {
        let vis = self.visible();
        if vis.len() == 0 {
            self
        } else {
            let ci = path_index(vis, self.cursor);
            if ci > 0 {
                PanelV {
                    cursor: vis[ci - 1],
                    scroll: if ci - 1 < self.scroll {
                        (ci - 1) as usize
                    } else {
                        self.scroll
                    },
                    ..self
                }
            } else {
                self
            }
        }
    }

    /// Toggling the cursor's node: its path leaves the expansion set
    /// when present (first occurrence removed), else joins it.
    pub open spec fn toggled_at_cursor(self) -> PanelV {
        if path_in(self.expanded, self.cursor) {
            PanelV {
                expanded: self.expanded.remove(path_index(self.expanded, self.cursor)),
                ..self
            }
        } else {
            PanelV { expanded: self.expanded.push(self.cursor), ..self }
        }
    }
}

/// The scroll offset keeping row `idx` in view, moved in either
/// direction as needed.
pub open spec fn scroll_into_view_at(scroll: usize, height: usize, idx: int) -> usize {
    let page: int = if height > 0 {
        height - 1
    } else {
        0
    };
    if idx > scroll + page {
        (idx - page) as usize
    } else if idx < scroll {
        idx as usize
    } else {
        scroll
    }
}

/// Whether a log line is an error: a parsed error command, or plain
/// text whose lowercase form holds "error:".
pub open spec fn line_is_error(l: LogLineV) -> bool {
    match l.command_is_error {
        Some(b) => b,
        None => contains_seq(lower_of(l.content), "error:"@),
    }
}

/// The first error line at or after `from`, or -1.
pub open spec fn first_error_line(lines: Seq<LogLineV>, from: int) -> int
    decreases lines.len() - from,
    when 0 <= from <= lines.len() && lines.len() <= usize::MAX
{
    if from == lines.len() {
        -1
    } else if line_is_error(lines[from]) {
        from
    } else {
        first_error_line(lines, from + 1)
    }
}

/// The last error line strictly before `upto`, or -1.
pub open spec fn last_error_line(lines: Seq<LogLineV>, upto: int) -> int
    decreases upto,
    when 0 <= upto <= lines.len()
{
    if upto == 0 {
        -1
    } else if line_is_error(lines[upto - 1]) {
        upto - 1
    } else {
        last_error_line(lines, upto - 1)
    }
}

impl PanelV {
    /// The paths of jobs and steps that hold errors, in tree order.
    pub open spec fn error_paths(self) -> Seq<Seq<usize>> {
        self.err_workflows(0)
    }

    pub open spec fn err_workflows(self, w: int) -> Seq<Seq<usize>>
        decreases self.workflows.len() - w,
        when 0 <= w <= self.workflows.len() && self.workflows.len() <= usize::MAX
    {
        if w == self.workflows.len() {
            Seq::empty()
        } else {
            self.err_jobs(w, 0) + self.err_workflows(w + 1)
        }
    }

    pub open spec fn err_jobs(self, w: int, j: int) -> Seq<Seq<usize>>
        decreases self.workflows[w].jobs.len() - j,
        when 0 <= w < self.workflows.len() && 0 <= j <= self.workflows[w].jobs.len()
            && self.workflows[w].jobs.len() <= usize::MAX
    {
        if j == self.workflows[w].jobs.len() {
            Seq::empty()
        } else {
            (if self.workflows[w].jobs[j].error_count > 0 {
                seq![seq![w as usize, j as usize]]
            } else {
                Seq::empty()
            }) + self.err_steps(w, j, 0) + self.err_jobs(w, j + 1)
        }
    }

    pub open spec fn err_steps(self, w: int, j: int, s: int) -> Seq<Seq<usize>>
        decreases self.workflows[w].jobs[j].steps.len() - s,
        when 0 <= w < self.workflows.len() && 0 <= j < self.workflows[w].jobs.len() && 0 <= s
            <= self.workflows[w].jobs[j].steps.len()
            && self.workflows[w].jobs[j].steps.len() <= usize::MAX
    {
        let steps = self.workflows[w].jobs[j].steps;
        if s == steps.len() {
            Seq::empty()
        } else {
            (if steps[s].error_count > 0 {
                seq![seq![w as usize, j as usize, s as usize]]
            } else {
                Seq::empty()
            }) + self.err_steps(w, j, s + 1)
        }
    }

    /// The first visible row strictly after `from` whose path holds
    /// errors, or -1.
    pub open spec fn next_error_index(self, vis: Seq<Seq<usize>>, from: int) -> int
        decreases vis.len() - from,
        when 0 <= from <= vis.len() && vis.len() <= usize::MAX
    {
        if from == vis.len() {
            -1
        } else if path_in(self.error_paths(), vis[from]) {
            from
        } else {
            self.next_error_index(vis, from + 1)
        }
    }

    /// The last visible row strictly before `upto` whose path holds
    /// errors, or -1.
    pub open spec fn prev_error_index(self, vis: Seq<Seq<usize>>, upto: int) -> int
        decreases upto,
        when 0 <= upto <= vis.len()
    {
        if upto == 0 {
            -1
        } else if path_in(self.error_paths(), vis[upto - 1]) {
            upto - 1
        } else {
            self.prev_error_index(vis, upto - 1)
        }
    }

    /// The step the cursor sits in, when its first three indices are
    /// valid.
    pub open spec fn cursor_step(self) -> Option<StepV> {
        if self.cursor.len() >= 3 && self.cursor[0] < self.workflows.len() && self.cursor[1]
            < self.workflows[self.cursor[0] as int].jobs.len() && self.cursor[2] < self.workflows[
            self.cursor[0] as int
        ].jobs[self.cursor[1] as int].steps.len() {
            Some(
                self.workflows[self.cursor[0] as int].jobs[self.cursor[1] as int].steps[
                    self.cursor[2] as int
                ],
            )
        } else {
            None
        }
    }

    /// The error line the forward search finds inside the cursor's own
    /// expanded step, if any: the first error line after the cursor.
    pub open spec fn next_error_in_step(self) -> Option<Seq<usize>> {
        match self.cursor_step() {
            Some(st) => if path_in(self.expanded, self.cursor.take(3)) && st.lines.len()
                <= usize::MAX {
                let from: int = if self.cursor.len() == 4 {
                    self.cursor[3] + 1
                } else {
                    0
                };
                if 0 <= from <= st.lines.len() {
                    let li = first_error_line(st.lines, from);
                    if li >= 0 {
                        Some(self.cursor.take(3).push(li as usize))
                    } else {
                        None
                    }
                } else {
                    None
                }
            } else {
                None
            },
            None => None,
        }
    }

    /// The error line the backward search finds inside the cursor's own
    /// expanded step, if any: the last error line before the cursor.
    pub open spec fn prev_error_in_step(self) -> Option<Seq<usize>> {
        match self.cursor_step() {
            Some(st) => if path_in(self.expanded, self.cursor.take(3)) && st.lines.len()
                <= usize::MAX {
                let upto: int = if self.cursor.len() == 4 {
                    self.cursor[3] as int
                } else {
                    st.lines.len() as int
                };
                if 0 <= upto <= st.lines.len() {
                    let li = last_error_line(st.lines, upto);
                    if li >= 0 {
                        Some(self.cursor.take(3).push(li as usize))
                    } else {
                        None
                    }
                } else {
                    None
                }
            } else {
                None
            },
            None => None,
        }
    }

    /// The panel after jumping to the next error: first the next error
    /// line inside the cursor's expanded step; else the next visible
    /// row with errors after the cursor; else wrap to the first.
    pub open spec fn next_error_state(self) -> PanelV {
        let vis = self.visible();
        match self.next_error_in_step() {
            Some(p) => {
                let idx = path_index(vis, p);
                if idx >= 0 {
                    PanelV { cursor: p, scroll: self.scroll_into_view(idx), ..self }
                } else {
                    self
                }
            },
            None => {
                let eps = self.error_paths();
                if eps.len() == 0 || vis.len() > usize::MAX {
                    self
                } else {
                    let ci = path_index(vis, self.cursor);
                    let ni: int = if ci >= 0 {
                        self.next_error_index(vis, ci + 1)
                    } else {
                        -1
                    };
                    if ni >= 0 {
                        PanelV { cursor: vis[ni], scroll: self.scroll_into_view(ni), ..self }
                    } else {
                        let wi = path_index(vis, eps[0]);
                        if wi >= 0 {
                            PanelV { cursor: eps[0], scroll: wi as usize, ..self }
                        } else {
                            self
                        }
                    }
                }
            },
        }
    }

    /// The panel after jumping to the previous error: first the previous
    /// error line inside the cursor's expanded step; else the previous
    /// visible row with errors before the cursor; else wrap to the last.
    pub open spec fn prev_error_state(self) -> PanelV {
        let vis = self.visible();
        match self.prev_error_in_step() {
            Some(p) => {
                let idx = path_index(vis, p);
                if idx >= 0 {
                    PanelV { cursor: p, scroll: self.scroll_into_view(idx), ..self }
                } else {
                    self
                }
            },
            None => {
                let eps = self.error_paths();
                if eps.len() == 0 || vis.len() > usize::MAX {
                    self
                } else {
                    let ci = path_index(vis, self.cursor);
                    let pi: int = if ci >= 0 {
                        self.prev_error_index(vis, ci)
                    } else {
                        -1
                    };
                    if pi >= 0 {
                        PanelV { cursor: vis[pi], scroll: self.scroll_into_view(pi), ..self }
                    } else {
                        let wi = path_index(vis, eps.last());
                        if wi >= 0 {
                            PanelV {
                                cursor: eps.last(),
                                scroll: self.scroll_into_view(wi),
                                ..self
                            }
                        } else {
                            self
                        }
                    }
                }
            },
        }
    }
}

/// True when the two paths are equal.
fn paths_equal(a: &Vec<usize>, b: &Vec<usize>) -> (r: bool)
    ensures
        r == (a@ == b@),
{
    if a.len() != b.len() {
        proof {
            assert(a@.len() != b@.len());
        }
        return false;
    }
    let n = a.len();
    let mut i: usize = 0;
    while i < n
        invariant
            i <= n,
            n == a@.len(),
            n == b@.len(),
            forall|q: int| 0 <= q < i ==> a@[q] == b@[q],
        decreases n - i,
    {
        if a[i] != b[i] {
            return false;
        }
        i = i + 1;
    }
    proof {
        assert(a@ =~= b@);
    }
    true
}

/// A copy of a path.
fn dup_path(p: &Vec<usize>) -> (r: Vec<usize>)
    ensures
        r@ == p@,
{
    let mut out: Vec<usize> = Vec::new();
    let n = p.len();
    let mut i: usize = 0;
    while i < n
        invariant
            i <= n,
            n == p@.len(),
            out@ == p@.take(i as int),
        decreases n - i,
    {
        proof {
            assert(p@.take(i + 1) =~= p@.take(i as int).push(p@[i as int]));
        }
        out.push(p[i]);
        i = i + 1;
    }
    proof {
        assert(p@.take(n as int) =~= p@);
    }
    out
}

/// The first index of `p` in `list`, or none.
#[verifier::loop_isolation(false)]
fn find_path_index(list: &Vec<Vec<usize>>, p: &Vec<usize>) -> (r: Option<usize>)
    ensures
        ({
            let s = list@.map_values(|q: Vec<usize>| q@);
            match r {
                Some(j) => path_index(s, p@) == j,
                None => path_index(s, p@) == -1,
            }
        }),
{
    let ghost s = list@.map_values(|q: Vec<usize>| q@);
    proof {
        lemma_path_index(s, p@);
    }
    let n = list.len();
    let mut j: usize = 0;
    while j < n
        invariant
            j <= n,
            n == list@.len(),
            forall|q: int| 0 <= q < j ==> (#[trigger] s[q]) != p@,
        decreases n - j,
    {
        proof {
            assert(s[j as int] == list@[j as int]@);
        }
        if paths_equal(&list[j], p) {
            proof {
                let f = path_index(s, p@);
                if f == -1 {
                    assert(s[j as int] != p@);
                } else if f < j {
                    assert(s[f] != p@);
                } else if f > j {
                    assert(s[j as int] != p@);
                }
            }
            return Some(j);
        }
        j = j + 1;
    }
    None
}

impl LogPanel {
    /// Whether the node at `path` is expanded.
    pub fn is_expanded(&self, path: &Vec<usize>) -> (r: bool)
        ensures
            r == path_in(panel_view(*self).expanded, path@),
    {
        match find_path_index(&self.expanded_nodes, path) {
            Some(j) => {
                proof {
                    lemma_path_index(panel_view(*self).expanded, path@);
                }
                true
            },
            None => {
                proof {
                    lemma_path_index(panel_view(*self).expanded, path@);
                }
                false
            },
        }
    }

    /// The rows of the steps of job `j` of workflow `w`, from step `s`
    /// on.
    fn visible_steps_from(&self, w: usize, j: usize, s: usize) -> (r: Vec<Vec<usize>>)
        requires
            w < self.workflows@.len(),
            j < self.workflows@[w as int].jobs@.len(),
            s <= self.workflows@[w as int].jobs@[j as int].steps@.len(),
        ensures
            r@.map_values(|q: Vec<usize>| q@) == panel_view(*self).vis_steps(
                w as int,
                j as int,
                s as int,
            ),
        decreases self.workflows@[w as int].jobs@[j as int].steps@.len() - s,
    {
        let ghost v = panel_view(*self);
        proof {
            assert(v.workflows[w as int] == self.workflows@[w as int].to_view());
            assert(v.workflows[w as int].jobs[j as int]
                == self.workflows@[w as int].jobs@[j as int].to_view());
        }
        let nsteps = self.workflows[w].jobs[j].steps.len();
        if s >= nsteps {
            let r: Vec<Vec<usize>> = Vec::new();
            proof {
                assert(r@.map_values(|q: Vec<usize>| q@) =~= v.vis_steps(w as int, j as int, s as int));
            }
            return r;
        }
        let mut own: Vec<usize> = Vec::new();
        own.push(w);
        own.push(j);
        own.push(s);
        proof {
            assert(own@ =~= seq![w, j, s]);
        }
        let mut head: Vec<Vec<usize>> = Vec::new();
        let expanded_here = self.is_expanded(&own);
        head.push(own);
        if expanded_here {
            let nlines = self.workflows[w].jobs[j].steps[s].lines.len();
            proof {
                assert(v.workflows[w as int].jobs[j as int].steps[s as int]
                    == self.workflows@[w as int].jobs@[j as int].steps@[s as int].to_view());
            }
            let mut l: usize = 0;
            while l < nlines
                invariant
                    l <= nlines,
                    head@.map_values(|q: Vec<usize>| q@) =~= seq![seq![w, j, s]] + Seq::new(
                        l as nat,
                        |t: int| seq![w, j, s, t as usize],
                    ),
                decreases nlines - l,
            {
                let mut lp: Vec<usize> = Vec::new();
                lp.push(w);
                lp.push(j);
                lp.push(s);
                lp.push(l);
                let ghost before = head@.map_values(|q: Vec<usize>| q@);
                head.push(lp);
                proof {
                    assert(head@.map_values(|q: Vec<usize>| q@) =~~= before.push(
                        seq![w, j, s, l],
                    ));
                    assert(head@.map_values(|q: Vec<usize>| q@) =~~= seq![seq![w, j, s]]
                        + Seq::new((l + 1) as nat, |t: int| seq![w, j, s, t as usize]));
                }
                l = l + 1;
            }
        }
        let mut tail = self.visible_steps_from(w, j, s + 1);
        let ghost head_views = head@.map_values(|q: Vec<usize>| q@);
        let ghost tail_views = tail@.map_values(|q: Vec<usize>| q@);
        head.append(&mut tail);
        proof {
            assert(head@.map_values(|q: Vec<usize>| q@) =~~= head_views + tail_views);
            assert(head_views + tail_views =~~= v.vis_steps(w as int, j as int, s as int));
        }
        head
    }

    /// The rows of the jobs of workflow `w`, from job `j` on.
    fn visible_jobs_from(&self, w: usize, j: usize) -> (r: Vec<Vec<usize>>)
        requires
            w < self.workflows@.len(),
            j <= self.workflows@[w as int].jobs@.len(),
        ensures
            r@.map_values(|q: Vec<usize>| q@) == panel_view(*self).vis_jobs(w as int, j as int),
        decreases self.workflows@[w as int].jobs@.len() - j,
    {
        let ghost v = panel_view(*self);
        proof {
            assert(v.workflows[w as int] == self.workflows@[w as int].to_view());
        }
        let njobs = self.workflows[w].jobs.len();
        if j >= njobs {
            let r: Vec<Vec<usize>> = Vec::new();
            proof {
                assert(r@.map_values(|q: Vec<usize>| q@) =~= v.vis_jobs(w as int, j as int));
            }
            return r;
        }
        let mut own: Vec<usize> = Vec::new();
        own.push(w);
        own.push(j);
        proof {
            assert(own@ =~= seq![w, j]);
        }
        let expanded_here = self.is_expanded(&own);
        let mut head: Vec<Vec<usize>> = Vec::new();
        head.push(own);
        if expanded_here {
            let mut steps = self.visible_steps_from(w, j, 0);
            let ghost head_views0 = head@.map_values(|q: Vec<usize>| q@);
            let ghost step_views = steps@.map_values(|q: Vec<usize>| q@);
            head.append(&mut steps);
            proof {
                assert(head@.map_values(|q: Vec<usize>| q@) =~~= head_views0 + step_views);
            }
        }
        let mut tail = self.visible_jobs_from(w, j + 1);
        let ghost head_views = head@.map_values(|q: Vec<usize>| q@);
        let ghost tail_views = tail@.map_values(|q: Vec<usize>| q@);
        head.append(&mut tail);
        proof {
            assert(head@.map_values(|q: Vec<usize>| q@) =~~= head_views + tail_views);
            assert(head_views + tail_views =~~= v.vis_jobs(w as int, j as int));
        }
        head
    }

    /// The rows of the workflows from `w` on.
    fn visible_workflows_from(&self, w: usize) -> (r: Vec<Vec<usize>>)
        requires
            w <= self.workflows@.len(),
        ensures
            r@.map_values(|q: Vec<usize>| q@) == panel_view(*self).vis_workflows(w as int),
        decreases self.workflows@.len() - w,
    {
        let ghost v = panel_view(*self);
        let nw = self.workflows.len();
        if w >= nw {
            let r: Vec<Vec<usize>> = Vec::new();
            proof {
                assert(r@.map_values(|q: Vec<usize>| q@) =~= v.vis_workflows(w as int));
            }
            return r;
        }
        let mut own: Vec<usize> = Vec::new();
        own.push(w);
        proof {
            assert(own@ =~= seq![w]);
        }
        let expanded_here = self.is_expanded(&own);
        let mut head: Vec<Vec<usize>> = Vec::new();
        head.push(own);
        if expanded_here {
            let mut jobs = self.visible_jobs_from(w, 0);
            let ghost head_views0 = head@.map_values(|q: Vec<usize>| q@);
            let ghost job_views = jobs@.map_values(|q: Vec<usize>| q@);
            head.append(&mut jobs);
            proof {
                assert(head@.map_values(|q: Vec<usize>| q@) =~~= head_views0 + job_views);
            }
        }
        let mut tail = self.visible_workflows_from(w + 1);
        let ghost head_views = head@.map_values(|q: Vec<usize>| q@);
        let ghost tail_views = tail@.map_values(|q: Vec<usize>| q@);
        head.append(&mut tail);
        proof {
            assert(head@.map_values(|q: Vec<usize>| q@) =~~= head_views + tail_views);
            assert(head_views + tail_views =~~= v.vis_workflows(w as int));
        }
        head
    }

    /// The paths of all visible rows, in display order: workflows, then
    /// expanded workflows' jobs, then expanded jobs' steps, then
    /// expanded steps' log lines.
    pub fn flatten_visible_nodes(&self) -> (r: Vec<Vec<usize>>)
        ensures
            r@.map_values(|q: Vec<usize>| q@) == panel_view(*self).visible(),
    {
        self.visible_workflows_from(0)
    }

    /// Expands or collapses the node under the cursor.
    pub fn toggle_at_cursor(&mut self)
        ensures
            panel_view(*final(self)) == panel_view(*old(self)).toggled_at_cursor(),
    {
        let ghost v = panel_view(*old(self));
        match find_path_index(&self.expanded_nodes, &self.cursor_path) {
            Some(j) => {
                proof {
                    lemma_path_index(v.expanded, v.cursor);
                }
                let ghost before = self.expanded_nodes@;
                let _removed = self.expanded_nodes.remove(j);
                proof {
                    assert(self.expanded_nodes@.map_values(|q: Vec<usize>| q@) =~~= before
                        .map_values(|q: Vec<usize>| q@).remove(j as int));
                    assert(panel_view(*self) =~= v.toggled_at_cursor());
                }
            },
            None => {
                proof {
                    lemma_path_index(v.expanded, v.cursor);
                }
                let copy = dup_path(&self.cursor_path);
                let ghost before = self.expanded_nodes@;
                self.expanded_nodes.push(copy);
                proof {
                    assert(self.expanded_nodes@.map_values(|q: Vec<usize>| q@) =~~= before
                        .map_values(|q: Vec<usize>| q@).push(v.cursor));
                    assert(panel_view(*self) =~= v.toggled_at_cursor());
                }
            },
        }
    }

    /// Moves the cursor one visible row down, the scroll following.
    pub fn navigate_down(&mut self)
        ensures
            panel_view(*final(self)) == panel_view(*old(self)).nav_down(),
    {
        let ghost v = panel_view(*old(self));
        let visible = self.flatten_visible_nodes();
        if visible.len() == 0 {
            proof {
                assert(panel_view(*self) =~= v.nav_down());
            }
            return ;
        }
        match find_path_index(&visible, &self.cursor_path) {
            Some(ci) => {
                proof {
                    lemma_path_index(visible@.map_values(|q: Vec<usize>| q@), self.cursor_path@);
                }
                if ci < visible.len() - 1 {
                    let ni = ci + 1;
                    self.cursor_path = dup_path(&visible[ni]);
                    let page: usize = if self.viewport_height > 0 {
                        self.viewport_height - 1
                    } else {
                        0
                    };
                    if ni > self.scroll_offset && ni - self.scroll_offset > page {
                        self.scroll_offset = ni - page;
                    }
                    proof {
                        assert(visible@.map_values(|q: Vec<usize>| q@)[ni as int]
                            == visible@[ni as int]@);
                        assert(panel_view(*self) =~= v.nav_down());
                    }
                } else {
                    proof {
                        assert(panel_view(*self) =~= v.nav_down());
                    }
                }
            },
            None => {
                proof {
                    assert(panel_view(*self) =~= v.nav_down());
                }
            },
        }
    }

    /// Moves the cursor one visible row up, the scroll following.
    pub fn navigate_up(&mut self)
        ensures
            panel_view(*final(self)) == panel_view(*old(self)).nav_up(),
    {
        let ghost v = panel_view(*old(self));
        let visible = self.flatten_visible_nodes();
        if visible.len() == 0 {
            proof {
                assert(panel_view(*self) =~= v.nav_up());
            }
            return ;
        }
        match find_path_index(&visible, &self.cursor_path) {
            Some(ci) => {
                proof {
                    lemma_path_index(visible@.map_values(|q: Vec<usize>| q@), self.cursor_path@);
                }
                if ci > 0 {
                    let ni = ci - 1;
                    self.cursor_path = dup_path(&visible[ni]);
                    if ni < self.scroll_offset {
                        self.scroll_offset = ni;
                    }
                    proof {
                        assert(visible@.map_values(|q: Vec<usize>| q@)[ni as int]
                            == visible@[ni as int]@);
                        assert(panel_view(*self) =~= v.nav_up());
                    }
                } else {
                    proof {
                        assert(panel_view(*self) =~= v.nav_up());
                    }
                }
            },
            None => {
                proof {
                    assert(panel_view(*self) =~= v.nav_up());
                }
            },
        }
    }
}

/// Whether this log line is an error.
fn line_is_error_exec(l: &LogLine) -> (r: bool)
    ensures
        r == line_is_error(l.to_view()),
{
    match l.command_is_error {
        Some(b) => b,
        None => {
            let low = lowercase(l.display_content.as_str());
            contains_str(low.as_str(), "error:")
        },
    }
}

/// Whether `p` occurs in the path list.
fn path_in_exec(list: &Vec<Vec<usize>>, p: &Vec<usize>) -> (r: bool)
    ensures
        r == path_in(list@.map_values(|q: Vec<usize>| q@), p@),
{
    let ghost s = list@.map_values(|q: Vec<usize>| q@);
    proof {
        lemma_path_index(s, p@);
    }
    match find_path_index(list, p) {
        Some(_) => true,
        None => false,
    }
}

/// The scroll offset keeping row `idx` in view.
fn scroll_into_view_exec(scroll: usize, height: usize, idx: usize) -> (r: usize)
    ensures
        r == scroll_into_view_at(scroll, height, idx as int),
{
    let page: usize = if height > 0 {
        height - 1
    } else {
        0
    };
    if idx > scroll && idx - scroll > page {
        idx - page
    } else if idx < scroll {
        idx
    } else {
        scroll
    }
}

impl LogPanel {
    /// The error-bearing paths of the steps of job `j` of workflow `w`,
    /// from step `s` on.
    fn error_steps_from(&self, w: usize, j: usize, s: usize) -> (r: Vec<Vec<usize>>)
        requires
            w < self.workflows@.len(),
            j < self.workflows@[w as int].jobs@.len(),
            s <= self.workflows@[w as int].jobs@[j as int].steps@.len(),
        ensures
            r@.map_values(|q: Vec<usize>| q@) == panel_view(*self).err_steps(
                w as int,
                j as int,
                s as int,
            ),
        decreases self.workflows@[w as int].jobs@[j as int].steps@.len() - s,
    {
        let ghost v = panel_view(*self);
        proof {
            assert(v.workflows[w as int] == self.workflows@[w as int].to_view());
            assert(v.workflows[w as int].jobs[j as int]
                == self.workflows@[w as int].jobs@[j as int].to_view());
        }
        let nsteps = self.workflows[w].jobs[j].steps.len();
        if s >= nsteps {
            let r: Vec<Vec<usize>> = Vec::new();
            proof {
                assert(r@.map_values(|q: Vec<usize>| q@) =~= v.err_steps(
                    w as int,
                    j as int,
                    s as int,
                ));
            }
            return r;
        }
        proof {
            assert(v.workflows[w as int].jobs[j as int].steps[s as int]
                == self.workflows@[w as int].jobs@[j as int].steps@[s as int].to_view());
        }
        let mut head: Vec<Vec<usize>> = Vec::new();
        if self.workflows[w].jobs[j].steps[s].error_count > 0 {
            let mut p: Vec<usize> = Vec::new();
            p.push(w);
            p.push(j);
            p.push(s);
            proof {
                assert(p@ =~= seq![w, j, s]);
            }
            head.push(p);
        }
        let mut tail = self.error_steps_from(w, j, s + 1);
        let ghost head_views = head@.map_values(|q: Vec<usize>| q@);
        let ghost tail_views = tail@.map_values(|q: Vec<usize>| q@);
        head.append(&mut tail);
        proof {
            assert(head@.map_values(|q: Vec<usize>| q@) =~~= head_views + tail_views);
            assert(head_views + tail_views =~~= v.err_steps(w as int, j as int, s as int));
        }
        head
    }

    /// The error-bearing paths of the jobs of workflow `w`, from job `j`
    /// on.
    fn error_jobs_from(&self, w: usize, j: usize) -> (r: Vec<Vec<usize>>)
        requires
            w < self.workflows@.len(),
            j <= self.workflows@[w as int].jobs@.len(),
        ensures
            r@.map_values(|q: Vec<usize>| q@) == panel_view(*self).err_jobs(w as int, j as int),
        decreases self.workflows@[w as int].jobs@.len() - j,
    {
        let ghost v = panel_view(*self);
        proof {
            assert(v.workflows[w as int] == self.workflows@[w as int].to_view());
        }
        let njobs = self.workflows[w].jobs.len();
        if j >= njobs {
            let r: Vec<Vec<usize>> = Vec::new();
            proof {
                assert(r@.map_values(|q: Vec<usize>| q@) =~= v.err_jobs(w as int, j as int));
            }
            return r;
        }
        proof {
            assert(v.workflows[w as int].jobs[j as int]
                == self.workflows@[w as int].jobs@[j as int].to_view());
        }
        let mut head: Vec<Vec<usize>> = Vec::new();
        if self.workflows[w].jobs[j].error_count > 0 {
            let mut p: Vec<usize> = Vec::new();
            p.push(w);
            p.push(j);
            proof {
                assert(p@ =~= seq![w, j]);
            }
            head.push(p);
        }
        let mut steps = self.error_steps_from(w, j, 0);
        let ghost head_views0 = head@.map_values(|q: Vec<usize>| q@);
        let ghost step_views = steps@.map_values(|q: Vec<usize>| q@);
        head.append(&mut steps);
        proof {
            assert(head@.map_values(|q: Vec<usize>| q@) =~~= head_views0 + step_views);
        }
        let mut tail = self.error_jobs_from(w, j + 1);
        let ghost head_views = head@.map_values(|q: Vec<usize>| q@);
        let ghost tail_views = tail@.map_values(|q: Vec<usize>| q@);
        head.append(&mut tail);
        proof {
            assert(head@.map_values(|q: Vec<usize>| q@) =~~= head_views + tail_views);
            assert(head_views + tail_views =~~= v.err_jobs(w as int, j as int));
        }
        head
    }

    /// The paths of all jobs and steps that hold errors, in tree order.
    fn collect_error_paths(&self) -> (r: Vec<Vec<usize>>)
        ensures
            r@.map_values(|q: Vec<usize>| q@) == panel_view(*self).error_paths(),
    {
        let ghost v = panel_view(*self);
        let nw = self.workflows.len();
        let mut out: Vec<Vec<usize>> = Vec::new();
        let mut w: usize = nw;
        proof {
            assert(out@.map_values(|q: Vec<usize>| q@) =~= v.err_workflows(nw as int));
        }
        while w > 0
            invariant
                w <= nw,
                nw == self.workflows@.len(),
                v == panel_view(*self),
                out@.map_values(|q: Vec<usize>| q@) == v.err_workflows(w as int),
            decreases w,
        {
            w = w - 1;
            let mut head = self.error_jobs_from(w, 0);
            let ghost head_views = head@.map_values(|q: Vec<usize>| q@);
            let ghost tail_views = out@.map_values(|q: Vec<usize>| q@);
            let mut tail = out;
            head.append(&mut tail);
            out = head;
            proof {
                assert(out@.map_values(|q: Vec<usize>| q@) =~~= head_views + tail_views);
                assert(head_views + tail_views =~~= v.err_workflows(w as int));
            }
        }
        out
    }

    /// The in-step forward search: the first error line after the
    /// cursor inside the cursor's own expanded step, if any.
    #[verifier::loop_isolation(false)]
    fn next_error_in_step_exec(&self) -> (r: Option<Vec<usize>>)
        ensures
            ({
                let spec_r = panel_view(*self).next_error_in_step();
                match r {
                    Some(p) => spec_r == Some(p@),
                    None => spec_r is None,
                }
            }),
    {
        let ghost v = panel_view(*self);
        if self.cursor_path.len() < 3 {
            return None;
        }
        let c0 = self.cursor_path[0];
        let c1 = self.cursor_path[1];
        let c2 = self.cursor_path[2];
        if c0 >= self.workflows.len() {
            return None;
        }
        proof {
            assert(v.workflows[c0 as int] == self.workflows@[c0 as int].to_view());
        }
        if c1 >= self.workflows[c0].jobs.len() {
            return None;
        }
        proof {
            assert(v.workflows[c0 as int].jobs[c1 as int]
                == self.workflows@[c0 as int].jobs@[c1 as int].to_view());
        }
        if c2 >= self.workflows[c0].jobs[c1].steps.len() {
            return None;
        }
        proof {
            assert(v.workflows[c0 as int].jobs[c1 as int].steps[c2 as int]
                == self.workflows@[c0 as int].jobs@[c1 as int].steps@[c2 as int].to_view());
        }
        let mut prefix: Vec<usize> = Vec::new();
        prefix.push(c0);
        prefix.push(c1);
        prefix.push(c2);
        proof {
            assert(prefix@ =~= v.cursor.take(3));
        }
        if !self.is_expanded(&prefix) {
            return None;
        }
        let ghost st = v.cursor_step()->Some_0;
        let nlines = self.workflows[c0].jobs[c1].steps[c2].lines.len();
        proof {
            assert(st.lines.len() == nlines);
        }
        let from: usize = if self.cursor_path.len() == 4 {
            let c3 = self.cursor_path[3];
            if c3 >= nlines {
                return None;
            }
            c3 + 1
        } else {
            0
        };
        let mut cur: usize = from;
        while cur < nlines
            invariant
                from <= cur <= nlines,
                prefix@ == v.cursor.take(3),
                first_error_line(st.lines, from as int) == first_error_line(st.lines, cur as int),
            decreases nlines - cur,
        {
            proof {
                assert(st.lines[cur as int] == self.workflows@[c0 as int].jobs@[c1 as int].steps@[
                    c2 as int
                ].lines@[cur as int].to_view());
            }
            let is_err = line_is_error_exec(&self.workflows[c0].jobs[c1].steps[c2].lines[cur]);
            if is_err {
                prefix.push(cur);
                proof {
                    assert(prefix@ =~= v.cursor.take(3).push(cur));
                    assert(first_error_line(st.lines, from as int) == cur);
                }
                return Some(prefix);
            }
            cur = cur + 1;
        }
        proof {
            assert(first_error_line(st.lines, from as int) == -1);
        }
        None
    }

    /// The in-step backward search: the last error line before the
    /// cursor inside the cursor's own expanded step, if any.
    #[verifier::loop_isolation(false)]
    fn prev_error_in_step_exec(&self) -> (r: Option<Vec<usize>>)
        ensures
            ({
                let spec_r = panel_view(*self).prev_error_in_step();
                match r {
                    Some(p) => spec_r == Some(p@),
                    None => spec_r is None,
                }
            }),
    {
        let ghost v = panel_view(*self);
        if self.cursor_path.len() < 3 {
            return None;
        }
        let c0 = self.cursor_path[0];
        let c1 = self.cursor_path[1];
        let c2 = self.cursor_path[2];
        if c0 >= self.workflows.len() {
            return None;
        }
        proof {
            assert(v.workflows[c0 as int] == self.workflows@[c0 as int].to_view());
        }
        if c1 >= self.workflows[c0].jobs.len() {
            return None;
        }
        proof {
            assert(v.workflows[c0 as int].jobs[c1 as int]
                == self.workflows@[c0 as int].jobs@[c1 as int].to_view());
        }
        if c2 >= self.workflows[c0].jobs[c1].steps.len() {
            return None;
        }
        proof {
            assert(v.workflows[c0 as int].jobs[c1 as int].steps[c2 as int]
                == self.workflows@[c0 as int].jobs@[c1 as int].steps@[c2 as int].to_view());
        }
        let mut prefix: Vec<usize> = Vec::new();
        prefix.push(c0);
        prefix.push(c1);
        prefix.push(c2);
        proof {
            assert(prefix@ =~= v.cursor.take(3));
        }
        if !self.is_expanded(&prefix) {
            return None;
        }
        let ghost st = v.cursor_step()->Some_0;
        let nlines = self.workflows[c0].jobs[c1].steps[c2].lines.len();
        proof {
            assert(st.lines.len() == nlines);
        }
        let upto: usize = if self.cursor_path.len() == 4 {
            let c3 = self.cursor_path[3];
            if c3 > nlines {
                return None;
            }
            c3
        } else {
            nlines
        };
        let mut cur: usize = upto;
        while cur > 0
            invariant
                cur <= upto <= nlines,
                prefix@ == v.cursor.take(3),
                last_error_line(st.lines, upto as int) == last_error_line(st.lines, cur as int),
            decreases cur,
        {
            proof {
                assert(st.lines[cur - 1] == self.workflows@[c0 as int].jobs@[c1 as int].steps@[
                    c2 as int
                ].lines@[cur - 1].to_view());
            }
            let is_err = line_is_error_exec(
                &self.workflows[c0].jobs[c1].steps[c2].lines[cur - 1],
            );
            if is_err {
                prefix.push(cur - 1);
                proof {
                    assert(prefix@ =~= v.cursor.take(3).push((cur - 1) as usize));
                    assert(last_error_line(st.lines, upto as int) == cur - 1);
                }
                return Some(prefix);
            }
            cur = cur - 1;
        }
        proof {
            assert(last_error_line(st.lines, upto as int) == -1);
        }
        None
    }

    /// The first visible row at or after `from` whose path holds errors.
    #[verifier::loop_isolation(false)]
    fn scan_error_forward(
        &self,
        visible: &Vec<Vec<usize>>,
        eps: &Vec<Vec<usize>>,
        from: usize,
    ) -> (r: Option<usize>)
        requires
            from <= visible@.len(),
            visible@.map_values(|q: Vec<usize>| q@) == panel_view(*self).visible(),
            eps@.map_values(|q: Vec<usize>| q@) == panel_view(*self).error_paths(),
        ensures
            ({
                let v = panel_view(*self);
                let vis = v.visible();
                match r {
                    Some(t) => t < visible@.len() && v.next_error_index(vis, from as int)
                        == t,
                    None => v.next_error_index(vis, from as int) == -1,
                }
            }),
    {
        let ghost v = panel_view(*self);
        let ghost vis = v.visible();
        let n = visible.len();
        let mut cur: usize = from;
        while cur < n
            invariant
                from <= cur <= n,
                v.next_error_index(vis, from as int) == v.next_error_index(vis, cur as int),
            decreases n - cur,
        {
            proof {
                assert(vis[cur as int] == visible@[cur as int]@);
            }
            if path_in_exec(eps, &visible[cur]) {
                proof {
                    assert(v.next_error_index(vis, cur as int) == cur);
                }
                return Some(cur);
            }
            cur = cur + 1;
        }
        None
    }

    /// The last visible row strictly before `upto` whose path holds
    /// errors.
    #[verifier::loop_isolation(false)]
    fn scan_error_backward(
        &self,
        visible: &Vec<Vec<usize>>,
        eps: &Vec<Vec<usize>>,
        upto: usize,
    ) -> (r: Option<usize>)
        requires
            upto <= visible@.len(),
            visible@.map_values(|q: Vec<usize>| q@) == panel_view(*self).visible(),
            eps@.map_values(|q: Vec<usize>| q@) == panel_view(*self).error_paths(),
        ensures
            ({
                let v = panel_view(*self);
                let vis = v.visible();
                match r {
                    Some(t) => t < visible@.len() && v.prev_error_index(vis, upto as int)
                        == t,
                    None => v.prev_error_index(vis, upto as int) == -1,
                }
            }),
    {
        let ghost v = panel_view(*self);
        let ghost vis = v.visible();
        let mut cur: usize = upto;
        while cur > 0
            invariant
                cur <= upto,
                v.prev_error_index(vis, upto as int) == v.prev_error_index(vis, cur as int),
            decreases cur,
        {
            proof {
                assert(vis[cur - 1] == visible@[cur - 1]@);
            }
            if path_in_exec(eps, &visible[cur - 1]) {
                proof {
                    assert(v.prev_error_index(vis, cur as int) == cur - 1);
                }
                return Some(cur - 1);
            }
            cur = cur - 1;
        }
        None
    }

    /// Jumps to the next error: first the next error line inside the
    /// cursor's expanded step, else the next visible error-bearing row,
    /// else wrapping to the first.
    #[verifier::loop_isolation(false)]
    pub fn find_next_error(&mut self)
        ensures
            panel_view(*final(self)) == panel_view(*old(self)).next_error_state(),
    {
        let ghost v = panel_view(*old(self));
        let visible = self.flatten_visible_nodes();
        let nvis = visible.len();
        let ghost vis = v.visible();
        match self.next_error_in_step_exec() {
            Some(p) => {
                match find_path_index(&visible, &p) {
                    Some(idx) => {
                        proof {
                            lemma_path_index(vis, p@);
                        }
                        self.cursor_path = p;
                        self.scroll_offset = scroll_into_view_exec(
                            self.scroll_offset,
                            self.viewport_height,
                            idx,
                        );
                        proof {
                            assert(panel_view(*self) =~= v.next_error_state());
                        }
                    },
                    None => {
                        proof {
                            assert(panel_view(*self) =~= v.next_error_state());
                        }
                    },
                }
            },
            None => {
                let eps = self.collect_error_paths();
                if eps.len() == 0 {
                    proof {
                        assert(v.error_paths().len() == 0);
                        assert(panel_view(*self) =~= v.next_error_state());
                    }
                    return ;
                }
                let ci_opt = find_path_index(&visible, &self.cursor_path);
                let ghost eps_v = v.error_paths();
                let target: Option<usize> = match ci_opt {
                    Some(ci) => {
                        proof {
                            lemma_path_index(vis, v.cursor);
                            assert(ci < visible@.len());
                        }
                        self.scan_error_forward(&visible, &eps, ci + 1)
                    },
                    None => None,
                };
                match target {
                    Some(ni) => {
                        self.cursor_path = dup_path(&visible[ni]);
                        self.scroll_offset = scroll_into_view_exec(
                            self.scroll_offset,
                            self.viewport_height,
                            ni,
                        );
                        proof {
                            assert(vis[ni as int] == visible@[ni as int]@);
                            assert(panel_view(*self) =~= v.next_error_state());
                        }
                    },
                    None => {
                        proof {
                            assert(eps_v[0] == eps@[0]@);
                        }
                        match find_path_index(&visible, &eps[0]) {
                            Some(wi) => {
                                proof {
                                    lemma_path_index(vis, eps_v[0]);
                                }
                                self.cursor_path = dup_path(&eps[0]);
                                self.scroll_offset = wi;
                                proof {
                                    assert(panel_view(*self) =~= v.next_error_state());
                                }
                            },
                            None => {
                                proof {
                                    assert(panel_view(*self) =~= v.next_error_state());
                                }
                            },
                        }
                    },
                }
            },
        }
    }

    /// Jumps to the previous error: first the previous error line inside
    /// the cursor's expanded step, else the previous visible
    /// error-bearing row, else wrapping to the last.
    #[verifier::loop_isolation(false)]
    pub fn find_prev_error(&mut self)
        ensures
            panel_view(*final(self)) == panel_view(*old(self)).prev_error_state(),
    {
        let ghost v = panel_view(*old(self));
        let visible = self.flatten_visible_nodes();
        let nvis = visible.len();
        let ghost vis = v.visible();
        match self.prev_error_in_step_exec() {
            Some(p) => {
                match find_path_index(&visible, &p) {
                    Some(idx) => {
                        proof {
                            lemma_path_index(vis, p@);
                        }
                        self.cursor_path = p;
                        self.scroll_offset = scroll_into_view_exec(
                            self.scroll_offset,
                            self.viewport_height,
                            idx,
                        );
                        proof {
                            assert(panel_view(*self) =~= v.prev_error_state());
                        }
                    },
                    None => {
                        proof {
                            assert(panel_view(*self) =~= v.prev_error_state());
                        }
                    },
                }
            },
            None => {
                let eps = self.collect_error_paths();
                if eps.len() == 0 {
                    proof {
                        assert(v.error_paths().len() == 0);
                        assert(panel_view(*self) =~= v.prev_error_state());
                    }
                    return ;
                }
                let ci_opt = find_path_index(&visible, &self.cursor_path);
                let ghost eps_v = v.error_paths();
                let target: Option<usize> = match ci_opt {
                    Some(ci) => {
                        proof {
                            lemma_path_index(vis, v.cursor);
                            assert(ci < visible@.len());
                        }
                        self.scan_error_backward(&visible, &eps, ci)
                    },
                    None => None,
                };
                match target {
                    Some(pi) => {
                        self.cursor_path = dup_path(&visible[pi]);
                        self.scroll_offset = scroll_into_view_exec(
                            self.scroll_offset,
                            self.viewport_height,
                            pi,
                        );
                        proof {
                            assert(vis[pi as int] == visible@[pi as int]@);
                            assert(panel_view(*self) =~= v.prev_error_state());
                        }
                    },
                    None => {
                        let last = eps.len() - 1;
                        proof {
                            assert(eps_v.last() == eps@[last as int]@);
                        }
                        match find_path_index(&visible, &eps[last]) {
                            Some(wi) => {
                                proof {
                                    lemma_path_index(vis, eps_v.last());
                                }
                                self.cursor_path = dup_path(&eps[last]);
                                self.scroll_offset = scroll_into_view_exec(
                                    self.scroll_offset,
                                    self.viewport_height,
                                    wi,
                                );
                                proof {
                                    assert(panel_view(*self) =~= v.prev_error_state());
                                }
                            },
                            None => {
                                proof {
                                    assert(panel_view(*self) =~= v.prev_error_state());
                                }
                            },
                        }
                    },
                }
            },
        }
    }
}

} // verus!