//! The navigation state machine: cursor, scroll, pane focus, visual
//! selection, file selection, comment drafting and review submission on
//! top of the flattened tree and content sequences.
//!
//! Every action is applied to completion against the current state; no
//! index ever points outside the current addressable range.  Contracts
//! are stated over `StateView`, the mathematical model of the state.

use vstd::prelude::*;

use crate::diff::CommentPosition;
use crate::diff::CommentView;
use crate::diff::DiffLine;
use crate::diff::DiffView;
use crate::diff::FileDiff;
use crate::diff::LineKind;
use crate::diff::PendingComment;
use crate::diff::PullRequestDiff;
use crate::diff::comments_view;
use crate::diff::files_view;
use crate::diff::line_effective;
use crate::rows::flat_rows;
use crate::rows::flatten_hunk_info;
use crate::rows::lemma_flat_rows_len;
use crate::rows::total_rows;
use crate::text::str_eq;
use crate::tree::EntryView;
use crate::tree::FileTreeNode;
use crate::tree::NodeView;
use crate::tree::node_view;

verus! {

/// Which pane owns the live cursor.
#[derive(Debug, Clone, Copy, PartialEq, Eq, Structural)]
pub enum PaneFocus {
    Tree,
    Content,
}

/// The review verdict chosen in the review popup.
#[derive(Debug, Clone, Copy, PartialEq, Eq, Structural)]
pub enum ReviewEvent {
    CommentOnly,
    Approve,
    RequestChanges,
}

/// A comment being typed, bound to a file and effective line.
#[derive(Debug, Clone)]
pub struct CommentDraft {
    /// Path of the file the draft is bound to.
    pub path: String,
    /// Effective line number under the cursor when the draft opened.
    pub line: usize,
    /// Text typed so far.
    pub body: String,
}

/// The mathematical model of a comment draft.
#[verifier::ext_equal]
pub ghost struct DraftView {
    pub path: Seq<char>,
    pub line: usize,
    pub body: Seq<char>,
}

impl CommentDraft {
    pub open spec fn to_view(self) -> DraftView {
        DraftView { path: self.path@, line: self.line, body: self.body@ }
    }
}

pub open spec fn opt_draft_view(d: Option<CommentDraft>) -> Option<DraftView> {
    match d {
        Some(x) => Some(x.to_view()),
        None => None,
    }
}

/// One user or collaborator action applied to the viewer state.
#[derive(Debug, Clone)]
pub enum DiffAction {
    CursorDown,
    CursorUp,
    CursorFirst,
    CursorLast,
    FocusFileTree,
    FocusDiffContent,
    ToggleFocus,
    ScrollPageDown,
    ScrollPageUp,
    ToggleTreeNode,
    EnterVisualMode,
    ExitVisualMode,
    StartComment,
    CancelComment,
    CommitComment,
    CommentInsertChar(char),
    CommentBackspace,
    ShowReviewPopup,
    HideReviewPopup,
    ReviewOptionNext,
    ReviewOptionPrev,
    SubmitReview,
    /// The review sink reported the outcome of a submission.
    ReviewSubmitted { success: bool },
    SetViewport { width: u16, height: u16 },
    /// Request the context hidden behind the expansion placeholder
    /// under the content cursor.
    ToggleLineExpansion,
    /// The expansion source returned the real lines for a placeholder.
    ExpansionFetched { hunk: usize, line: usize, lines: Vec<DiffLine> },
}

/// An intent emitted toward a collaborator.
#[derive(Debug, Clone)]
pub enum DiffEvent {
    /// Submit a review with every pending comment and the chosen verdict.
    ReviewSubmissionRequested { comments: Vec<PendingComment>, event: ReviewEvent },
    /// Fetch the context lines hidden behind an expansion placeholder.
    ExpansionRequested { path: String, hunk: usize, line: usize },
}

/// The mathematical model of an emitted intent.
#[verifier::ext_equal]
pub ghost enum EventView {
    Review { comments: Seq<CommentView>, event: ReviewEvent },
    Expansion { path: Seq<char>, hunk: usize, line: usize },
}

impl DiffEvent {
    pub open spec fn to_view(self) -> EventView {
        match self {
            DiffEvent::ReviewSubmissionRequested { comments, event } => EventView::Review {
                comments: comments_view(comments@),
                event,
            },
            DiffEvent::ExpansionRequested { path, hunk, line } => EventView::Expansion {
                path: path@,
                hunk,
                line,
            },
        }
    }
}

pub open spec fn events_view(s: Seq<DiffEvent>) -> Seq<EventView> {
    s.map_values(|e: DiffEvent| e.to_view())
}

/// The state of the diff viewer.
#[derive(Debug)]
pub struct DiffViewerState {
    /// The loaded diff snapshot.
    pub diff: PullRequestDiff,
    /// The file tree built from the diff's paths.
    pub file_tree: FileTreeNode,
    /// Whether the tree pane is shown.
    pub show_file_tree: bool,
    /// Which pane owns the live cursor.
    pub focus: PaneFocus,
    /// Cursor index into the flattened tree.
    pub tree_cursor: usize,
    /// First visible row of the tree pane.
    pub tree_scroll: usize,
    /// Index of the selected file in `diff.files`.
    pub selected_file: Option<usize>,
    /// Cursor index into the selected file's flattened rows.
    pub content_cursor: usize,
    /// First visible row of the content pane.
    pub content_scroll: usize,
    /// Anchor endpoint of the visual selection, when active.
    pub visual_anchor: Option<usize>,
    /// The comment being typed, when one is open.
    pub comment_editor: Option<CommentDraft>,
    /// All comments committed so far, across files.
    pub pending_comments: Vec<PendingComment>,
    /// Whether the review popup is open.
    pub show_review_popup: bool,
    /// The verdict currently chosen in the popup.
    pub selected_review_event: ReviewEvent,
    /// Rows visible in the focused pane.
    pub visible_height: usize,
}

/// The mathematical model of the viewer state.
#[verifier::ext_equal]
pub ghost struct StateView {
    pub diff: DiffView,
    pub tree: NodeView,
    pub show_file_tree: bool,
    pub focus: PaneFocus,
    pub tree_cursor: usize,
    pub tree_scroll: usize,
    pub selected_file: Option<usize>,
    pub content_cursor: usize,
    pub content_scroll: usize,
    pub visual_anchor: Option<usize>,
    pub editor: Option<DraftView>,
    pub pending: Seq<CommentView>,
    pub show_review_popup: bool,
    pub review_event: ReviewEvent,
    pub visible_height: usize,
}

pub open spec fn state_view(s: DiffViewerState) -> StateView {
    StateView {
        diff: s.diff.to_view(),
        tree: node_view(s.file_tree),
        show_file_tree: s.show_file_tree,
        focus: s.focus,
        tree_cursor: s.tree_cursor,
        tree_scroll: s.tree_scroll,
        selected_file: s.selected_file,
        content_cursor: s.content_cursor,
        content_scroll: s.content_scroll,
        visual_anchor: s.visual_anchor,
        editor: opt_draft_view(s.comment_editor),
        pending: comments_view(s.pending_comments@),
        show_review_popup: s.show_review_popup,
        review_event: s.selected_review_event,
        visible_height: s.visible_height,
    }
}

impl StateView {
    /// The flattened tree rows.
    pub open spec fn tree_entries(self) -> Seq<EntryView> {
        self.tree.flatten_at(0)
    }

    /// Number of flattened tree rows.
    pub open spec fn tree_len(self) -> nat {
        self.tree_entries().len()
    }

    /// The hunks of the selected file, or nothing.
    pub open spec fn content_hunks(self) -> Seq<crate::diff::HunkView> {
        match self.selected_file {
            Some(i) => if i < self.diff.files.len() {
                self.diff.files[i as int].hunks
            } else {
                Seq::empty()
            },
            None => Seq::empty(),
        }
    }

    /// Number of flattened content rows of the selected file.
    pub open spec fn content_len(self) -> nat {
        total_rows(self.content_hunks())
    }

    /// Every stored index lies inside its current addressable range.
    pub open spec fn inv(self) -> bool {
        &&& (self.selected_file matches Some(i) ==> i < self.diff.files.len())
        &&& self.tree_len() <= usize::MAX
        &&& self.content_len() <= usize::MAX
        &&& self.content_hunks().len() <= usize::MAX
        &&& (if self.tree_len() == 0 {
            self.tree_cursor == 0
        } else {
            self.tree_cursor < self.tree_len()
        })
        &&& (if self.content_len() == 0 {
            self.content_cursor == 0
        } else {
            self.content_cursor < self.content_len()
        })
        &&& self.tree_scroll <= self.tree_cursor
        &&& self.content_scroll <= self.content_cursor
        &&& (self.visual_anchor matches Some(a) ==> a < self.content_len())
    }
}

/// One step down, clamped to the end of the sequence.
pub open spec fn move_down(c: usize, len: nat) -> usize
    recommends
        len <= usize::MAX,
{
    if len == 0 {
        0
    } else if c + 1 < len {
        (c + 1) as usize
    } else {
        ((len - 1) as nat) as usize
    }
}

/// One step up, clamped to the start.
pub open spec fn move_up(c: usize) -> usize {
    if c > 0 {
        (c - 1) as usize
    } else {
        0
    }
}

/// The last index of a sequence of the given length, or 0 when empty.
pub open spec fn last_index(len: nat) -> usize
    recommends
        len <= usize::MAX,
{
    if len == 0 {
        0
    } else {
        ((len - 1) as nat) as usize
    }
}

/// Addition saturating at `usize::MAX`.
pub open spec fn sat_add(a: usize, b: usize) -> usize {
    if a + b <= usize::MAX {
        (a + b) as usize
    } else {
        usize::MAX
    }
}

/// The minimal shift of the scroll offset that brings the cursor back
/// into the visible window; the offset is unchanged when the cursor is
/// already visible or no height is known.
pub open spec fn scroll_fix(cursor: usize, scroll: usize, height: usize) -> usize {
    if height == 0 {
        if scroll <= cursor {
            scroll
        } else {
            cursor
        }
    } else if cursor < scroll {
        cursor
    } else if cursor >= scroll + height {
        (cursor + 1 - height) as usize
    } else {
        scroll
    }
}

/// The index of the first file with the given path, or -1.
pub open spec fn file_index_by_path(files: Seq<crate::diff::FileDiffView>, p: Seq<char>) -> int
    decreases files,
{
    if files.len() == 0 {
        -1
    } else if files[0].path == p {
        0
    } else {
        let r = file_index_by_path(files.skip(1), p);
        if r == -1 {
            -1
        } else {
            r + 1
        }
    }
}

pub proof fn lemma_file_index_by_path(files: Seq<crate::diff::FileDiffView>, p: Seq<char>)
    ensures
        file_index_by_path(files, p) == -1 ==> forall|i: int|
            0 <= i < files.len() ==> (#[trigger] files[i].path) != p,
        file_index_by_path(files, p) != -1 ==> {
            let j = file_index_by_path(files, p);
            &&& 0 <= j < files.len()
            &&& files[j].path == p
            &&& forall|i: int| 0 <= i < j ==> (#[trigger] files[i].path) != p
        },
    decreases files,
{
    if files.len() > 0 {
        lemma_file_index_by_path(files.skip(1), p);
        assert(forall|i: int| 1 <= i < files.len() ==> files.skip(1)[i - 1] == #[trigger] files[i]);
    }
}

impl StateView {
    /// After the tree cursor lands on a row: when the row is a file that
    /// is in the diff and not already selected, it becomes the selected
    /// file and the content pane is reset.
    pub open spec fn synced(self) -> StateView {
        let es = self.tree_entries();
        if self.tree_cursor < es.len() {
            match es[self.tree_cursor as int].path {
                Some(p) => {
                    let fi = file_index_by_path(self.diff.files, p);
                    if fi >= 0 && self.selected_file != Some(fi as usize) {
                        StateView {
                            selected_file: Some(fi as usize),
                            content_cursor: 0,
                            content_scroll: 0,
                            visual_anchor: None,
                            ..self
                        }
                    } else {
                        self
                    }
                },
                None => self,
            }
        } else {
            self
        }
    }

    /// The state after moving the tree cursor to `c`: scroll follows
    /// minimally and file selection syncs to the row landed on.  A move
    /// that leaves the cursor where it was — a boundary move — is a
    /// silent no-op: nothing in the state changes.
    pub open spec fn with_tree_cursor(self, c: usize) -> StateView {
        if c == self.tree_cursor {
            self
        } else {
            (StateView {
                tree_cursor: c,
                tree_scroll: scroll_fix(c, self.tree_scroll, self.visible_height),
                ..self
            }).synced()
        }
    }

    /// The state after moving the content cursor to `c`, scroll following
    /// minimally.  A move that leaves the cursor where it was is a
    /// silent no-op.
    pub open spec fn with_content_cursor(self, c: usize) -> StateView {
        if c == self.content_cursor {
            self
        } else {
            StateView {
                content_cursor: c,
                content_scroll: scroll_fix(c, self.content_scroll, self.visible_height),
                ..self
            }
        }
    }

    /// The next review verdict in the cycle.
    pub open spec fn next_event(e: ReviewEvent) -> ReviewEvent {
        match e {
            ReviewEvent::CommentOnly => ReviewEvent::Approve,
            ReviewEvent::Approve => ReviewEvent::RequestChanges,
            ReviewEvent::RequestChanges => ReviewEvent::CommentOnly,
        }
    }

    /// The previous review verdict in the cycle.
    pub open spec fn prev_event(e: ReviewEvent) -> ReviewEvent {
        match e {
            ReviewEvent::CommentOnly => ReviewEvent::RequestChanges,
            ReviewEvent::Approve => ReviewEvent::CommentOnly,
            ReviewEvent::RequestChanges => ReviewEvent::Approve,
        }
    }
}

/// The minimal scroll shift bringing the cursor into view.
fn scroll_fix_exec(cursor: usize, scroll: usize, height: usize) -> (r: usize)
    ensures
        r == scroll_fix(cursor, scroll, height),
{
    if height == 0 {
        if scroll <= cursor {
            scroll
        } else {
            cursor
        }
    } else if cursor < scroll {
        cursor
    } else if cursor - scroll >= height {
        cursor - (height - 1)
    } else {
        scroll
    }
}

/// A row index shifted across a splice and clamped into the new range.
fn clamp_shift_exec(x: usize, r0: usize, k: usize, new_len: usize) -> (r: usize)
    requires
        r0 >= 1,
    ensures
        r == StateView::clamp_row(
            StateView::splice_shift(x, r0 as int, k as nat),
            new_len as nat,
        ),
{
    let shifted: usize = if x < r0 {
        x
    } else {
        let base = x - 1;
        if base > usize::MAX - k {
            usize::MAX
        } else {
            base + k
        }
    };
    if new_len == 0 {
        0
    } else if shifted >= new_len {
        new_len - 1
    } else {
        shifted
    }
}

/// Addition saturating at `usize::MAX`.
fn sat_add_exec(a: usize, b: usize) -> (r: usize)
    ensures
        r == sat_add(a, b),
{
    if a <= usize::MAX - b {
        a + b
    } else {
        usize::MAX
    }
}

/// Whatever file `synced` selects exists in the diff; nothing else of
/// the selection-independent fields changes.
pub proof fn lemma_synced_selected(v: StateView)
    ensures
        v.synced().selected_file == v.selected_file || (match v.synced().selected_file {
            Some(j) => j < v.diff.files.len(),
            None => false,
        }),
{
    let es = v.tree_entries();
    if v.tree_cursor < es.len() {
        match es[v.tree_cursor as int].path {
            Some(p) => {
                lemma_file_index_by_path(v.diff.files, p);
            },
            None => {},
        }
    }
}

impl StateView {
    /// The cursor target of a page-down: one page further, clamped to
    /// the end.
    pub open spec fn page_down_idx(c: usize, h: usize, len: nat) -> usize
        recommends
            len <= usize::MAX,
    {
        if len == 0 {
            0
        } else if sat_add(c, h) < len {
            sat_add(c, h)
        } else {
            last_index(len)
        }
    }

    /// The scroll target of a page-down: one page further, never past
    /// the cursor, then fixed into view.
    pub open spec fn page_down_scroll(c2: usize, s: usize, h: usize) -> usize {
        let t = if sat_add(s, h) <= c2 {
            sat_add(s, h)
        } else {
            c2
        };
        scroll_fix(c2, t, h)
    }

    /// The cursor target of a page-up: one page back, clamped to the
    /// start.
    pub open spec fn page_up_idx(c: usize, h: usize) -> usize {
        if c >= h {
            (c - h) as usize
        } else {
            0
        }
    }

    /// The scroll target of a page-up.
    pub open spec fn page_up_scroll(c2: usize, s: usize, h: usize) -> usize {
        let t = if s >= h {
            (s - h) as usize
        } else {
            0
        };
        scroll_fix(c2, if t <= c2 {
            t
        } else {
            c2
        }, h)
    }

    /// The state after one whole action.
    pub open spec fn step(self, action: DiffAction) -> StateView {
        match action {
            DiffAction::CursorDown => if self.focus == PaneFocus::Tree {
                self.with_tree_cursor(move_down(self.tree_cursor, self.tree_len()))
            } else {
                self.with_content_cursor(move_down(self.content_cursor, self.content_len()))
            },
            DiffAction::CursorUp => if self.focus == PaneFocus::Tree {
                self.with_tree_cursor(move_up(self.tree_cursor))
            } else {
                self.with_content_cursor(move_up(self.content_cursor))
            },
            DiffAction::CursorFirst => if self.focus == PaneFocus::Tree {
                self.with_tree_cursor(0)
            } else {
                self.with_content_cursor(0)
            },
            DiffAction::CursorLast => if self.focus == PaneFocus::Tree {
                self.with_tree_cursor(last_index(self.tree_len()))
            } else {
                self.with_content_cursor(last_index(self.content_len()))
            },
            DiffAction::FocusFileTree => StateView { focus: PaneFocus::Tree, ..self },
            DiffAction::FocusDiffContent => StateView { focus: PaneFocus::Content, ..self },
            DiffAction::ToggleFocus => StateView {
                focus: if self.focus == PaneFocus::Tree {
                    PaneFocus::Content
                } else {
                    PaneFocus::Tree
                },
                ..self
            },
            DiffAction::ScrollPageDown => if self.focus == PaneFocus::Tree {
                let c2 = Self::page_down_idx(self.tree_cursor, self.visible_height, self.tree_len());
                if c2 == self.tree_cursor {
                    self
                } else {
                    (StateView {
                        tree_cursor: c2,
                        tree_scroll: Self::page_down_scroll(
                            c2,
                            self.tree_scroll,
                            self.visible_height,
                        ),
                        ..self
                    }).synced()
                }
            } else {
                let c2 = Self::page_down_idx(
                    self.content_cursor,
                    self.visible_height,
                    self.content_len(),
                );
                if c2 == self.content_cursor {
                    self
                } else {
                    StateView {
                        content_cursor: c2,
                        content_scroll: Self::page_down_scroll(
                            c2,
                            self.content_scroll,
                            self.visible_height,
                        ),
                        ..self
                    }
                }
            },
            DiffAction::ScrollPageUp => if self.focus == PaneFocus::Tree {
                let c2 = Self::page_up_idx(self.tree_cursor, self.visible_height);
                if c2 == self.tree_cursor {
                    self
                } else {
                    (StateView {
                        tree_cursor: c2,
                        tree_scroll: Self::page_up_scroll(
                            c2,
                            self.tree_scroll,
                            self.visible_height,
                        ),
                        ..self
                    }).synced()
                }
            } else {
                let c2 = Self::page_up_idx(self.content_cursor, self.visible_height);
                if c2 == self.content_cursor {
                    self
                } else {
                    StateView {
                        content_cursor: c2,
                        content_scroll: Self::page_up_scroll(
                            c2,
                            self.content_scroll,
                            self.visible_height,
                        ),
                        ..self
                    }
                }
            },
            DiffAction::ToggleTreeNode => self.toggle_step(),
            DiffAction::EnterVisualMode => if self.content_len() > 0 {
                StateView { visual_anchor: Some(self.content_cursor), ..self }
            } else {
                self
            },
            DiffAction::ExitVisualMode => StateView { visual_anchor: None, ..self },
            DiffAction::StartComment => self.start_comment_step(),
            DiffAction::CancelComment => StateView { editor: None, ..self },
            DiffAction::CommitComment => match self.editor {
                Some(d) => StateView {
                    editor: None,
                    pending: self.pending.push(
                        CommentView { path: d.path, line: d.line, body: d.body },
                    ),
                    ..self
                },
                None => self,
            },
            DiffAction::CommentInsertChar(c) => match self.editor {
                Some(d) => StateView {
                    editor: Some(DraftView { body: d.body.push(c), ..d }),
                    ..self
                },
                None => self,
            },
            DiffAction::CommentBackspace => match self.editor {
                Some(d) => StateView {
                    editor: Some(
                        DraftView {
                            body: if d.body.len() > 0 {
                                d.body.drop_last()
                            } else {
                                d.body
                            },
                            ..d
                        },
                    ),
                    ..self
                },
                None => self,
            },
            DiffAction::ShowReviewPopup => StateView { show_review_popup: true, ..self },
            DiffAction::HideReviewPopup => StateView { show_review_popup: false, ..self },
            DiffAction::ReviewOptionNext => StateView {
                review_event: Self::next_event(self.review_event),
                ..self
            },
            DiffAction::ReviewOptionPrev => StateView {
                review_event: Self::prev_event(self.review_event),
                ..self
            },
            DiffAction::SubmitReview => StateView { show_review_popup: false, ..self },
            DiffAction::ReviewSubmitted { success } => if success {
                StateView { pending: Seq::empty(), ..self }
            } else {
                self
            },
            DiffAction::SetViewport { width: _, height } => {
                let h = height as usize;
                StateView {
                    visible_height: h,
                    tree_scroll: scroll_fix(self.tree_cursor, self.tree_scroll, h),
                    content_scroll: scroll_fix(self.content_cursor, self.content_scroll, h),
                    ..self
                }
            },
            DiffAction::ToggleLineExpansion => self.mark_expansion_step(),
            DiffAction::ExpansionFetched { hunk, line, lines } => self.expansion_fetched_step(
                hunk,
                line,
                crate::diff::lines_view(lines@),
            ),
        }
    }

    /// Toggling the directory row under the tree cursor: the directory's
    /// full path is resolved from the flattened rows, its expand flag is
    /// flipped, and the cursor is clamped to the new flattened length.
    /// A no-op on file rows and out-of-range cursors.
    pub open spec fn toggle_step(self) -> StateView {
        let es = self.tree_entries();
        if self.tree_cursor < es.len() && es[self.tree_cursor as int].is_dir {
            let segs = crate::tree::row_path(es, self.tree_cursor as int);
            let t2 = self.tree.toggle_at(segs).0;
            let v2 = StateView { tree: t2, ..self };
            let len2 = v2.tree_len();
            let c2: usize = if len2 == 0 {
                0
            } else if self.tree_cursor < len2 {
                self.tree_cursor
            } else {
                last_index(len2)
            };
            let base: usize = if self.tree_scroll <= c2 {
                self.tree_scroll
            } else {
                c2
            };
            StateView {
                tree: t2,
                tree_cursor: c2,
                tree_scroll: scroll_fix(c2, base, self.visible_height),
                ..self
            }
        } else {
            self
        }
    }

    /// The placeholder position under the content cursor, when the
    /// cursor sits on an expansion placeholder that has not been
    /// requested yet.
    pub open spec fn expansion_target(self) -> Option<(int, int)> {
        match self.selected_file {
            Some(i) => if i < self.diff.files.len() {
                let rows = flat_rows(self.content_hunks());
                if self.content_cursor < rows.len() {
                    let (h, oj) = rows[self.content_cursor as int];
                    match oj {
                        Some(j) => {
                            let l = self.content_hunks()[h as int].lines[j as int];
                            if l.kind == LineKind::Expansion && !l.is_expanded {
                                Some((h as int, j as int))
                            } else {
                                None
                            }
                        },
                        None => None,
                    }
                } else {
                    None
                }
            } else {
                None
            },
            None => None,
        }
    }

    /// The state with one stored line replaced, inside the selected
    /// file's hunk `h`.
    pub open spec fn with_lines(self, h: int, new_lines: Seq<crate::diff::LineView>) -> StateView
        recommends
            self.selected_file is Some,
    {
        let i = self.selected_file->Some_0 as int;
        let hs = self.content_hunks();
        let new_hunk = crate::diff::HunkView { lines: new_lines, ..hs[h] };
        let new_file = crate::diff::FileDiffView {
            hunks: hs.update(h, new_hunk),
            ..self.diff.files[i]
        };
        StateView {
            diff: DiffView { files: self.diff.files.update(i, new_file), ..self.diff },
            ..self
        }
    }

    /// Marking the placeholder under the cursor as requested: its
    /// `is_expanded` flag is set; everything else is unchanged.  A no-op
    /// when the cursor is not on an unrequested placeholder.
    pub open spec fn mark_expansion_step(self) -> StateView {
        match self.expansion_target() {
            Some((h, j)) => {
                let hs = self.content_hunks();
                let l = hs[h].lines[j];
                let l2 = crate::diff::LineView { is_expanded: true, ..l };
                self.with_lines(h, hs[h].lines.update(j, l2))
            },
            None => self,
        }
    }

    /// A row index carried across a splice at row `r0` that replaced one
    /// row by `k` rows: indices before the splice stay, later ones
    /// shift.
    pub open spec fn splice_shift(x: usize, r0: int, k: nat) -> int {
        if x < r0 {
            x as int
        } else {
            x - 1 + k
        }
    }

    /// A row index clamped into the addressable range.
    pub open spec fn clamp_row(x: int, len: nat) -> usize
        recommends
            len <= usize::MAX,
    {
        if len == 0 {
            0
        } else if x >= len {
            ((len - 1) as nat) as usize
        } else if x < 0 {
            0
        } else {
            x as usize
        }
    }

    /// Splicing fetched lines in place of a placeholder: the stored
    /// placeholder line is replaced by the fetched lines in the same
    /// position, and every content index referencing positions after the
    /// splice point is recomputed against the new length.  A no-op when
    /// the position does not hold a placeholder.
    pub open spec fn expansion_fetched_step(
        self,
        hunk: usize,
        line: usize,
        lines: Seq<crate::diff::LineView>,
    ) -> StateView {
        let ok = match self.selected_file {
            Some(i) => i < self.diff.files.len() && hunk < self.content_hunks().len() && line
                < self.content_hunks()[hunk as int].lines.len() && self.content_hunks()[
                hunk as int
            ].lines[line as int].kind == LineKind::Expansion,
            None => false,
        };
        if ok {
            let hs = self.content_hunks();
            let new_lines = hs[hunk as int].lines.take(line as int) + lines + hs[
                hunk as int
            ].lines.skip(line + 1);
            let v2 = self.with_lines(hunk as int, new_lines);
            let r0 = total_rows(hs.take(hunk as int)) + 1 + line;
            let k = lines.len();
            let new_len = v2.content_len();
            let cursor2 = Self::clamp_row(Self::splice_shift(self.content_cursor, r0 as int, k), new_len);
            let scroll_shifted = Self::clamp_row(
                Self::splice_shift(self.content_scroll, r0 as int, k),
                new_len,
            );
            let scroll2: usize = if scroll_shifted <= cursor2 {
                scroll_shifted
            } else {
                cursor2
            };
            let anchor2 = match self.visual_anchor {
                Some(a) => if new_len == 0 {
                    None
                } else {
                    Some(Self::clamp_row(Self::splice_shift(a, r0 as int, k), new_len))
                },
                None => None,
            };
            StateView {
                content_cursor: cursor2,
                content_scroll: scroll2,
                visual_anchor: anchor2,
                ..v2
            }
        } else {
            self
        }
    }

    /// Opening a comment draft: bound to the selected file and the
    /// effective line under the content cursor; refused without a state
    /// change when no file is selected, another draft is open, or the
    /// cursor is not on a line with a line number.
    pub open spec fn start_comment_step(self) -> StateView {
        if self.editor is Some {
            self
        } else {
            match self.selected_file {
                Some(i) => if i < self.diff.files.len() {
                    let rows = flat_rows(self.content_hunks());
                    if self.content_cursor < rows.len() {
                        let (h, oj) = rows[self.content_cursor as int];
                        match oj {
                            Some(j) => {
                                let l = self.content_hunks()[h as int].lines[j as int];
                                match line_effective(l) {
                                    Some(e) => StateView {
                                        editor: Some(
                                            DraftView {
                                                path: self.diff.files[i as int].path,
                                                line: e,
                                                body: Seq::empty(),
                                            },
                                        ),
                                        ..self
                                    },
                                    None => self,
                                }
                            },
                            None => self,
                        }
                    } else {
                        self
                    }
                } else {
                    self
                },
                None => self,
            }
        }
    }

    /// The intents one action emits.
    pub open spec fn step_events(self, action: DiffAction) -> Seq<EventView> {
        match action {
            DiffAction::SubmitReview => if self.show_review_popup {
                seq![
                    EventView::Review { comments: self.pending, event: self.review_event },
                ]
            } else {
                Seq::empty()
            },
            DiffAction::ToggleLineExpansion => match self.expansion_target() {
                Some((h, j)) => seq![
                    EventView::Expansion {
                        path: self.diff.files[self.selected_file->Some_0 as int].path,
                        hunk: h as usize,
                        line: j as usize,
                    },
                ],
                None => Seq::empty(),
            },
            _ => Seq::empty(),
        }
    }
}

/// A vertical move at a sequence boundary is a silent no-op: when the
/// focused pane's cursor cannot move further, the whole state is left
/// unchanged — no selection switch, no scroll shift, never an error or
/// an out-of-range index.
pub proof fn lemma_boundary_noop(v: StateView)
    requires
        v.inv(),
    ensures
        v.focus == PaneFocus::Tree && v.tree_cursor == 0 ==> v.step(DiffAction::CursorUp) == v,
        v.focus == PaneFocus::Tree && v.tree_cursor + 1 >= v.tree_len() ==> v.step(
            DiffAction::CursorDown,
        ) == v,
        v.focus == PaneFocus::Content && v.content_cursor == 0 ==> v.step(DiffAction::CursorUp)
            == v,
        v.focus == PaneFocus::Content && v.content_cursor + 1 >= v.content_len() ==> v.step(
            DiffAction::CursorDown,
        ) == v,
{
}

/// The freshly loaded viewer state: the tree built from the file list,
/// sorted and aggregated; every index 0; the tree focused; nothing
/// pending.  The selection agrees with the row under the initial
/// cursor: when row 0 is a file of the diff, that file is selected,
/// otherwise nothing is.
pub open spec fn initial_view(d: DiffView) -> StateView {
    (StateView {
        diff: d,
        tree: NodeView::built_from(d.files).sorted().recalculated(),
        show_file_tree: true,
        focus: PaneFocus::Tree,
        tree_cursor: 0,
        tree_scroll: 0,
        selected_file: None,
        content_cursor: 0,
        content_scroll: 0,
        visual_anchor: None,
        editor: None,
        pending: Seq::empty(),
        show_review_popup: false,
        review_event: ReviewEvent::CommentOnly,
        visible_height: 0,
    }).synced()
}

impl DiffViewerState {
    /// Builds the viewer for a loaded diff: the tree is built from the
    /// file list, sorted and aggregated; both cursors start at 0 with the
    /// tree focused, and the file under the initial cursor row is
    /// selected when that row is a file.
    pub fn new(diff: PullRequestDiff) -> (r: DiffViewerState)
        ensures
            state_view(r).inv(),
            state_view(r) == initial_view(diff.to_view()),
    {
        let mut tree = FileTreeNode::from_files(diff.files.as_slice());
        let _totals = tree.calculate_stats();
        let mut r = DiffViewerState {
            diff,
            file_tree: tree,
            show_file_tree: true,
            focus: PaneFocus::Tree,
            tree_cursor: 0,
            tree_scroll: 0,
            selected_file: None,
            content_cursor: 0,
            content_scroll: 0,
            visual_anchor: None,
            comment_editor: None,
            pending_comments: Vec::new(),
            show_review_popup: false,
            selected_review_event: ReviewEvent::CommentOnly,
            visible_height: 0,
        };
        let flat = r.tree_rows();
        let ghost base = state_view(r);
        proof {
            assert(comments_view(r.pending_comments@) =~= Seq::<CommentView>::empty());
            assert(files_view(r.diff.files@).len() == r.diff.files@.len());
        }
        r.resync_selection();
        proof {
            lemma_synced_selected(base);
            assert(state_view(r) =~= initial_view(r.diff.to_view()));
            assert(state_view(r).inv());
        }
        r
    }

    /// The flattened content rows of the selected file.
    pub fn content_rows(&self) -> (r: Vec<(usize, Option<usize>)>)
        ensures
            r@ == flat_rows(state_view(*self).content_hunks()),
            r@.len() == state_view(*self).content_len(),
            state_view(*self).content_len() <= usize::MAX,
            state_view(*self).content_hunks().len() <= usize::MAX,
    {
        let ghost hs = state_view(*self).content_hunks();
        let r = match self.selected_file {
            Some(i) => {
                if i < self.diff.files.len() {
                    proof {
                        assert(files_view(self.diff.files@)[i as int] == self.diff.files@[i as int].to_view());
                        assert(hs == crate::diff::hunks_view(self.diff.files@[i as int].hunks@));
                    }
                    let hn = self.diff.files[i].hunks.len();
                    flatten_hunk_info(&self.diff.files[i].hunks)
                } else {
                    Vec::new()
                }
            },
            None => Vec::new(),
        };
        let n = r.len();
        proof {
            if hs.len() == 0 {
                assert(hs =~= Seq::<crate::diff::HunkView>::empty());
                assert(flat_rows(hs) =~= Seq::<(usize, Option<usize>)>::empty());
            }
            lemma_flat_rows_len(hs);
        }
        r
    }

    /// The flattened tree rows.
    pub fn tree_rows(&self) -> (r: Vec<crate::tree::FlatFileEntry>)
        ensures
            crate::tree::entries_view(r@) == state_view(*self).tree_entries(),
            r@.len() == state_view(*self).tree_len(),
            state_view(*self).tree_len() <= usize::MAX,
    {
        let r = self.file_tree.flatten();
        let n = r.len();
        proof {
            assert(crate::tree::entries_view(r@).len() == r@.len());
        }
        r
    }

    /// The visual selection, normalized so the smaller index comes first.
    pub fn visual_selection(&self) -> (r: Option<(usize, usize)>)
        ensures
            state_view(*self).visual_anchor is None ==> r is None,
            state_view(*self).visual_anchor matches Some(a) ==> {
                let c = state_view(*self).content_cursor;
                r == Some(
                    (
                        if a <= c {
                            a
                        } else {
                            c
                        },
                        if a <= c {
                            c
                        } else {
                            a
                        },
                    ),
                )
            },
            r matches Some(p) ==> p.0 <= p.1,
    {
        match self.visual_anchor {
            None => None,
            Some(a) => {
                if a <= self.content_cursor {
                    Some((a, self.content_cursor))
                } else {
                    Some((self.content_cursor, a))
                }
            },
        }
    }

    /// The selected file, when one is selected.
    pub fn current_file(&self) -> (r: Option<&FileDiff>)
        ensures
            state_view(*self).selected_file is None ==> r is None,
            state_view(*self).selected_file matches Some(i) ==> (i < state_view(
                *self,
            ).diff.files.len() ==> (r matches Some(f) && f.to_view() == state_view(
                *self,
            ).diff.files[i as int])),
    {
        match self.selected_file {
            Some(i) => {
                if i < self.diff.files.len() {
                    let f = &self.diff.files[i];
                    proof {
                        assert(files_view(self.diff.files@)[i as int] == self.diff.files@[i as int].to_view());
                    }
                    Some(f)
                } else {
                    None
                }
            },
            None => None,
        }
    }

    /// The index of the first file whose path equals `p`.
    #[verifier::loop_isolation(false)]
    fn find_file_index(&self, p: &str) -> (r: Option<usize>)
        ensures
            ({
                let fi = file_index_by_path(state_view(*self).diff.files, p@);
                match r {
                    Some(j) => fi == j,
                    None => fi == -1,
                }
            }),
    {
        let ghost fv = state_view(*self).diff.files;
        proof {
            lemma_file_index_by_path(fv, p@);
        }
        let n = self.diff.files.len();
        let mut j: usize = 0;
        while j < n
            invariant
                j <= n,
                n == self.diff.files@.len(),
                fv == state_view(*self).diff.files,
                forall|q: int| 0 <= q < j ==> (#[trigger] fv[q].path) != p@,
            decreases n - j,
        {
            proof {
                assert(fv[j as int] == self.diff.files@[j as int].to_view());
            }
            if str_eq(self.diff.files[j].path.as_str(), p) {
                proof {
                    assert(fv[j as int].path == p@);
                    lemma_file_index_by_path(fv, p@);
                    let fi = file_index_by_path(fv, p@);
                    if fi == -1 {
                        assert(fv[j as int].path != p@);
                    } else if fi < j {
                        assert(fv[fi].path != p@);
                    } else if fi > j {
                        assert(fv[j as int].path != p@);
                    }
                }
                return Some(j);
            }
            j = j + 1;
        }
        None
    }

    /// Syncs the selected file to the tree row under the cursor: landing
    /// on a file that is in the diff and not already selected selects it
    /// and resets the content pane.
    fn resync_selection(&mut self)
        ensures
            state_view(*final(self)) == state_view(*old(self)).synced(),
            state_view(*final(self)).content_len() <= usize::MAX,
            state_view(*final(self)).content_hunks().len() <= usize::MAX,
    {
        let flat = self.tree_rows();
        if self.tree_cursor < flat.len() {
            proof {
                assert(crate::tree::entries_view(flat@)[self.tree_cursor as int] == crate::tree::entry_view(
                    flat@[self.tree_cursor as int],
                ));
            }
            match &flat[self.tree_cursor].path {
                Some(p) => {
                    let fi = self.find_file_index(p.as_str());
                    match fi {
                        Some(j) => {
                            let same = match self.selected_file {
                                Some(s) => s == j,
                                None => false,
                            };
                            if !same {
                                self.selected_file = Some(j);
                                self.content_cursor = 0;
                                self.content_scroll = 0;
                                self.visual_anchor = None;
                            }
                        },
                        None => {},
                    }
                },
                None => {},
            }
        }
        let _rows = self.content_rows();
        proof {
            assert(state_view(*self) =~= state_view(*old(self)).synced());
        }
    }

    /// Moves the tree cursor to `c`, follows with the scroll and syncs
    /// the selected file.
    fn tree_move_to(&mut self, c: usize)
        requires
            state_view(*old(self)).inv(),
            state_view(*old(self)).tree_len() == 0 ==> c == 0,
            state_view(*old(self)).tree_len() > 0 ==> c < state_view(*old(self)).tree_len(),
        ensures
            state_view(*final(self)) == state_view(*old(self)).with_tree_cursor(c),
            state_view(*final(self)).inv(),
    {
        if c == self.tree_cursor {
            return ;
        }
        self.tree_cursor = c;
        self.tree_scroll = scroll_fix_exec(c, self.tree_scroll, self.visible_height);
        let ghost mid = state_view(*self);
        self.resync_selection();
        proof {
            assert(state_view(*self) =~= state_view(*old(self)).with_tree_cursor(c));
            lemma_synced_selected(mid);
            assert(state_view(*self).inv());
        }
    }

    /// Moves the content cursor to `c`, the scroll following minimally.
    fn content_move_to(&mut self, c: usize)
        requires
            state_view(*old(self)).inv(),
            state_view(*old(self)).content_len() == 0 ==> c == 0,
            state_view(*old(self)).content_len() > 0 ==> c < state_view(*old(self)).content_len(),
        ensures
            state_view(*final(self)) == state_view(*old(self)).with_content_cursor(c),
            state_view(*final(self)).inv(),
    {
        if c == self.content_cursor {
            return ;
        }
        self.content_cursor = c;
        self.content_scroll = scroll_fix_exec(c, self.content_scroll, self.visible_height);
        proof {
            assert(state_view(*self) =~= state_view(*old(self)).with_content_cursor(c));
        }
    }

    /// Toggles the directory row under the tree cursor, re-resolving the
    /// cursor against the new, possibly shorter flattened tree.
    fn apply_toggle_tree(&mut self)
        requires
            state_view(*old(self)).inv(),
        ensures
            state_view(*final(self)) == state_view(*old(self)).toggle_step(),
            state_view(*final(self)).inv(),
    {
        let flat = self.tree_rows();
        let ghost es = state_view(*old(self)).tree_entries();
        if self.tree_cursor >= flat.len() {
            let _f2 = self.tree_rows();
            return ;
        }
        proof {
            assert(crate::tree::entries_view(flat@)[self.tree_cursor as int]
                == crate::tree::entry_view(flat@[self.tree_cursor as int]));
        }
        if !flat[self.tree_cursor].is_dir {
            let _f2 = self.tree_rows();
            return ;
        }
        let segs = FileTreeNode::row_path_of(&flat, self.tree_cursor);
        proof {
            assert(crate::tree::seg_views(segs@).skip(0) =~= crate::tree::seg_views(segs@));
        }
        let _ok = self.file_tree.toggle_at_segs(&segs, 0);
        let flat2 = self.tree_rows();
        let c2: usize = if flat2.len() == 0 {
            0
        } else if self.tree_cursor < flat2.len() {
            self.tree_cursor
        } else {
            flat2.len() - 1
        };
        self.tree_cursor = c2;
        let base: usize = if self.tree_scroll <= c2 {
            self.tree_scroll
        } else {
            c2
        };
        self.tree_scroll = scroll_fix_exec(c2, base, self.visible_height);
        proof {
            assert(state_view(*self) =~= state_view(*old(self)).toggle_step());
            assert(state_view(*self).inv());
        }
    }

    /// Opens a comment draft at the content cursor; refused without a
    /// state change when no file is selected, a draft is already open, or
    /// the cursor is not on a line carrying a line number.
    fn apply_start_comment(&mut self)
        requires
            state_view(*old(self)).inv(),
        ensures
            state_view(*final(self)) == state_view(*old(self)).start_comment_step(),
            state_view(*final(self)).inv(),
    {
        if self.comment_editor.is_some() {
            return ;
        }
        let Some(i) = self.selected_file else {
            return ;
        };
        if i >= self.diff.files.len() {
            return ;
        }
        let rows = self.content_rows();
        let ghost v = state_view(*old(self));
        if self.content_cursor >= rows.len() {
            return ;
        }
        proof {
            crate::rows::lemma_flat_rows_wf(v.content_hunks());
            assert(files_view(self.diff.files@)[i as int] == self.diff.files@[i as int].to_view());
            assert(v.content_hunks() == crate::diff::hunks_view(
                self.diff.files@[i as int].hunks@,
            ));
        }
        let (h, oj) = rows[self.content_cursor];
        let Some(j) = oj else {
            return ;
        };
        proof {
            assert(v.content_hunks()[h as int] == self.diff.files@[i as int].hunks@[h as int].to_view());
            assert(v.content_hunks()[h as int].lines[j as int]
                == self.diff.files@[i as int].hunks@[h as int].lines@[j as int].to_view());
        }
        let line = &self.diff.files[i].hunks[h].lines[j];
        let Some(e) = line.effective_line() else {
            return ;
        };
        let draft = CommentDraft {
            path: self.diff.files[i].path.clone(),
            line: e,
            body: String::new(),
        };
        self.comment_editor = Some(draft);
        proof {
            assert(state_view(*self) =~= v.start_comment_step());
        }
    }

    /// Replaces the line sequence of hunk `h` of the selected file.
    fn replace_hunk_lines(&mut self, h: usize, new_lines: Vec<DiffLine>)
        requires
            state_view(*old(self)).selected_file matches Some(i) && i < old(
                self,
            ).diff.files@.len(),
            h < state_view(*old(self)).content_hunks().len(),
        ensures
            state_view(*final(self)) == state_view(*old(self)).with_lines(
                h as int,
                crate::diff::lines_view(new_lines@),
            ),
    {
        let ghost v0 = state_view(*old(self));
        let Some(i) = self.selected_file else {
            proof {
                assert(false);
            }
            return ;
        };
        proof {
            assert(files_view(self.diff.files@)[i as int] == self.diff.files@[i as int].to_view());
            assert(v0.content_hunks() == crate::diff::hunks_view(
                self.diff.files@[i as int].hunks@,
            ));
        }
        let ghost files0 = self.diff.files@;
        let mut f = self.diff.files.remove(i);
        let ghost hunks0 = f.hunks@;
        let mut hk = f.hunks.remove(h);
        hk.lines = new_lines;
        f.hunks.insert(h, hk);
        proof {
            assert forall|q: int| 0 <= q < f.hunks@.len() implies f.hunks@[q] == hunks0.update(
                h as int,
                hk,
            )[q] by {
                if q < h {
                    assert(hunks0.remove(h as int)[q] == hunks0[q]);
                } else if q > h {
                    assert(hunks0.remove(h as int)[q - 1] == hunks0[q]);
                }
            }
            assert(f.hunks@ =~= hunks0.update(h as int, hk));
            assert(crate::diff::hunks_view(f.hunks@) =~~= crate::diff::hunks_view(hunks0).update(
                h as int,
                hk.to_view(),
            ));
        }
        self.diff.files.insert(i, f);
        proof {
            assert forall|q: int| 0 <= q < self.diff.files@.len() implies self.diff.files@[q]
                == files0.update(i as int, f)[q] by {
                if q < i {
                    assert(files0.remove(i as int)[q] == files0[q]);
                } else if q > i {
                    assert(files0.remove(i as int)[q - 1] == files0[q]);
                }
            }
            assert(self.diff.files@ =~= files0.update(i as int, f));
            assert(files_view(self.diff.files@) =~~= files_view(files0).update(
                i as int,
                f.to_view(),
            ));
            assert(state_view(*self) =~~= v0.with_lines(
                h as int,
                crate::diff::lines_view(new_lines@),
            ));
        }
    }

    /// Marks the placeholder under the cursor as requested and emits
    /// the fetch intent; a no-op off placeholders.
    fn apply_toggle_expansion(&mut self) -> (r: Option<DiffEvent>)
        requires
            state_view(*old(self)).inv(),
        ensures
            state_view(*final(self)) == state_view(*old(self)).mark_expansion_step(),
            state_view(*final(self)).inv(),
            (match r {
                Some(e) => state_view(*old(self)).step_events(DiffAction::ToggleLineExpansion)
                    == seq![e.to_view()],
                None => state_view(*old(self)).step_events(DiffAction::ToggleLineExpansion)
                    == Seq::<EventView>::empty(),
            }),
    {
        let ghost v0 = state_view(*old(self));
        let Some(i) = self.selected_file else {
            return None;
        };
        if i >= self.diff.files.len() {
            return None;
        }
        let rows = self.content_rows();
        if self.content_cursor >= rows.len() {
            return None;
        }
        proof {
            crate::rows::lemma_flat_rows_wf(v0.content_hunks());
            assert(files_view(self.diff.files@)[i as int] == self.diff.files@[i as int].to_view());
            assert(v0.content_hunks() == crate::diff::hunks_view(
                self.diff.files@[i as int].hunks@,
            ));
        }
        let (h, oj) = rows[self.content_cursor];
        let Some(j) = oj else {
            return None;
        };
        proof {
            assert(v0.content_hunks()[h as int] == self.diff.files@[i as int].hunks@[h as int].to_view());
            assert(v0.content_hunks()[h as int].lines[j as int]
                == self.diff.files@[i as int].hunks@[h as int].lines@[j as int].to_view());
        }
        let line_ref = &self.diff.files[i].hunks[h].lines[j];
        let is_target = match line_ref.kind {
            LineKind::Expansion => !line_ref.is_expanded,
            _ => false,
        };
        if !is_target {
            return None;
        }
        let path = self.diff.files[i].path.clone();
        let ghost lines0 = self.diff.files@[i as int].hunks@[h as int].lines@;
        let mut new_lines: Vec<DiffLine> = Vec::new();
        let m = self.diff.files[i].hunks[h].lines.len();
        let mut q: usize = 0;
        while q < m
            invariant
                q <= m,
                i < self.diff.files@.len(),
                h < self.diff.files@[i as int].hunks@.len(),
                j < m,
                m == lines0.len(),
                lines0 == self.diff.files@[i as int].hunks@[h as int].lines@,
                *self == *old(self),
                new_lines@.len() == q,
                forall|t: int|
                    0 <= t < q ==> #[trigger] new_lines@[t].to_view() == (if t == j {
                        crate::diff::LineView { is_expanded: true, ..lines0[t].to_view() }
                    } else {
                        lines0[t].to_view()
                    }),
            decreases m - q,
        {
            let mut copy = self.diff.files[i].hunks[h].lines[q].duplicate();
            if q == j {
                copy.is_expanded = true;
            }
            new_lines.push(copy);
            q = q + 1;
        }
        proof {
            let hs = v0.content_hunks();
            assert(crate::diff::lines_view(new_lines@) =~~= hs[h as int].lines.update(
                j as int,
                crate::diff::LineView { is_expanded: true, ..hs[h as int].lines[j as int] },
            ));
        }
        self.replace_hunk_lines(h, new_lines);
        let ev = DiffEvent::ExpansionRequested { path, hunk: h, line: j };
        proof {
            assert(state_view(*self) =~~= v0.mark_expansion_step());
            crate::rows::lemma_total_rows_update(
                v0.content_hunks(),
                h as int,
                state_view(*self).content_hunks()[h as int],
            );
            assert(state_view(*self).inv());
            assert(v0.step_events(DiffAction::ToggleLineExpansion) =~= seq![ev.to_view()]);
        }
        Some(ev)
    }

    /// Splices fetched lines in place of a placeholder, recomputing
    /// every content index against the new length.
    fn apply_expansion_fetched(&mut self, hunk: usize, line: usize, lines: Vec<DiffLine>)
        requires
            state_view(*old(self)).inv(),
        ensures
            state_view(*final(self)) == state_view(*old(self)).expansion_fetched_step(
                hunk,
                line,
                crate::diff::lines_view(lines@),
            ),
            state_view(*final(self)).inv(),
    {
        let ghost v0 = state_view(*old(self));
        let ghost lv = crate::diff::lines_view(lines@);
        let Some(i) = self.selected_file else {
            return ;
        };
        if i >= self.diff.files.len() {
            return ;
        }
        proof {
            assert(files_view(self.diff.files@)[i as int] == self.diff.files@[i as int].to_view());
            assert(v0.content_hunks() == crate::diff::hunks_view(
                self.diff.files@[i as int].hunks@,
            ));
        }
        if hunk >= self.diff.files[i].hunks.len() {
            return ;
        }
        if line >= self.diff.files[i].hunks[hunk].lines.len() {
            proof {
                assert(v0.content_hunks()[hunk as int] == self.diff.files@[i as int].hunks@[hunk as int].to_view());
            }
            return ;
        }
        proof {
            assert(v0.content_hunks()[hunk as int] == self.diff.files@[i as int].hunks@[hunk as int].to_view());
            assert(v0.content_hunks()[hunk as int].lines[line as int]
                == self.diff.files@[i as int].hunks@[hunk as int].lines@[line as int].to_view());
        }
        let is_placeholder = match self.diff.files[i].hunks[hunk].lines[line].kind {
            LineKind::Expansion => true,
            _ => false,
        };
        if !is_placeholder {
            return ;
        }
        // The placeholder's flat row index, for shifting stored indices.
        let ghost hs0 = v0.content_hunks();
        let mut r0: usize = 0;
        let mut q: usize = 0;
        proof {
            assert(hs0.take(0) =~= Seq::<crate::diff::HunkView>::empty());
        }
        while q < hunk
            invariant
                q <= hunk,
                i < self.diff.files@.len(),
                hunk < self.diff.files@[i as int].hunks@.len(),
                hs0 == v0.content_hunks(),
                v0 == state_view(*self),
                v0.inv(),
                *self == *old(self),
                hs0 == crate::diff::hunks_view(self.diff.files@[i as int].hunks@),
                r0 == total_rows(hs0.take(q as int)),
                r0 <= usize::MAX,
            decreases hunk - q,
        {
            proof {
                crate::rows::lemma_total_rows_snoc(hs0, q as int);
                crate::rows::lemma_total_rows_take_le(hs0, q + 1);
                assert(hs0[q as int] == self.diff.files@[i as int].hunks@[q as int].to_view());
                assert(total_rows(hs0.take(q + 1)) <= total_rows(hs0));
                assert(total_rows(hs0) <= usize::MAX);
            }
            let ln = self.diff.files[i].hunks[q].lines.len();
            r0 = r0 + 1 + ln;
            q = q + 1;
        }
        proof {
            crate::rows::lemma_total_rows_snoc(hs0, hunk as int);
            crate::rows::lemma_total_rows_take_le(hs0, hunk as int + 1);
        }
        let r0 = r0 + 1 + line;
        let k = lines.len();

        // Splice: kept prefix, the fetched lines, kept suffix.
        let ghost lines0 = self.diff.files@[i as int].hunks@[hunk as int].lines@;
        let m = self.diff.files[i].hunks[hunk].lines.len();
        let mut new_lines: Vec<DiffLine> = Vec::new();
        let mut t: usize = 0;
        while t < line
            invariant
                t <= line,
                line < m,
                i < self.diff.files@.len(),
                hunk < self.diff.files@[i as int].hunks@.len(),
                m == lines0.len(),
                lines0 == self.diff.files@[i as int].hunks@[hunk as int].lines@,
                *self == *old(self),
                crate::diff::lines_view(new_lines@) =~= crate::diff::lines_view(lines0).take(
                    t as int,
                ),
            decreases line - t,
        {
            let copy = self.diff.files[i].hunks[hunk].lines[t].duplicate();
            let ghost before = new_lines@;
            new_lines.push(copy);
            proof {
                assert(crate::diff::lines_view(new_lines@) =~~= crate::diff::lines_view(
                    before,
                ).push(copy.to_view()));
                assert(crate::diff::lines_view(lines0)[t as int] == lines0[t as int].to_view());
                assert(crate::diff::lines_view(new_lines@) =~~= crate::diff::lines_view(
                    lines0,
                ).take(t + 1));
            }
            t = t + 1;
        }
        let mut t2: usize = 0;
        let kn = lines.len();
        while t2 < kn
            invariant
                t2 <= kn,
                kn == lines@.len(),
                crate::diff::lines_view(new_lines@) =~= crate::diff::lines_view(lines0).take(
                    line as int,
                ) + crate::diff::lines_view(lines@).take(t2 as int),
                line < lines0.len(),
                i < self.diff.files@.len(),
                hunk < self.diff.files@[i as int].hunks@.len(),
                lines0 == self.diff.files@[i as int].hunks@[hunk as int].lines@,
                *self == *old(self),
            decreases kn - t2,
        {
            let copy = lines[t2].duplicate();
            let ghost before = new_lines@;
            new_lines.push(copy);
            proof {
                assert(crate::diff::lines_view(new_lines@) =~~= crate::diff::lines_view(
                    before,
                ).push(copy.to_view()));
                assert(crate::diff::lines_view(lines@)[t2 as int] == lines@[t2 as int].to_view());
                assert(crate::diff::lines_view(new_lines@) =~~= crate::diff::lines_view(
                    lines0,
                ).take(line as int) + crate::diff::lines_view(lines@).take(t2 + 1));
            }
            t2 = t2 + 1;
        }
        let mut t3: usize = line + 1;
        while t3 < m
            invariant
                line + 1 <= t3 <= m,
                m == lines0.len(),
                kn == lines@.len(),
                crate::diff::lines_view(new_lines@) =~= crate::diff::lines_view(lines0).take(
                    line as int,
                ) + crate::diff::lines_view(lines@) + crate::diff::lines_view(lines0).subrange(
                    line + 1,
                    t3 as int,
                ),
                i < self.diff.files@.len(),
                hunk < self.diff.files@[i as int].hunks@.len(),
                lines0 == self.diff.files@[i as int].hunks@[hunk as int].lines@,
                *self == *old(self),
            decreases m - t3,
        {
            let copy = self.diff.files[i].hunks[hunk].lines[t3].duplicate();
            let ghost before = new_lines@;
            new_lines.push(copy);
            proof {
                assert(crate::diff::lines_view(new_lines@) =~~= crate::diff::lines_view(
                    before,
                ).push(copy.to_view()));
                assert(crate::diff::lines_view(lines0)[t3 as int] == lines0[t3 as int].to_view());
                assert(crate::diff::lines_view(new_lines@) =~~= crate::diff::lines_view(
                    lines0,
                ).take(line as int) + crate::diff::lines_view(lines@) + crate::diff::lines_view(
                    lines0,
                ).subrange(line + 1, t3 + 1));
            }
            t3 = t3 + 1;
        }
        proof {
            assert(crate::diff::lines_view(lines@).take(kn as int) =~= crate::diff::lines_view(
                lines@,
            ));
            assert(crate::diff::lines_view(lines0).subrange(line + 1, m as int)
                =~= crate::diff::lines_view(lines0).skip(line + 1));
            assert(crate::diff::lines_view(new_lines@) =~= hs0[hunk as int].lines.take(line as int)
                + lv + hs0[hunk as int].lines.skip(line + 1));
        }
        self.replace_hunk_lines(hunk, new_lines);
        let ghost v2 = v0.with_lines(hunk as int, hs0[hunk as int].lines.take(line as int) + lv
            + hs0[hunk as int].lines.skip(line + 1));
        proof {
            assert(state_view(*self) =~~= v2);
        }

        // Recompute every stored content index against the new length.
        let rows2 = self.content_rows();
        let new_len = rows2.len();
        let cursor2 = clamp_shift_exec(self.content_cursor, r0, k, new_len);
        let scroll_shifted = clamp_shift_exec(self.content_scroll, r0, k, new_len);
        let scroll2 = if scroll_shifted <= cursor2 {
            scroll_shifted
        } else {
            cursor2
        };
        let anchor2 = match self.visual_anchor {
            Some(a) => {
                if new_len == 0 {
                    None
                } else {
                    Some(clamp_shift_exec(a, r0, k, new_len))
                }
            },
            None => None,
        };
        self.content_cursor = cursor2;
        self.content_scroll = scroll2;
        self.visual_anchor = anchor2;
        proof {
            assert(state_view(*self) =~~= v0.expansion_fetched_step(hunk, line, lv));
            assert(state_view(*self).inv());
        }
    }

    /// An exact copy of the pending comments.
    fn clone_pending(&self) -> (r: Vec<PendingComment>)
        ensures
            r@ == self.pending_comments@,
    {
        let mut out: Vec<PendingComment> = Vec::new();
        let n = self.pending_comments.len();
        let mut k: usize = 0;
        while k < n
            invariant
                k <= n,
                n == self.pending_comments@.len(),
                out@ == self.pending_comments@.take(k as int),
            decreases n - k,
        {
            let c = &self.pending_comments[k];
            let copy = PendingComment {
                position: CommentPosition {
                    path: c.position.path.clone(),
                    line: c.position.line,
                },
                body: c.body.clone(),
            };
            proof {
                assert(copy == self.pending_comments@[k as int]);
                assert(self.pending_comments@.take(k + 1) =~= self.pending_comments@.take(
                    k as int,
                ).push(copy));
            }
            out.push(copy);
            k = k + 1;
        }
        proof {
            assert(self.pending_comments@.take(n as int) =~= self.pending_comments@);
        }
        out
    }

    /// Applies one action to completion, returning the intents it emits.
    /// No action ever leaves an index outside its addressable range.
    pub fn handle_action(&mut self, action: DiffAction) -> (events: Vec<DiffEvent>)
        requires
            state_view(*old(self)).inv(),
        ensures
            state_view(*final(self)) == state_view(*old(self)).step(action),
            events_view(events@) == state_view(*old(self)).step_events(action),
            state_view(*final(self)).inv(),
    {
        let is_nav = match &action {
            DiffAction::CursorDown
            | DiffAction::CursorUp
            | DiffAction::CursorFirst
            | DiffAction::CursorLast
            | DiffAction::FocusFileTree
            | DiffAction::FocusDiffContent
            | DiffAction::ToggleFocus
            | DiffAction::ScrollPageDown
            | DiffAction::ScrollPageUp
            | DiffAction::ToggleTreeNode => true,
            _ => false,
        };
        if is_nav {
            let events: Vec<DiffEvent> = Vec::new();
            proof {
                assert(events_view(events@) =~= Seq::<EventView>::empty());
            }
            self.handle_nav_action(action);
            events
        } else {
            self.handle_edit_action(action)
        }
    }

    /// Applies one movement, focus or tree action.
    #[verifier::rlimit(100)]
    fn handle_nav_action(&mut self, action: DiffAction)
        requires
            state_view(*old(self)).inv(),
            (action matches DiffAction::CursorDown || action matches DiffAction::CursorUp
                || action matches DiffAction::CursorFirst || action matches DiffAction::CursorLast
                || action matches DiffAction::FocusFileTree || action
                matches DiffAction::FocusDiffContent || action matches DiffAction::ToggleFocus
                || action matches DiffAction::ScrollPageDown || action
                matches DiffAction::ScrollPageUp || action matches DiffAction::ToggleTreeNode),
        ensures
            state_view(*final(self)) == state_view(*old(self)).step(action),
            state_view(*final(self)).inv(),
    {
        let ghost v0 = state_view(*old(self));
        match action {
            DiffAction::CursorDown => {
                if matches!(self.focus, PaneFocus::Tree) {
                    let flat = self.tree_rows();
                    let c = if flat.len() == 0 {
                        0
                    } else if self.tree_cursor + 1 < flat.len() {
                        self.tree_cursor + 1
                    } else {
                        flat.len() - 1
                    };
                    self.tree_move_to(c);
                } else {
                    let rows = self.content_rows();
                    let c = if rows.len() == 0 {
                        0
                    } else if self.content_cursor + 1 < rows.len() {
                        self.content_cursor + 1
                    } else {
                        rows.len() - 1
                    };
                    self.content_move_to(c);
                }
            },
            DiffAction::CursorUp => {
                if matches!(self.focus, PaneFocus::Tree) {
                    let c = if self.tree_cursor > 0 {
                        self.tree_cursor - 1
                    } else {
                        0
                    };
                    self.tree_move_to(c);
                } else {
                    let c = if self.content_cursor > 0 {
                        self.content_cursor - 1
                    } else {
                        0
                    };
                    self.content_move_to(c);
                }
            },
            DiffAction::CursorFirst => {
                if matches!(self.focus, PaneFocus::Tree) {
                    self.tree_move_to(0);
                } else {
                    self.content_move_to(0);
                }
            },
            DiffAction::CursorLast => {
                if matches!(self.focus, PaneFocus::Tree) {
                    let flat = self.tree_rows();
                    let c = if flat.len() == 0 {
                        0
                    } else {
                        flat.len() - 1
                    };
                    self.tree_move_to(c);
                } else {
                    let rows = self.content_rows();
                    let c = if rows.len() == 0 {
                        0
                    } else {
                        rows.len() - 1
                    };
                    self.content_move_to(c);
                }
            },
            DiffAction::FocusFileTree => {
                self.focus = PaneFocus::Tree;
            },
            DiffAction::FocusDiffContent => {
                self.focus = PaneFocus::Content;
            },
            DiffAction::ToggleFocus => {
                self.focus = if matches!(self.focus, PaneFocus::Tree) {
                    PaneFocus::Content
                } else {
                    PaneFocus::Tree
                };
            },
            DiffAction::ScrollPageDown => {
                let h = self.visible_height;
                if matches!(self.focus, PaneFocus::Tree) {
                    let flat = self.tree_rows();
                    let t = sat_add_exec(self.tree_cursor, h);
                    let c2 = if flat.len() == 0 {
                        0
                    } else if t < flat.len() {
                        t
                    } else {
                        flat.len() - 1
                    };
                    if c2 != self.tree_cursor {
                        let ts = sat_add_exec(self.tree_scroll, h);
                        let base = if ts <= c2 {
                            ts
                        } else {
                            c2
                        };
                        self.tree_cursor = c2;
                        self.tree_scroll = scroll_fix_exec(c2, base, h);
                        let ghost mid = state_view(*self);
                        self.resync_selection();
                        proof {
                            lemma_synced_selected(mid);
                        }
                    }
                    proof {
                        assert(state_view(*self) =~= v0.step(action));
                        assert(state_view(*self).inv());
                    }
                } else {
                    let rows = self.content_rows();
                    let t = sat_add_exec(self.content_cursor, h);
                    let c2 = if rows.len() == 0 {
                        0
                    } else if t < rows.len() {
                        t
                    } else {
                        rows.len() - 1
                    };
                    if c2 != self.content_cursor {
                        let ts = sat_add_exec(self.content_scroll, h);
                        let base = if ts <= c2 {
                            ts
                        } else {
                            c2
                        };
                        self.content_cursor = c2;
                        self.content_scroll = scroll_fix_exec(c2, base, h);
                    }
                    proof {
                        assert(state_view(*self) =~= v0.step(action));
                        assert(state_view(*self).inv());
                    }
                }
            },
            DiffAction::ScrollPageUp => {
                let h = self.visible_height;
                if matches!(self.focus, PaneFocus::Tree) {
                    let c2 = if self.tree_cursor >= h {
                        self.tree_cursor - h
                    } else {
                        0
                    };
                    if c2 != self.tree_cursor {
                        let t = if self.tree_scroll >= h {
                            self.tree_scroll - h
                        } else {
                            0
                        };
                        let base = if t <= c2 {
                            t
                        } else {
                            c2
                        };
                        self.tree_cursor = c2;
                        self.tree_scroll = scroll_fix_exec(c2, base, h);
                        let ghost mid = state_view(*self);
                        self.resync_selection();
                        proof {
                            lemma_synced_selected(mid);
                        }
                    }
                    proof {
                        assert(state_view(*self) =~= v0.step(action));
                        assert(state_view(*self).inv());
                    }
                } else {
                    let c2 = if self.content_cursor >= h {
                        self.content_cursor - h
                    } else {
                        0
                    };
                    if c2 != self.content_cursor {
                        let t = if self.content_scroll >= h {
                            self.content_scroll - h
                        } else {
                            0
                        };
                        let base = if t <= c2 {
                            t
                        } else {
                            c2
                        };
                        self.content_cursor = c2;
                        self.content_scroll = scroll_fix_exec(c2, base, h);
                    }
                    proof {
                        assert(state_view(*self) =~= v0.step(action));
                        assert(state_view(*self).inv());
                    }
                }
            },
            DiffAction::ToggleTreeNode => {
                self.apply_toggle_tree();
            },
            _ => {
                proof {
                    assert(false);
                }
            },
        }
        proof {
            assert(state_view(*self) =~= v0.step(action));
            assert(state_view(*self).inv());
        }
    }

    /// Applies one selection, comment, review or viewport action,
    /// returning the intents it emits.
    #[verifier::rlimit(100)]
    fn handle_edit_action(&mut self, action: DiffAction) -> (events: Vec<DiffEvent>)
        requires
            state_view(*old(self)).inv(),
            !(action matches DiffAction::CursorDown || action matches DiffAction::CursorUp
                || action matches DiffAction::CursorFirst || action matches DiffAction::CursorLast
                || action matches DiffAction::FocusFileTree || action
                matches DiffAction::FocusDiffContent || action matches DiffAction::ToggleFocus
                || action matches DiffAction::ScrollPageDown || action
                matches DiffAction::ScrollPageUp || action matches DiffAction::ToggleTreeNode),
        ensures
            state_view(*final(self)) == state_view(*old(self)).step(action),
            events_view(events@) == state_view(*old(self)).step_events(action),
            state_view(*final(self)).inv(),
    {
        let ghost v0 = state_view(*old(self));
        let mut events: Vec<DiffEvent> = Vec::new();
        proof {
            assert(events_view(events@) =~= Seq::<EventView>::empty());
        }
        match action {
            DiffAction::EnterVisualMode => {
                let rows = self.content_rows();
                if rows.len() > 0 {
                    self.visual_anchor = Some(self.content_cursor);
                }
            },
            DiffAction::ExitVisualMode => {
                self.visual_anchor = None;
            },
            DiffAction::StartComment => {
                self.apply_start_comment();
            },
            DiffAction::CancelComment => {
                self.comment_editor = None;
            },
            DiffAction::CommitComment => {
                let mut ed: Option<CommentDraft> = None;
                core::mem::swap(&mut self.comment_editor, &mut ed);
                match ed {
                    Some(d) => {
                        let ghost pend0 = comments_view(self.pending_comments@);
                        let c = PendingComment {
                            position: CommentPosition { path: d.path, line: d.line },
                            body: d.body,
                        };
                        self.pending_comments.push(c);
                        proof {
                            assert(comments_view(self.pending_comments@) =~= pend0.push(
                                c.to_view(),
                            ));
                        }
                    },
                    None => {},
                }
            },
            DiffAction::CommentInsertChar(c) => {
                let mut ed: Option<CommentDraft> = None;
                core::mem::swap(&mut self.comment_editor, &mut ed);
                match ed {
                    Some(d) => {
                        let mut d2 = d;
                        d2.body.push(c);
                        self.comment_editor = Some(d2);
                    },
                    None => {
                        self.comment_editor = None;
                    },
                }
            },
            DiffAction::CommentBackspace => {
                let mut ed: Option<CommentDraft> = None;
                core::mem::swap(&mut self.comment_editor, &mut ed);
                match ed {
                    Some(d) => {
                        let mut d2 = d;
                        let _last = d2.body.pop();
                        self.comment_editor = Some(d2);
                    },
                    None => {
                        self.comment_editor = None;
                    },
                }
            },
            DiffAction::ShowReviewPopup => {
                self.show_review_popup = true;
            },
            DiffAction::HideReviewPopup => {
                self.show_review_popup = false;
            },
            DiffAction::ReviewOptionNext => {
                self.selected_review_event = match self.selected_review_event {
                    ReviewEvent::CommentOnly => ReviewEvent::Approve,
                    ReviewEvent::Approve => ReviewEvent::RequestChanges,
                    ReviewEvent::RequestChanges => ReviewEvent::CommentOnly,
                };
            },
            DiffAction::ReviewOptionPrev => {
                self.selected_review_event = match self.selected_review_event {
                    ReviewEvent::CommentOnly => ReviewEvent::RequestChanges,
                    ReviewEvent::Approve => ReviewEvent::CommentOnly,
                    ReviewEvent::RequestChanges => ReviewEvent::Approve,
                };
            },
            DiffAction::SubmitReview => {
                if self.show_review_popup {
                    let comments = self.clone_pending();
                    let ev = DiffEvent::ReviewSubmissionRequested {
                        comments,
                        event: self.selected_review_event,
                    };
                    let ghost evs0 = events_view(events@);
                    events.push(ev);
                    self.show_review_popup = false;
                    proof {
                        assert(events_view(events@) =~= evs0.push(ev.to_view()));
                    }
                }
            },
            DiffAction::ReviewSubmitted { success } => {
                if success {
                    self.pending_comments.clear();
                    proof {
                        assert(comments_view(self.pending_comments@) =~= Seq::<
                            CommentView,
                        >::empty());
                    }
                }
            },
            DiffAction::SetViewport { width: _, height } => {
                let h = height as usize;
                self.visible_height = h;
                self.tree_scroll = scroll_fix_exec(self.tree_cursor, self.tree_scroll, h);
                self.content_scroll = scroll_fix_exec(
                    self.content_cursor,
                    self.content_scroll,
                    h,
                );
            },
            DiffAction::ToggleLineExpansion => {
                match self.apply_toggle_expansion() {
                    Some(e) => {
                        let ghost evs0 = events_view(events@);
                        events.push(e);
                        proof {
                            assert(events_view(events@) =~= evs0.push(e.to_view()));
                        }
                    },
                    None => {},
                }
            },
            DiffAction::ExpansionFetched { hunk, line, lines } => {
                self.apply_expansion_fetched(hunk, line, lines);
            },
            _ => {
                proof {
                    assert(false);
                }
            },
        }
        proof {
            assert(state_view(*self) =~= v0.step(action));
            assert(state_view(*self).inv());
        }
        events
    }

    /// Whether any pending comment of the selected file sits on the given
    /// effective line.
    pub fn has_comment_at(&self, line: usize) -> (r: bool)
        ensures
            r == ({
                let v = state_view(*self);
                v.selected_file matches Some(i) && i < v.diff.files.len() && exists|k: int|
                    0 <= k < v.pending.len() && (#[trigger] v.pending[k]).path
                        == v.diff.files[i as int].path && v.pending[k].line == line
            }),
    {
        let Some(i) = self.selected_file else {
            return false;
        };
        if i >= self.diff.files.len() {
            return false;
        }
        let ghost v = state_view(*self);
        let path = &self.diff.files[i].path;
        let mut k: usize = 0;
        let n = self.pending_comments.len();
        while k < n
            invariant
                k <= n,
                n == self.pending_comments@.len(),
                i < self.diff.files@.len(),
                v == state_view(*self),
                v.selected_file == Some(i),
                path@ == v.diff.files[i as int].path,
                forall|q: int|
                    0 <= q < k ==> !((#[trigger] v.pending[q]).path == v.diff.files[i as int].path
                        && v.pending[q].line == line),
            decreases n - k,
        {
            let c = &self.pending_comments[k];
            proof {
                assert(v.pending[k as int] == self.pending_comments@[k as int].to_view());
            }
            if c.position.line == line && str_eq(c.position.path.as_str(), path.as_str()) {
                return true;
            }
            k = k + 1;
        }
        false
    }
}

} // verus!
