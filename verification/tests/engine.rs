use gh_pr_lander::diff::DiffLine;
use gh_pr_lander::diff::FileDiff;
use gh_pr_lander::diff::Hunk;
use gh_pr_lander::diff::PullRequestDiff;
use gh_pr_lander::nav::DiffAction;
use gh_pr_lander::nav::DiffEvent;
use gh_pr_lander::nav::DiffViewerState;
use gh_pr_lander::nav::PaneFocus;
use gh_pr_lander::nav::ReviewEvent;
use gh_pr_lander::rows::flatten_hunk_info;

fn hunk_with_lines(n: usize) -> Hunk {
    let mut hunk = Hunk::new(1, n, 1, n);
    for i in 0..n {
        hunk.lines.push(DiffLine::context("line", i + 1, i + 1));
    }
    hunk
}

fn sample_diff() -> PullRequestDiff {
    let mut diff = PullRequestDiff::new("base", "head");

    let mut file_a = FileDiff::new("src/alpha.rs");
    file_a.hunks.push(hunk_with_lines(3));
    file_a.recalculate_stats();

    let mut file_b = FileDiff::new("src/beta.rs");
    file_b.hunks.push(hunk_with_lines(2));
    file_b.hunks.push(hunk_with_lines(4));
    file_b.recalculate_stats();

    diff.files.push(file_a);
    diff.files.push(file_b);
    diff.recalculate_totals();
    diff
}

#[test]
fn test_flatten_hunk_rows() {
    // A hunk with 3 lines yields exactly 4 rows: one header then the
    // lines in original order.
    let hunks = vec![hunk_with_lines(3)];
    let rows = flatten_hunk_info(&hunks);
    assert_eq!(rows.len(), 4);
    assert_eq!(rows[0], (0, None));
    assert_eq!(rows[1], (0, Some(0)));
    assert_eq!(rows[2], (0, Some(1)));
    assert_eq!(rows[3], (0, Some(2)));
}

#[test]
fn test_flatten_hunk_rows_two_hunks() {
    let hunks = vec![hunk_with_lines(1), hunk_with_lines(2)];
    let rows = flatten_hunk_info(&hunks);
    assert_eq!(
        rows,
        vec![(0, None), (0, Some(0)), (1, None), (1, Some(0)), (1, Some(1))]
    );
}

#[test]
fn test_visual_selection_normalized() {
    // Anchoring at index 5 then moving to index 2 yields (2, 5).
    let mut state = DiffViewerState::new(sample_diff());
    state.handle_action(DiffAction::FocusDiffContent);
    // The first file has 4 content rows; select the second file's longer
    // sequence by driving the tree cursor onto it.
    state.handle_action(DiffAction::FocusFileTree);
    state.handle_action(DiffAction::CursorDown); // alpha.rs row
    state.handle_action(DiffAction::CursorDown); // beta.rs row -> selects beta
    state.handle_action(DiffAction::FocusDiffContent);
    for _ in 0..5 {
        state.handle_action(DiffAction::CursorDown);
    }
    assert_eq!(state.content_cursor, 5);
    state.handle_action(DiffAction::EnterVisualMode);
    state.handle_action(DiffAction::CursorUp);
    state.handle_action(DiffAction::CursorUp);
    state.handle_action(DiffAction::CursorUp);
    assert_eq!(state.visual_selection(), Some((2, 5)));
    state.handle_action(DiffAction::ExitVisualMode);
    assert_eq!(state.visual_selection(), None);
}

#[test]
fn test_file_switch_resets_content_pane() {
    let mut state = DiffViewerState::new(sample_diff());
    // Row 0 is the "src" directory, so nothing is selected yet; landing
    // on alpha.rs selects it.
    assert_eq!(state.selected_file, None);
    state.handle_action(DiffAction::CursorDown);
    assert_eq!(state.selected_file, Some(0));
    // Move the content cursor away from 0.
    state.handle_action(DiffAction::FocusDiffContent);
    state.handle_action(DiffAction::CursorDown);
    state.handle_action(DiffAction::CursorDown);
    assert_eq!(state.content_cursor, 2);

    // Land the tree cursor on beta.rs: selection switches and resets.
    state.handle_action(DiffAction::FocusFileTree);
    state.handle_action(DiffAction::CursorDown);
    assert_eq!(state.selected_file, Some(1));
    assert_eq!(state.content_cursor, 0);
    assert_eq!(state.content_scroll, 0);
    // beta.rs has 2 hunks with 2 + 4 lines: 8 rows.
    assert_eq!(state.content_rows().len(), 8);
}

#[test]
fn test_cursor_clamps_at_boundaries() {
    let mut state = DiffViewerState::new(sample_diff());
    // Tree has 3 rows: src, alpha.rs, beta.rs.
    assert_eq!(state.tree_rows().len(), 3);
    state.handle_action(DiffAction::CursorUp);
    assert_eq!(state.tree_cursor, 0);
    for _ in 0..10 {
        state.handle_action(DiffAction::CursorDown);
    }
    assert_eq!(state.tree_cursor, 2);
    state.handle_action(DiffAction::CursorFirst);
    assert_eq!(state.tree_cursor, 0);
    state.handle_action(DiffAction::CursorLast);
    assert_eq!(state.tree_cursor, 2);
}

#[test]
fn test_collapse_keeps_cursor_in_range() {
    let mut state = DiffViewerState::new(sample_diff());
    // Cursor on the "src" directory row (index 0); collapsing removes
    // both file rows but the cursor stays on a visible row.
    state.handle_action(DiffAction::ToggleTreeNode);
    let flat = state.tree_rows();
    assert_eq!(flat.len(), 1);
    assert!(state.tree_cursor < flat.len());
    assert_eq!(flat[state.tree_cursor].name, "src");
    assert!(!flat[state.tree_cursor].is_expanded);

    // Toggling again restores the rows.
    state.handle_action(DiffAction::ToggleTreeNode);
    assert_eq!(state.tree_rows().len(), 3);
}

#[test]
fn test_collapse_with_cursor_past_block_clamps() {
    let mut state = DiffViewerState::new(sample_diff());
    // Move the cursor to the last file row, then collapse its ancestor
    // via the tree API and apply a cursor move: no index ever leaves the
    // addressable range.
    state.handle_action(DiffAction::CursorLast);
    assert_eq!(state.tree_cursor, 2);
    state.handle_action(DiffAction::CursorFirst);
    state.handle_action(DiffAction::ToggleTreeNode);
    assert_eq!(state.tree_rows().len(), 1);
    state.handle_action(DiffAction::CursorDown);
    assert_eq!(state.tree_cursor, 0);
}

#[test]
fn test_focus_switch_keeps_other_cursor() {
    let mut state = DiffViewerState::new(sample_diff());
    state.handle_action(DiffAction::CursorDown); // land on alpha.rs
    state.handle_action(DiffAction::FocusDiffContent);
    state.handle_action(DiffAction::CursorDown);
    assert_eq!(state.content_cursor, 1);
    state.handle_action(DiffAction::FocusFileTree);
    assert_eq!(state.focus, PaneFocus::Tree);
    // Switching focus does not alter the other pane's cursor.
    assert_eq!(state.content_cursor, 1);
    state.handle_action(DiffAction::ToggleFocus);
    assert_eq!(state.focus, PaneFocus::Content);
    assert_eq!(state.content_cursor, 1);
}

#[test]
fn test_comment_lifecycle() {
    let mut state = DiffViewerState::new(sample_diff());
    state.handle_action(DiffAction::CursorDown); // land on alpha.rs
    state.handle_action(DiffAction::FocusDiffContent);
    // Row 0 is a hunk header: starting a comment there is refused.
    state.handle_action(DiffAction::StartComment);
    assert!(state.comment_editor.is_none());

    // Row 1 is the first line.
    state.handle_action(DiffAction::CursorDown);
    state.handle_action(DiffAction::StartComment);
    assert!(state.comment_editor.is_some());

    state.handle_action(DiffAction::CommentInsertChar('h'));
    state.handle_action(DiffAction::CommentInsertChar('i'));
    state.handle_action(DiffAction::CommentInsertChar('!'));
    state.handle_action(DiffAction::CommentBackspace);
    state.handle_action(DiffAction::CommitComment);
    assert!(state.comment_editor.is_none());
    assert_eq!(state.pending_comments.len(), 1);
    assert_eq!(state.pending_comments[0].body, "hi");
    assert_eq!(state.pending_comments[0].position.path, "src/alpha.rs");
    assert_eq!(state.pending_comments[0].position.line, 1);
    assert!(state.has_comment_at(1));
    assert!(!state.has_comment_at(2));

    // Cancelling discards a draft without touching the pending set.
    state.handle_action(DiffAction::StartComment);
    state.handle_action(DiffAction::CommentInsertChar('x'));
    state.handle_action(DiffAction::CancelComment);
    assert!(state.comment_editor.is_none());
    assert_eq!(state.pending_comments.len(), 1);
}

#[test]
fn test_review_submission_flow() {
    let mut state = DiffViewerState::new(sample_diff());
    state.handle_action(DiffAction::CursorDown); // land on alpha.rs
    state.handle_action(DiffAction::FocusDiffContent);
    state.handle_action(DiffAction::CursorDown);
    state.handle_action(DiffAction::StartComment);
    state.handle_action(DiffAction::CommentInsertChar('k'));
    state.handle_action(DiffAction::CommitComment);

    // Submitting without the popup emits nothing.
    let events = state.handle_action(DiffAction::SubmitReview);
    assert!(events.is_empty());

    state.handle_action(DiffAction::ShowReviewPopup);
    state.handle_action(DiffAction::ReviewOptionNext);
    assert_eq!(state.selected_review_event, ReviewEvent::Approve);
    state.handle_action(DiffAction::ReviewOptionPrev);
    state.handle_action(DiffAction::ReviewOptionPrev);
    assert_eq!(state.selected_review_event, ReviewEvent::RequestChanges);

    let events = state.handle_action(DiffAction::SubmitReview);
    assert_eq!(events.len(), 1);
    match &events[0] {
        DiffEvent::ReviewSubmissionRequested { comments, event } => {
            assert_eq!(comments.len(), 1);
            assert_eq!(comments[0].body, "k");
            assert_eq!(*event, ReviewEvent::RequestChanges);
        },
        _ => panic!("expected a review submission intent"),
    }
    // The pending set survives until the sink reports success.
    assert_eq!(state.pending_comments.len(), 1);
    state.handle_action(DiffAction::ReviewSubmitted { success: false });
    assert_eq!(state.pending_comments.len(), 1);
    state.handle_action(DiffAction::ReviewSubmitted { success: true });
    assert_eq!(state.pending_comments.len(), 0);
}

#[test]
fn test_scroll_follows_cursor() {
    let mut state = DiffViewerState::new(sample_diff());
    state.handle_action(DiffAction::SetViewport { width: 80, height: 2 });
    state.handle_action(DiffAction::FocusFileTree);
    state.handle_action(DiffAction::CursorDown);
    state.handle_action(DiffAction::CursorDown);
    // Cursor 2 with a 2-row window forces the scroll to 1.
    assert_eq!(state.tree_cursor, 2);
    assert_eq!(state.tree_scroll, 1);
    state.handle_action(DiffAction::CursorFirst);
    assert_eq!(state.tree_scroll, 0);
}

#[test]
fn test_page_moves_clamp() {
    let mut state = DiffViewerState::new(sample_diff());
    state.handle_action(DiffAction::SetViewport { width: 80, height: 3 });
    state.handle_action(DiffAction::CursorDown); // land on alpha.rs
    state.handle_action(DiffAction::FocusDiffContent);
    // alpha.rs has 4 rows; one page down from 0 clamps to the last row.
    state.handle_action(DiffAction::ScrollPageDown);
    assert_eq!(state.content_cursor, 3);
    state.handle_action(DiffAction::ScrollPageUp);
    assert_eq!(state.content_cursor, 0);
    assert_eq!(state.content_scroll, 0);
}

#[test]
fn test_empty_diff_is_safe() {
    let mut state = DiffViewerState::new(PullRequestDiff::new("base", "head"));
    assert_eq!(state.selected_file, None);
    assert_eq!(state.tree_rows().len(), 0);
    state.handle_action(DiffAction::CursorDown);
    state.handle_action(DiffAction::ToggleTreeNode);
    state.handle_action(DiffAction::FocusDiffContent);
    state.handle_action(DiffAction::CursorDown);
    state.handle_action(DiffAction::StartComment);
    assert!(state.comment_editor.is_none());
    assert_eq!(state.tree_cursor, 0);
    assert_eq!(state.content_cursor, 0);
}

#[test]
fn test_diff_totals_recalculated() {
    let diff = sample_diff();
    // Every line in the sample is a context line, so no additions.
    assert_eq!(diff.additions, 0);
    let mut file = FileDiff::new("x.rs");
    let mut hunk = Hunk::new(1, 3, 1, 4);
    hunk.lines.push(DiffLine::context("fn main() {", 1, 1));
    hunk.lines.push(DiffLine::addition("    body();", 2));
    hunk.lines.push(DiffLine::deletion("    old();", 2));
    hunk.lines.push(DiffLine::context("}", 3, 3));
    file.hunks.push(hunk);
    file.recalculate_stats();
    assert_eq!(file.additions, 1);
    assert_eq!(file.deletions, 1);
    let mut diff2 = PullRequestDiff::new("a", "b");
    diff2.files.push(file);
    diff2.recalculate_totals();
    assert_eq!(diff2.additions, 1);
    assert_eq!(diff2.deletions, 1);
}

#[test]
fn test_display_name_is_last_segment() {
    let file = FileDiff::new("src/deep/nested/mod.rs");
    assert_eq!(file.display_name(), "mod.rs");
}

#[test]
fn test_line_expansion_flow() {
    let mut diff = PullRequestDiff::new("base", "head");
    let mut file = FileDiff::new("src/alpha.rs");
    let mut hunk = Hunk::new(10, 2, 10, 2);
    hunk.lines.push(DiffLine::expansion(9, 9));
    hunk.lines.push(DiffLine::context("kept", 10, 10));
    file.hunks.push(hunk);
    diff.files.push(file);
    let mut state = DiffViewerState::new(diff);
    state.handle_action(DiffAction::CursorDown); // land on alpha.rs
    state.handle_action(DiffAction::FocusDiffContent);
    // Rows: header, placeholder, context line.
    assert_eq!(state.content_rows().len(), 3);

    // On the header nothing is requested.
    let events = state.handle_action(DiffAction::ToggleLineExpansion);
    assert!(events.is_empty());

    // On the placeholder the fetch intent is emitted and the marker set.
    state.handle_action(DiffAction::CursorDown);
    let events = state.handle_action(DiffAction::ToggleLineExpansion);
    assert_eq!(events.len(), 1);
    match &events[0] {
        DiffEvent::ExpansionRequested { path, hunk, line } => {
            assert_eq!(path, "src/alpha.rs");
            assert_eq!((*hunk, *line), (0, 0));
        },
        _ => panic!("expected an expansion intent"),
    }
    assert!(state.diff.files[0].hunks[0].lines[0].is_expanded);
    // Requesting the same placeholder again is a no-op.
    let events = state.handle_action(DiffAction::ToggleLineExpansion);
    assert!(events.is_empty());

    // Move to the last row, then splice three real lines in place of
    // the placeholder: indices after the splice point shift.
    state.handle_action(DiffAction::CursorDown);
    assert_eq!(state.content_cursor, 2);
    let fetched = vec![
        DiffLine::context("ctx a", 7, 7),
        DiffLine::context("ctx b", 8, 8),
        DiffLine::context("ctx c", 9, 9),
    ];
    state.handle_action(DiffAction::ExpansionFetched { hunk: 0, line: 0, lines: fetched });
    assert_eq!(state.content_rows().len(), 5);
    assert_eq!(state.diff.files[0].hunks[0].lines.len(), 4);
    assert_eq!(state.diff.files[0].hunks[0].lines[0].content, "ctx a");
    assert_eq!(state.diff.files[0].hunks[0].lines[3].content, "kept");
    // The cursor pointed past the splice point and was shifted by two.
    assert_eq!(state.content_cursor, 4);
}

#[test]
fn test_expansion_fetched_ignores_bad_positions() {
    let mut state = DiffViewerState::new(sample_diff());
    state.handle_action(DiffAction::CursorDown); // land on alpha.rs
    state.handle_action(DiffAction::FocusDiffContent);
    let before = state.content_rows();
    state.handle_action(DiffAction::ExpansionFetched { hunk: 9, line: 0, lines: vec![] });
    // A context line is not a placeholder either.
    state.handle_action(DiffAction::ExpansionFetched { hunk: 0, line: 0, lines: vec![] });
    assert_eq!(state.content_rows(), before);
}

#[test]
fn test_boundary_moves_are_silent_noops() {
    // Two top-level files given in reverse alphabetical order: the tree
    // sorts them, so row 0 ("a.rs") is not the first file of the diff.
    let mut diff = PullRequestDiff::new("base", "head");
    let mut file_b = FileDiff::new("b.rs");
    file_b.hunks.push(hunk_with_lines(2));
    let mut file_a = FileDiff::new("a.rs");
    file_a.hunks.push(hunk_with_lines(3));
    diff.files.push(file_b);
    diff.files.push(file_a);

    let mut state = DiffViewerState::new(diff);
    // The initial selection agrees with the row under the cursor.
    assert_eq!(state.tree_cursor, 0);
    assert_eq!(state.selected_file, Some(1)); // "a.rs" is files[1]
    assert_eq!(state.content_rows().len(), 4);

    // Give the content pane a remembered position, then hit the tree's
    // upper boundary: nothing changes.
    state.handle_action(DiffAction::FocusDiffContent);
    state.handle_action(DiffAction::CursorDown);
    state.handle_action(DiffAction::FocusFileTree);
    state.handle_action(DiffAction::CursorUp);
    assert_eq!(state.tree_cursor, 0);
    assert_eq!(state.selected_file, Some(1));
    assert_eq!(state.content_cursor, 1);
    assert_eq!(state.content_scroll, 0);

    // The lower boundary on the tree, and both boundaries on the content
    // pane, are no-ops too.
    state.handle_action(DiffAction::CursorLast);
    let selected = state.selected_file;
    state.handle_action(DiffAction::CursorDown);
    assert_eq!(state.tree_cursor, 1);
    assert_eq!(state.selected_file, selected);
    state.handle_action(DiffAction::FocusDiffContent);
    state.handle_action(DiffAction::CursorFirst);
    state.handle_action(DiffAction::CursorUp);
    assert_eq!(state.content_cursor, 0);
    state.handle_action(DiffAction::CursorLast);
    let at_end = state.content_cursor;
    state.handle_action(DiffAction::CursorDown);
    assert_eq!(state.content_cursor, at_end);
}
