use gh_pr_lander::buildlog::JobNode;
use gh_pr_lander::buildlog::LogLine;
use gh_pr_lander::buildlog::LogPanel;
use gh_pr_lander::buildlog::StepNode;
use gh_pr_lander::buildlog::WorkflowNode;

fn line(text: &str) -> LogLine {
    LogLine { display_content: text.to_string(), command_is_error: None }
}

fn error_command_line(text: &str) -> LogLine {
    LogLine { display_content: text.to_string(), command_is_error: Some(true) }
}

fn sample_panel() -> LogPanel {
    let step_ok = StepNode { name: "build".to_string(), error_count: 0, lines: vec![line("ok")] };
    let step_bad = StepNode {
        name: "test".to_string(),
        error_count: 2,
        lines: vec![
            line("running"),
            error_command_line("assertion failed"),
            line("note: Error: exit code 1"),
            line("done"),
        ],
    };
    let job_a = JobNode {
        name: "lint".to_string(),
        error_count: 0,
        steps: vec![step_ok.clone()],
    };
    let job_b = JobNode {
        name: "test".to_string(),
        error_count: 2,
        steps: vec![step_ok, step_bad],
    };
    let workflow = WorkflowNode { name: "CI".to_string(), jobs: vec![job_a, job_b] };
    LogPanel {
        workflows: vec![workflow],
        expanded_nodes: vec![vec![0]],
        cursor_path: vec![0],
        scroll_offset: 0,
        viewport_height: 20,
        horizontal_scroll: 0,
    }
}

#[test]
fn test_log_panel_flatten_respects_expansion() {
    let mut panel = sample_panel();
    // Workflow expanded, jobs collapsed: workflow row + two job rows.
    assert_eq!(panel.flatten_visible_nodes(), vec![vec![0], vec![0, 0], vec![0, 1]]);

    // Expanding the failing job shows its steps.
    panel.cursor_path = vec![0, 1];
    panel.toggle_at_cursor();
    assert_eq!(
        panel.flatten_visible_nodes(),
        vec![vec![0], vec![0, 0], vec![0, 1], vec![0, 1, 0], vec![0, 1, 1]]
    );

    // Expanding the failing step shows its four log lines.
    panel.cursor_path = vec![0, 1, 1];
    panel.toggle_at_cursor();
    assert_eq!(panel.flatten_visible_nodes().len(), 9);

    // Collapsing again removes them.
    panel.toggle_at_cursor();
    assert_eq!(panel.flatten_visible_nodes().len(), 5);
}

#[test]
fn test_log_panel_navigation_clamps() {
    let mut panel = sample_panel();
    panel.navigate_down();
    assert_eq!(panel.cursor_path, vec![0, 0]);
    panel.navigate_down();
    assert_eq!(panel.cursor_path, vec![0, 1]);
    // At the last visible row, down is a no-op.
    panel.navigate_down();
    assert_eq!(panel.cursor_path, vec![0, 1]);
    panel.navigate_up();
    panel.navigate_up();
    assert_eq!(panel.cursor_path, vec![0]);
    // At the first row, up is a no-op.
    panel.navigate_up();
    assert_eq!(panel.cursor_path, vec![0]);
}

#[test]
fn test_log_panel_find_errors() {
    let mut panel = sample_panel();
    // The failing job is the only visible error-bearing row.
    panel.find_next_error();
    assert_eq!(panel.cursor_path, vec![0, 1]);

    // With the job and step expanded, the next search dives into the
    // step rows and lines.
    panel.toggle_at_cursor(); // expand job [0, 1]
    panel.find_next_error();
    assert_eq!(panel.cursor_path, vec![0, 1, 1]); // the failing step
    panel.toggle_at_cursor(); // expand step [0, 1, 1]
    panel.find_next_error();
    // First error line: the parsed error command at line 1.
    assert_eq!(panel.cursor_path, vec![0, 1, 1, 1]);
    panel.find_next_error();
    // Next error line: the plain text holding "error:" (case-insensitive).
    assert_eq!(panel.cursor_path, vec![0, 1, 1, 2]);

    // Going back finds the previous error line.
    panel.find_prev_error();
    assert_eq!(panel.cursor_path, vec![0, 1, 1, 1]);

    // Past the last error line the search wraps to the first error row.
    panel.cursor_path = vec![0, 1, 1, 3];
    panel.find_next_error();
    assert_eq!(panel.cursor_path, vec![0, 1]);
}

#[test]
fn test_log_panel_no_errors_is_noop() {
    let step = StepNode { name: "build".to_string(), error_count: 0, lines: vec![line("fine")] };
    let job = JobNode { name: "lint".to_string(), error_count: 0, steps: vec![step] };
    let workflow = WorkflowNode { name: "CI".to_string(), jobs: vec![job] };
    let mut panel = LogPanel {
        workflows: vec![workflow],
        expanded_nodes: vec![vec![0]],
        cursor_path: vec![0],
        scroll_offset: 0,
        viewport_height: 20,
        horizontal_scroll: 0,
    };
    panel.find_next_error();
    assert_eq!(panel.cursor_path, vec![0]);
    panel.find_prev_error();
    assert_eq!(panel.cursor_path, vec![0]);
    assert!(panel.is_expanded(&vec![0]));
    assert!(!panel.is_expanded(&vec![0, 0]));
}
