use gh_pr_lander::commands::Action;
use gh_pr_lander::commands::CommandId;
use gh_pr_lander::commands::ViewId;
use gh_pr_lander::commands::default_keymap;
use gh_pr_lander::commands::filter_commands;
use gh_pr_lander::commands::get_issue_commands;
use gh_pr_lander::commands::get_palette_commands_with_hints;
use gh_pr_lander::config::IssueTrackerConfig;
use gh_pr_lander::issues::RepoContext;
use gh_pr_lander::config::AppConfig;
use gh_pr_lander::console::DebugConsoleAction;
use gh_pr_lander::console::DebugConsoleState;
use gh_pr_lander::console::DebugConsoleViewModel;
use gh_pr_lander::console::LogLevel;
use gh_pr_lander::console::OwnedLogRecord;
use gh_pr_lander::console::reduce_debug_console;
use gh_pr_lander::diff::PullRequestDiff;
use gh_pr_lander::jobs::JobStatus;
use gh_pr_lander::pr::LoadingState;
use gh_pr_lander::pr::MergeableStatus;
use gh_pr_lander::pr::Pr;
use gh_pr_lander::repo::AddRepoField;
use gh_pr_lander::repo::AddRepoFormState;
use gh_pr_lander::repo::MainViewState;
use gh_pr_lander::repo::Repository;
use gh_pr_lander::repo::RepositoryAction;
use gh_pr_lander::repo::reduce_add_repo_form;
use gh_pr_lander::repo::reduce_repository;
use gh_pr_lander::text::replace_all;
use gh_pr_lander::text::split_char;
use gh_pr_lander::text::str_lt;
use gh_pr_lander::text::usize_to_string;
use gh_pr_lander::viewer::DiffViewerAction;
use gh_pr_lander::viewer::ViewerPanelState;
use gh_pr_lander::viewer::reduce_diff_viewer;

#[test]
fn test_default_config() {
    let config = AppConfig::default();
    assert_eq!(config.ide_command, "code");
    assert!(!config.temp_dir.is_empty());
    assert!(!config.approval_message.is_empty());
}

#[test]
fn test_text_helpers() {
    assert_eq!(usize_to_string(0), "0");
    assert_eq!(usize_to_string(907), "907");
    assert_eq!(replace_all("a$X-b$X", "$X", "42"), "a42-b42");
    assert_eq!(replace_all("nothing here", "$X", "42"), "nothing here");
    assert_eq!(split_char("a/b//c", '/'), vec!["a", "b", "", "c"]);
    assert_eq!(split_char("", '/'), vec![""]);
    assert!(str_lt("abc", "abd"));
    assert!(str_lt("ab", "abc"));
    assert!(!str_lt("abc", "abc"));
}

#[test]
fn test_command_tables() {
    assert_eq!(CommandId::PrMerge.to_action(), Action::PrMergeRequest);
    assert_eq!(
        CommandId::DebugToggleConsoleView.to_action(),
        Action::PushView(ViewId::DebugConsole)
    );
    assert_eq!(CommandId::RepositoryAdd.title(), "Add repository");
    assert_eq!(CommandId::PrMerge.title(), "Merge PRs");
    assert_eq!(CommandId::GlobalQuit.description(), "Exit the application");
    assert_eq!(CommandId::PrMerge.category(), "Pull Request");
    assert!(CommandId::PrMerge.show_in_palette());
    assert!(!CommandId::NavigateNext.show_in_palette());
}

#[test]
fn test_default_keymap_hints() {
    let keymap = default_keymap();
    assert!(keymap.bindings.len() > 0);
    let down = keymap.compact_hint_for_command(CommandId::NavigateNext).unwrap();
    assert_eq!(down, "j/↓");
    assert!(keymap.compact_hint_for_command(CommandId::DebugLogDump).is_none());
}

#[test]
fn test_status_tables() {
    assert_eq!(MergeableStatus::Ready.icon(), "✓");
    assert_eq!(MergeableStatus::Conflicted.label(), "Conflicts");
    assert_eq!(MergeableStatus::default(), MergeableStatus::Unknown);
    assert_eq!(JobStatus::Failure.icon(), "✗");
    assert_eq!(LoadingState::default(), LoadingState::Idle);
}

#[test]
fn test_pr_new_stamps_time() {
    let pr = Pr::new(7, "title", "author", "abc123");
    assert_eq!(pr.number, 7);
    assert_eq!(pr.created_at, pr.updated_at);
    let pr = pr.with_html_url("https://example.com/pr/7");
    assert_eq!(pr.html_url, "https://example.com/pr/7");
}

#[test]
fn test_debug_console_scrolling() {
    let mut state = DebugConsoleState::default();
    for i in 0..5u64 {
        state = reduce_debug_console(
            state,
            &DebugConsoleAction::LogAdded(OwnedLogRecord {
                level: LogLevel::Info,
                message: format!("m{}", i),
                ts_millis: i,
            }),
        );
    }
    assert_eq!(state.logs.len(), 5);
    state = reduce_debug_console(state, &DebugConsoleAction::SetVisibleHeight(2));
    state = reduce_debug_console(state, &DebugConsoleAction::NavigateToTop);
    assert_eq!(state.scroll_offset, 3);
    state = reduce_debug_console(state, &DebugConsoleAction::NavigateNext);
    assert_eq!(state.scroll_offset, 2);
    state = reduce_debug_console(state, &DebugConsoleAction::NavigatePrevious);
    assert_eq!(state.scroll_offset, 3);
    state = reduce_debug_console(state, &DebugConsoleAction::NavigatePrevious);
    assert_eq!(state.scroll_offset, 3);
    state = reduce_debug_console(state, &DebugConsoleAction::NavigateToBottom);
    assert_eq!(state.scroll_offset, 0);
    state = reduce_debug_console(state, &DebugConsoleAction::Clear);
    assert!(state.logs.is_empty());
}

#[test]
fn test_debug_console_view_model() {
    let mut state = DebugConsoleState::default();
    for i in 0..4u64 {
        state = reduce_debug_console(
            state,
            &DebugConsoleAction::LogAdded(OwnedLogRecord {
                level: LogLevel::Debug,
                message: format!("r{}", i),
                ts_millis: i,
            }),
        );
    }
    let keymap = default_keymap();
    let vm = DebugConsoleViewModel::new(&state, &keymap);
    assert_eq!(vm.footer_hints.close, "`");
    assert_eq!(vm.footer_hints.scroll, "j/↓/k/↑");
    assert_eq!(vm.title(), " Debug Console (c to clear) ");
    let visible = vm.visible_logs(2);
    assert_eq!(visible.len(), 2);
    assert_eq!(visible[0].message, "r2");
    assert_eq!(visible[1].message, "r3");

    // Scrolled back, the title carries the offset indicator.
    let mut state = state;
    state = reduce_debug_console(state, &DebugConsoleAction::SetVisibleHeight(1));
    state = reduce_debug_console(state, &DebugConsoleAction::NavigateToTop);
    assert_eq!(state.scroll_offset, 3);
    let vm = DebugConsoleViewModel::new(&state, &keymap);
    assert_eq!(vm.title(), " Debug Console (c to clear) - ↓3 ");
}

#[test]
fn test_repository_reducers() {
    let state = MainViewState::default();
    let repo = Repository::new("acme", "widgets", "main", "github.com");
    assert_eq!(repo.display_name(), "acme/widgets");
    let state = reduce_repository(state, &RepositoryAction::AddRepository(repo));
    assert_eq!(state.repositories.len(), 1);

    let form = AddRepoFormState::default();
    assert_eq!(form.focused_field, AddRepoField::Url);
    let mut form = form;
    for c in "https://github.com/acme/widgets".chars() {
        form = reduce_add_repo_form(form, &RepositoryAction::FormChar(c));
    }
    assert_eq!(form.org, "acme");
    assert_eq!(form.repo, "widgets");
    assert!(form.is_valid());
    let form = reduce_add_repo_form(form, &RepositoryAction::FormNextField);
    assert_eq!(form.focused_field, AddRepoField::Org);
    let form = reduce_add_repo_form(form, &RepositoryAction::FormClose);
    assert_eq!(form.url, "");
    assert!(!form.is_valid());
}

#[test]
fn test_viewer_panel_reducer() {
    let panel = ViewerPanelState::default();
    assert_eq!(panel.loading, LoadingState::Idle);
    let panel = reduce_diff_viewer(panel, &DiffViewerAction::LoadStart);
    assert_eq!(panel.loading, LoadingState::Loading);

    let mut diff = PullRequestDiff::new("base", "head");
    diff.files.push(gh_pr_lander::diff::FileDiff::new("src/main.rs"));
    let panel = reduce_diff_viewer(
        panel,
        &DiffViewerAction::Loaded { diff, pr_number: 12, pr_title: "t".to_string() },
    );
    assert_eq!(panel.loading, LoadingState::Loaded);
    assert_eq!(panel.pr_number, 12);
    assert!(panel.inner.is_some());

    let panel = reduce_diff_viewer(panel, &DiffViewerAction::NavigateDown);
    assert_eq!(panel.inner.as_ref().unwrap().tree_cursor, 1);

    let panel = reduce_diff_viewer(panel, &DiffViewerAction::LoadError("boom".to_string()));
    match &panel.loading {
        LoadingState::Error(m) => assert_eq!(m, "boom"),
        _ => panic!("expected an error state"),
    }
}

#[test]
fn test_palette_commands_and_filter() {
    let keymap = default_keymap();
    let commands = get_palette_commands_with_hints(&keymap);
    // Navigation commands stay out of the palette.
    assert!(commands.iter().all(|c| c.id != Some(CommandId::NavigateNext)));
    assert!(commands.iter().any(|c| c.id == Some(CommandId::PrMerge)));

    // An empty query keeps everything.
    let all = filter_commands(&commands, "");
    assert_eq!(all.len(), commands.len());

    // Case-insensitive containment over title, description and category.
    let merged = filter_commands(&commands, "MERGE");
    assert!(merged.iter().any(|c| c.id == Some(CommandId::PrMerge)));
    assert!(merged.iter().all(|c| {
        c.title.to_lowercase().contains("merge") || c.description.to_lowercase().contains("merge")
            || c.category.to_lowercase().contains("merge")
    }));
    let none = filter_commands(&commands, "no such command text");
    assert!(none.is_empty());
}

#[test]
fn test_issue_commands_deduplicated() {
    let configs = vec![IssueTrackerConfig {
        name: "Jira".to_string(),
        pattern: r"BAR-\d+".to_string(),
        url: "https://jira.example.com/browse/$ISSUE_NO".to_string(),
        repos: vec![],
    }];
    let ctx = RepoContext::new("my-org", "my-repo", "github.com");
    let texts = vec!["fix BAR-1".to_string(), "also BAR-1".to_string(), "and BAR-2".to_string()];
    let commands = get_issue_commands(&configs, &texts, &ctx);
    assert_eq!(commands.len(), 2);
    assert_eq!(commands[0].title, "Open issue BAR-1");
    assert_eq!(commands[0].description, "Open issue BAR-1 on Jira");
    assert_eq!(commands[0].category, "Issue Tracker");
    assert_eq!(commands[0].url.as_deref(), Some("https://jira.example.com/browse/BAR-1"));
    assert_eq!(commands[1].title, "Open issue BAR-2");
}
