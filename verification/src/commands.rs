//! Command identifiers, the actions they map to, and the default keymap.

use vstd::prelude::*;

use crate::text::concat_str;
use crate::text::contains_seq;
use crate::text::lower_of;

verus! {

/// Identifier of a view that can be pushed onto the view stack.
#[derive(Debug, Clone, Copy, PartialEq, Eq, Structural)]
pub enum ViewId {
    Splash,
    Main,
    DebugConsole,
    CommandPalette,
    KeyBindings,
}

/// A semantic action dispatched when a command runs.
#[derive(Debug, Clone, Copy, PartialEq, Eq, Structural)]
pub enum Action {
    RepositoryAdd,
    RepositoryNext,
    RepositoryPrevious,
    RepositoryOpenInBrowser,
    NavigateNext,
    NavigatePrevious,
    NavigateLeft,
    NavigateRight,
    NavigateToTop,
    NavigateToBottom,
    PushView(ViewId),
    DebugConsoleClear,
    DebugConsoleDumpLogs,
    PrToggleSelection,
    PrSelectAll,
    PrDeselectAll,
    PrRefresh,
    PrOpenInBrowser,
    PrMergeRequest,
    PrRebaseRequest,
    PrApproveRequest,
    PrCloseRequest,
    PrRerunFailedJobs,
    PrOpenBuildLogs,
    PrOpenInIDE,
    PrCycleFilter,
    PrClearFilter,
    MergeBotStart,
    MergeBotStop,
    MergeBotAddToQueue,
    BuildLogOpen,
    BuildLogNextError,
    BuildLogPrevError,
    BuildLogToggleTimestamps,
    BuildLogExpandAll,
    BuildLogCollapseAll,
    GlobalClose,
    GlobalQuit,
}

/// Unique identifier for each command a user can trigger.
#[derive(Debug, Clone, Copy, PartialEq, Eq, Hash, Structural)]
pub enum CommandId {
    RepositoryAdd,
    RepositoryNext,
    RepositoryPrevious,
    RepositoryOpenInBrowser,
    NavigateNext,
    NavigatePrevious,
    NavigateLeft,
    NavigateRight,
    NavigateToTop,
    NavigateToBottom,
    DebugToggleConsoleView,
    DebugClearLogs,
    DebugLogDump,
    CommandPaletteOpen,
    PrToggleSelection,
    PrSelectAll,
    PrDeselectAll,
    PrRefresh,
    PrOpenInBrowser,
    PrMerge,
    PrRebase,
    PrApprove,
    PrClose,
    PrRerunFailedJobs,
    PrOpenBuildLogs,
    PrOpenInIDE,
    PrCycleFilter,
    PrClearFilter,
    MergeBotStart,
    MergeBotStop,
    MergeBotAddToQueue,
    BuildLogOpen,
    BuildLogNextError,
    BuildLogPrevError,
    BuildLogToggleTimestamps,
    BuildLogExpandAll,
    BuildLogCollapseAll,
    KeyBindingsToggleView,
    GlobalClose,
    GlobalQuit,
}

impl CommandId {
    /// The action this command dispatches.
    pub open spec fn spec_to_action(self) -> Action {
        match self {
            CommandId::RepositoryAdd => Action::RepositoryAdd,
            CommandId::RepositoryNext => Action::RepositoryNext,
            CommandId::RepositoryPrevious => Action::RepositoryPrevious,
            CommandId::RepositoryOpenInBrowser => Action::RepositoryOpenInBrowser,
            CommandId::NavigateNext => Action::NavigateNext,
            CommandId::NavigatePrevious => Action::NavigatePrevious,
            CommandId::NavigateLeft => Action::NavigateLeft,
            CommandId::NavigateRight => Action::NavigateRight,
            CommandId::NavigateToTop => Action::NavigateToTop,
            CommandId::NavigateToBottom => Action::NavigateToBottom,
            CommandId::DebugToggleConsoleView => Action::PushView(ViewId::DebugConsole),
            CommandId::DebugClearLogs => Action::DebugConsoleClear,
            CommandId::DebugLogDump => Action::DebugConsoleDumpLogs,
            CommandId::CommandPaletteOpen => Action::PushView(ViewId::CommandPalette),
            CommandId::PrToggleSelection => Action::PrToggleSelection,
            CommandId::PrSelectAll => Action::PrSelectAll,
            CommandId::PrDeselectAll => Action::PrDeselectAll,
            CommandId::PrRefresh => Action::PrRefresh,
            CommandId::PrOpenInBrowser => Action::PrOpenInBrowser,
            CommandId::PrMerge => Action::PrMergeRequest,
            CommandId::PrRebase => Action::PrRebaseRequest,
            CommandId::PrApprove => Action::PrApproveRequest,
            CommandId::PrClose => Action::PrCloseRequest,
            CommandId::PrRerunFailedJobs => Action::PrRerunFailedJobs,
            CommandId::PrOpenBuildLogs => Action::PrOpenBuildLogs,
            CommandId::PrOpenInIDE => Action::PrOpenInIDE,
            CommandId::PrCycleFilter => Action::PrCycleFilter,
            CommandId::PrClearFilter => Action::PrClearFilter,
            CommandId::MergeBotStart => Action::MergeBotStart,
            CommandId::MergeBotStop => Action::MergeBotStop,
            CommandId::MergeBotAddToQueue => Action::MergeBotAddToQueue,
            CommandId::BuildLogOpen => Action::BuildLogOpen,
            CommandId::BuildLogNextError => Action::BuildLogNextError,
            CommandId::BuildLogPrevError => Action::BuildLogPrevError,
            CommandId::BuildLogToggleTimestamps => Action::BuildLogToggleTimestamps,
            CommandId::BuildLogExpandAll => Action::BuildLogExpandAll,
            CommandId::BuildLogCollapseAll => Action::BuildLogCollapseAll,
            CommandId::KeyBindingsToggleView => Action::PushView(ViewId::KeyBindings),
            CommandId::GlobalClose => Action::GlobalClose,
            CommandId::GlobalQuit => Action::GlobalQuit,
        }
    }

    /// Converts this command to its action.
    pub fn to_action(self) -> (r: Action)
        ensures
            r == self.spec_to_action(),
    {
        match self {
            CommandId::RepositoryAdd => Action::RepositoryAdd,
            CommandId::RepositoryNext => Action::RepositoryNext,
            CommandId::RepositoryPrevious => Action::RepositoryPrevious,
            CommandId::RepositoryOpenInBrowser => Action::RepositoryOpenInBrowser,
            CommandId::NavigateNext => Action::NavigateNext,
            CommandId::NavigatePrevious => Action::NavigatePrevious,
            CommandId::NavigateLeft => Action::NavigateLeft,
            CommandId::NavigateRight => Action::NavigateRight,
            CommandId::NavigateToTop => Action::NavigateToTop,
            CommandId::NavigateToBottom => Action::NavigateToBottom,
            CommandId::DebugToggleConsoleView => Action::PushView(ViewId::DebugConsole),
            CommandId::DebugClearLogs => Action::DebugConsoleClear,
            CommandId::DebugLogDump => Action::DebugConsoleDumpLogs,
            CommandId::CommandPaletteOpen => Action::PushView(ViewId::CommandPalette),
            CommandId::PrToggleSelection => Action::PrToggleSelection,
            CommandId::PrSelectAll => Action::PrSelectAll,
            CommandId::PrDeselectAll => Action::PrDeselectAll,
            CommandId::PrRefresh => Action::PrRefresh,
            CommandId::PrOpenInBrowser => Action::PrOpenInBrowser,
            CommandId::PrMerge => Action::PrMergeRequest,
            CommandId::PrRebase => Action::PrRebaseRequest,
            CommandId::PrApprove => Action::PrApproveRequest,
            CommandId::PrClose => Action::PrCloseRequest,
            CommandId::PrRerunFailedJobs => Action::PrRerunFailedJobs,
            CommandId::PrOpenBuildLogs => Action::PrOpenBuildLogs,
            CommandId::PrOpenInIDE => Action::PrOpenInIDE,
            CommandId::PrCycleFilter => Action::PrCycleFilter,
            CommandId::PrClearFilter => Action::PrClearFilter,
            CommandId::MergeBotStart => Action::MergeBotStart,
            CommandId::MergeBotStop => Action::MergeBotStop,
            CommandId::MergeBotAddToQueue => Action::MergeBotAddToQueue,
            CommandId::BuildLogOpen => Action::BuildLogOpen,
            CommandId::BuildLogNextError => Action::BuildLogNextError,
            CommandId::BuildLogPrevError => Action::BuildLogPrevError,
            CommandId::BuildLogToggleTimestamps => Action::BuildLogToggleTimestamps,
            CommandId::BuildLogExpandAll => Action::BuildLogExpandAll,
            CommandId::BuildLogCollapseAll => Action::BuildLogCollapseAll,
            CommandId::KeyBindingsToggleView => Action::PushView(ViewId::KeyBindings),
            CommandId::GlobalClose => Action::GlobalClose,
            CommandId::GlobalQuit => Action::GlobalQuit,
        }
    }

    /// The title each command shows in the palette.
    pub open spec fn spec_title(self) -> Seq<char> {
        match self {
            CommandId::RepositoryAdd => "Add repository"@,
            CommandId::RepositoryNext => "Next repository"@,
            CommandId::RepositoryPrevious => "Previous repository"@,
            CommandId::RepositoryOpenInBrowser => "Open repository in browser"@,
            CommandId::NavigateNext => "Navigate down"@,
            CommandId::NavigatePrevious => "Navigate up"@,
            CommandId::NavigateLeft => "Navigate left"@,
            CommandId::NavigateRight => "Navigate right"@,
            CommandId::NavigateToTop => "Navigate to top"@,
            CommandId::NavigateToBottom => "Navigate to bottom"@,
            CommandId::DebugToggleConsoleView => "Toggle debug console"@,
            CommandId::DebugClearLogs => "Clear debug logs"@,
            CommandId::DebugLogDump => "Dump debug logs to file"@,
            CommandId::CommandPaletteOpen => "Open command palette"@,
            CommandId::PrToggleSelection => "Toggle PR selection"@,
            CommandId::PrSelectAll => "Select all PRs"@,
            CommandId::PrDeselectAll => "Deselect all PRs"@,
            CommandId::PrRefresh => "Refresh PRs"@,
            CommandId::PrOpenInBrowser => "Open PR in browser"@,
            CommandId::PrMerge => "Merge PRs"@,
            CommandId::PrRebase => "Rebase PRs"@,
            CommandId::PrApprove => "Approve PRs"@,
            CommandId::PrClose => "Close PRs"@,
            CommandId::PrRerunFailedJobs => "Rerun failed CI jobs"@,
            CommandId::PrOpenBuildLogs => "Open CI build logs"@,
            CommandId::PrOpenInIDE => "Open PR diff in IDE"@,
            CommandId::PrCycleFilter => "Cycle PR filter"@,
            CommandId::PrClearFilter => "Clear PR filter"@,
            CommandId::MergeBotStart => "Start merge bot"@,
            CommandId::MergeBotStop => "Stop merge bot"@,
            CommandId::MergeBotAddToQueue => "Add to merge queue"@,
            CommandId::BuildLogOpen => "Open build log"@,
            CommandId::BuildLogNextError => "Next build error"@,
            CommandId::BuildLogPrevError => "Previous build error"@,
            CommandId::BuildLogToggleTimestamps => "Toggle build log timestamps"@,
            CommandId::BuildLogExpandAll => "Expand all build log sections"@,
            CommandId::BuildLogCollapseAll => "Collapse all build log sections"@,
            CommandId::KeyBindingsToggleView => "Show key bindings"@,
            CommandId::GlobalClose => "Close"@,
            CommandId::GlobalQuit => "Quit"@,
        }
    }

    /// The description each command shows when selected.
    pub open spec fn spec_description(self) -> Seq<char> {
        match self {
            CommandId::RepositoryAdd => "Add a new repository to track"@,
            CommandId::RepositoryNext => "Switch to the next repository"@,
            CommandId::RepositoryPrevious => "Switch to the previous repository"@,
            CommandId::RepositoryOpenInBrowser => "Open the current repository in your browser"@,
            CommandId::NavigateNext => "Move selection or navigate down"@,
            CommandId::NavigatePrevious => "Move selection or navigate up"@,
            CommandId::NavigateLeft => "Move selection or navigate left"@,
            CommandId::NavigateRight => "Move selection or navigate right"@,
            CommandId::NavigateToTop => "Jump to the first item"@,
            CommandId::NavigateToBottom => "Jump to the last item"@,
            CommandId::DebugToggleConsoleView => "Show or hide the debug console"@,
            CommandId::DebugClearLogs => "Clear all debug console logs"@,
            CommandId::DebugLogDump => "Save debug logs to a file"@,
            CommandId::CommandPaletteOpen => "Open the command palette to search and execute commands"@,
            CommandId::PrToggleSelection => "Toggle selection of the current PR for bulk operations"@,
            CommandId::PrSelectAll => "Select all PRs in the current repository"@,
            CommandId::PrDeselectAll => "Clear all PR selections"@,
            CommandId::PrRefresh => "Refresh PRs for the current repository"@,
            CommandId::PrOpenInBrowser => "Open the current PR in your default web browser"@,
            CommandId::PrMerge => "Merge selected PRs (or current PR if none selected)"@,
            CommandId::PrRebase => "Update selected PRs with latest from base branch"@,
            CommandId::PrApprove => "Approve selected PRs with a review"@,
            CommandId::PrClose => "Close selected PRs without merging"@,
            CommandId::PrRerunFailedJobs => "Rerun failed CI workflow jobs for the current PR"@,
            CommandId::PrOpenBuildLogs => "Open CI build logs in your default web browser"@,
            CommandId::PrOpenInIDE => "Open the PR diff in your configured IDE (uses gh pr view)"@,
            CommandId::PrCycleFilter => "Cycle through filter presets (All, Ready, Needs Rebase, etc.)"@,
            CommandId::PrClearFilter => "Clear the current filter and show all PRs"@,
            CommandId::MergeBotStart => "Start automated merge bot for selected PRs"@,
            CommandId::MergeBotStop => "Stop the merge bot and clear the queue"@,
            CommandId::MergeBotAddToQueue => "Add selected PRs to the merge queue"@,
            CommandId::BuildLogOpen => "Open the in-app build log viewer"@,
            CommandId::BuildLogNextError => "Jump to the next error in the build log"@,
            CommandId::BuildLogPrevError => "Jump to the previous error in the build log"@,
            CommandId::BuildLogToggleTimestamps => "Show or hide timestamps in the build log"@,
            CommandId::BuildLogExpandAll => "Expand every section of the build log"@,
            CommandId::BuildLogCollapseAll => "Collapse every section of the build log"@,
            CommandId::KeyBindingsToggleView => "Show or hide the key bindings help panel"@,
            CommandId::GlobalClose => "Close the current view or panel"@,
            CommandId::GlobalQuit => "Exit the application"@,
        }
    }

    /// The short title shown in the command palette.
    pub fn title(&self) -> (r: &'static str)
        ensures
            r@ == self.spec_title(),
    {
        match self {
            CommandId::RepositoryAdd => "Add repository",
            CommandId::RepositoryNext => "Next repository",
            CommandId::RepositoryPrevious => "Previous repository",
            CommandId::RepositoryOpenInBrowser => "Open repository in browser",
            CommandId::NavigateNext => "Navigate down",
            CommandId::NavigatePrevious => "Navigate up",
            CommandId::NavigateLeft => "Navigate left",
            CommandId::NavigateRight => "Navigate right",
            CommandId::NavigateToTop => "Navigate to top",
            CommandId::NavigateToBottom => "Navigate to bottom",
            CommandId::DebugToggleConsoleView => "Toggle debug console",
            CommandId::DebugClearLogs => "Clear debug logs",
            CommandId::DebugLogDump => "Dump debug logs to file",
            CommandId::CommandPaletteOpen => "Open command palette",
            CommandId::PrToggleSelection => "Toggle PR selection",
            CommandId::PrSelectAll => "Select all PRs",
            CommandId::PrDeselectAll => "Deselect all PRs",
            CommandId::PrRefresh => "Refresh PRs",
            CommandId::PrOpenInBrowser => "Open PR in browser",
            CommandId::PrMerge => "Merge PRs",
            CommandId::PrRebase => "Rebase PRs",
            CommandId::PrApprove => "Approve PRs",
            CommandId::PrClose => "Close PRs",
            CommandId::PrRerunFailedJobs => "Rerun failed CI jobs",
            CommandId::PrOpenBuildLogs => "Open CI build logs",
            CommandId::PrOpenInIDE => "Open PR diff in IDE",
            CommandId::PrCycleFilter => "Cycle PR filter",
            CommandId::PrClearFilter => "Clear PR filter",
            CommandId::MergeBotStart => "Start merge bot",
            CommandId::MergeBotStop => "Stop merge bot",
            CommandId::MergeBotAddToQueue => "Add to merge queue",
            CommandId::BuildLogOpen => "Open build log",
            CommandId::BuildLogNextError => "Next build error",
            CommandId::BuildLogPrevError => "Previous build error",
            CommandId::BuildLogToggleTimestamps => "Toggle build log timestamps",
            CommandId::BuildLogExpandAll => "Expand all build log sections",
            CommandId::BuildLogCollapseAll => "Collapse all build log sections",
            CommandId::KeyBindingsToggleView => "Show key bindings",
            CommandId::GlobalClose => "Close",
            CommandId::GlobalQuit => "Quit",
        }
    }

    /// The longer description shown next to the selected command.
    pub fn description(&self) -> (r: &'static str)
        ensures
            r@ == self.spec_description(),
    {
        match self {
            CommandId::RepositoryAdd => "Add a new repository to track",
            CommandId::RepositoryNext => "Switch to the next repository",
            CommandId::RepositoryPrevious => "Switch to the previous repository",
            CommandId::RepositoryOpenInBrowser => "Open the current repository in your browser",
            CommandId::NavigateNext => "Move selection or navigate down",
            CommandId::NavigatePrevious => "Move selection or navigate up",
            CommandId::NavigateLeft => "Move selection or navigate left",
            CommandId::NavigateRight => "Move selection or navigate right",
            CommandId::NavigateToTop => "Jump to the first item",
            CommandId::NavigateToBottom => "Jump to the last item",
            CommandId::DebugToggleConsoleView => "Show or hide the debug console",
            CommandId::DebugClearLogs => "Clear all debug console logs",
            CommandId::DebugLogDump => "Save debug logs to a file",
            CommandId::CommandPaletteOpen => "Open the command palette to search and execute commands",
            CommandId::PrToggleSelection => "Toggle selection of the current PR for bulk operations",
            CommandId::PrSelectAll => "Select all PRs in the current repository",
            CommandId::PrDeselectAll => "Clear all PR selections",
            CommandId::PrRefresh => "Refresh PRs for the current repository",
            CommandId::PrOpenInBrowser => "Open the current PR in your default web browser",
            CommandId::PrMerge => "Merge selected PRs (or current PR if none selected)",
            CommandId::PrRebase => "Update selected PRs with latest from base branch",
            CommandId::PrApprove => "Approve selected PRs with a review",
            CommandId::PrClose => "Close selected PRs without merging",
            CommandId::PrRerunFailedJobs => "Rerun failed CI workflow jobs for the current PR",
            CommandId::PrOpenBuildLogs => "Open CI build logs in your default web browser",
            CommandId::PrOpenInIDE => "Open the PR diff in your configured IDE (uses gh pr view)",
            CommandId::PrCycleFilter => "Cycle through filter presets (All, Ready, Needs Rebase, etc.)",
            CommandId::PrClearFilter => "Clear the current filter and show all PRs",
            CommandId::MergeBotStart => "Start automated merge bot for selected PRs",
            CommandId::MergeBotStop => "Stop the merge bot and clear the queue",
            CommandId::MergeBotAddToQueue => "Add selected PRs to the merge queue",
            CommandId::BuildLogOpen => "Open the in-app build log viewer",
            CommandId::BuildLogNextError => "Jump to the next error in the build log",
            CommandId::BuildLogPrevError => "Jump to the previous error in the build log",
            CommandId::BuildLogToggleTimestamps => "Show or hide timestamps in the build log",
            CommandId::BuildLogExpandAll => "Expand every section of the build log",
            CommandId::BuildLogCollapseAll => "Collapse every section of the build log",
            CommandId::KeyBindingsToggleView => "Show or hide the key bindings help panel",
            CommandId::GlobalClose => "Close the current view or panel",
            CommandId::GlobalQuit => "Exit the application",
        }
    }

    /// The category commands are grouped under in the palette.
    pub open spec fn spec_category(self) -> Seq<char> {
        match self {
            CommandId::RepositoryAdd
            | CommandId::RepositoryNext
            | CommandId::RepositoryPrevious
            | CommandId::RepositoryOpenInBrowser => "Repository"@,
            CommandId::NavigateNext
            | CommandId::NavigatePrevious
            | CommandId::NavigateLeft
            | CommandId::NavigateRight => "Navigation"@,
            CommandId::NavigateToTop | CommandId::NavigateToBottom => "Scroll"@,
            CommandId::DebugToggleConsoleView | CommandId::DebugClearLogs
            | CommandId::DebugLogDump => "Debug"@,
            CommandId::CommandPaletteOpen => "Command Palette"@,
            CommandId::PrToggleSelection
            | CommandId::PrSelectAll
            | CommandId::PrDeselectAll
            | CommandId::PrRefresh
            | CommandId::PrOpenInBrowser
            | CommandId::PrMerge
            | CommandId::PrRebase
            | CommandId::PrApprove
            | CommandId::PrClose
            | CommandId::PrRerunFailedJobs
            | CommandId::PrOpenBuildLogs
            | CommandId::PrOpenInIDE
            | CommandId::PrCycleFilter
            | CommandId::PrClearFilter => "Pull Request"@,
            CommandId::MergeBotStart | CommandId::MergeBotStop
            | CommandId::MergeBotAddToQueue => "Merge Bot"@,
            CommandId::BuildLogOpen
            | CommandId::BuildLogNextError
            | CommandId::BuildLogPrevError
            | CommandId::BuildLogToggleTimestamps
            | CommandId::BuildLogExpandAll
            | CommandId::BuildLogCollapseAll => "Build Log"@,
            CommandId::KeyBindingsToggleView => "Help"@,
            CommandId::GlobalClose | CommandId::GlobalQuit => "General"@,
        }
    }

    /// The category this command is grouped under.
    pub fn category(&self) -> (r: &'static str)
        ensures
            r@ == self.spec_category(),
    {
        match self {
            CommandId::RepositoryAdd
            | CommandId::RepositoryNext
            | CommandId::RepositoryPrevious
            | CommandId::RepositoryOpenInBrowser => "Repository",
            CommandId::NavigateNext
            | CommandId::NavigatePrevious
            | CommandId::NavigateLeft
            | CommandId::NavigateRight => "Navigation",
            CommandId::NavigateToTop | CommandId::NavigateToBottom => "Scroll",
            CommandId::DebugToggleConsoleView | CommandId::DebugClearLogs
            | CommandId::DebugLogDump => "Debug",
            CommandId::CommandPaletteOpen => "Command Palette",
            CommandId::PrToggleSelection
            | CommandId::PrSelectAll
            | CommandId::PrDeselectAll
            | CommandId::PrRefresh
            | CommandId::PrOpenInBrowser
            | CommandId::PrMerge
            | CommandId::PrRebase
            | CommandId::PrApprove
            | CommandId::PrClose
            | CommandId::PrRerunFailedJobs
            | CommandId::PrOpenBuildLogs
            | CommandId::PrOpenInIDE
            | CommandId::PrCycleFilter
            | CommandId::PrClearFilter => "Pull Request",
            CommandId::MergeBotStart | CommandId::MergeBotStop
            | CommandId::MergeBotAddToQueue => "Merge Bot",
            CommandId::BuildLogOpen
            | CommandId::BuildLogNextError
            | CommandId::BuildLogPrevError
            | CommandId::BuildLogToggleTimestamps
            | CommandId::BuildLogExpandAll
            | CommandId::BuildLogCollapseAll => "Build Log",
            CommandId::KeyBindingsToggleView => "Help",
            CommandId::GlobalClose | CommandId::GlobalQuit => "General",
        }
    }

    /// Navigation and scroll commands are keyboard-driven and kept out of
    /// the palette; every other command is shown.
    pub open spec fn spec_show_in_palette(self) -> bool {
        match self {
            CommandId::NavigateNext
            | CommandId::NavigatePrevious
            | CommandId::NavigateLeft
            | CommandId::NavigateRight
            | CommandId::NavigateToTop
            | CommandId::NavigateToBottom
            | CommandId::CommandPaletteOpen => false,
            _ => true,
        }
    }

    /// Whether this command appears in the command palette.
    pub fn show_in_palette(&self) -> (r: bool)
        ensures
            r == self.spec_show_in_palette(),
    {
        match self {
            CommandId::NavigateNext
            | CommandId::NavigatePrevious
            | CommandId::NavigateLeft
            | CommandId::NavigateRight
            | CommandId::NavigateToTop
            | CommandId::NavigateToBottom
            | CommandId::CommandPaletteOpen => false,
            _ => true,
        }
    }
}

/// One palette entry: a static command or a dynamic issue link, with
/// its display strings materialized.
#[derive(Debug, Clone)]
pub struct Command {
    /// The static command, when this entry is one.
    pub id: Option<CommandId>,
    /// The URL a dynamic issue entry opens in the browser.
    pub url: Option<String>,
    /// Title shown in the palette.
    pub title: String,
    /// Description shown for the selected entry.
    pub description: String,
    /// Category the entry is grouped under.
    pub category: String,
    /// Keyboard shortcut hint, when the command is bound.
    pub shortcut_hint: Option<String>,
}

impl Command {
    /// An exact copy.
    pub fn duplicate(&self) -> (r: Command)
        ensures
            r == *self,
    {
        Command {
            id: self.id,
            url: match &self.url {
                Some(u) => Some(u.clone()),
                None => None,
            },
            title: self.title.clone(),
            description: self.description.clone(),
            category: self.category.clone(),
            shortcut_hint: match &self.shortcut_hint {
                Some(h) => Some(h.clone()),
                None => None,
            },
        }
    }
}

/// Every command identifier, in declaration order.
pub open spec fn all_ids() -> Seq<CommandId> {
    seq![
        CommandId::RepositoryAdd,
        CommandId::RepositoryNext,
        CommandId::RepositoryPrevious,
        CommandId::RepositoryOpenInBrowser,
        CommandId::NavigateNext,
        CommandId::NavigatePrevious,
        CommandId::NavigateLeft,
        CommandId::NavigateRight,
        CommandId::NavigateToTop,
        CommandId::NavigateToBottom,
        CommandId::DebugToggleConsoleView,
        CommandId::DebugClearLogs,
        CommandId::DebugLogDump,
        CommandId::CommandPaletteOpen,
        CommandId::PrToggleSelection,
        CommandId::PrSelectAll,
        CommandId::PrDeselectAll,
        CommandId::PrRefresh,
        CommandId::PrOpenInBrowser,
        CommandId::PrMerge,
        CommandId::PrRebase,
        CommandId::PrApprove,
        CommandId::PrClose,
        CommandId::PrRerunFailedJobs,
        CommandId::PrOpenBuildLogs,
        CommandId::PrOpenInIDE,
        CommandId::PrCycleFilter,
        CommandId::PrClearFilter,
        CommandId::MergeBotStart,
        CommandId::MergeBotStop,
        CommandId::MergeBotAddToQueue,
        CommandId::BuildLogOpen,
        CommandId::BuildLogNextError,
        CommandId::BuildLogPrevError,
        CommandId::BuildLogToggleTimestamps,
        CommandId::BuildLogExpandAll,
        CommandId::BuildLogCollapseAll,
        CommandId::KeyBindingsToggleView,
        CommandId::GlobalClose,
        CommandId::GlobalQuit,
    ]
}

/// The identifiers shown in the palette, in declaration order.
pub open spec fn palette_ids_of(ids: Seq<CommandId>) -> Seq<CommandId>
    decreases ids,
{
    if ids.len() == 0 {
        Seq::empty()
    } else {
        let rest = palette_ids_of(ids.skip(1));
        if ids[0].spec_show_in_palette() {
            seq![ids[0]] + rest
        } else {
            rest
        }
    }
}

proof fn lemma_palette_ids_snoc(ids: Seq<CommandId>, i: int)
    requires
        0 <= i < ids.len(),
    ensures
        palette_ids_of(ids.take(i + 1)) == (if ids[i].spec_show_in_palette() {
            palette_ids_of(ids.take(i)).push(ids[i])
        } else {
            palette_ids_of(ids.take(i))
        }),
    decreases i + 1,
{
    let a = ids.take(i + 1);
    if i == 0 {
        assert(a.skip(1) =~= ids.take(0));
        if ids[0].spec_show_in_palette() {
            assert(palette_ids_of(a) =~= palette_ids_of(ids.take(0)).push(ids[0]));
        }
    } else {
        lemma_palette_ids_snoc(ids.skip(1), i - 1);
        assert(a.skip(1) =~= ids.skip(1).take(i));
        assert(ids.take(i).skip(1) =~= ids.skip(1).take(i - 1));
        assert(a[0] == ids[0]);
        assert(ids.take(i)[0] == ids[0]);
        assert(ids.skip(1)[i - 1] == ids[i]);
        if ids[i].spec_show_in_palette() {
            assert(palette_ids_of(ids.take(i + 1)) =~= palette_ids_of(ids.take(i)).push(ids[i]));
        }
    }
}

/// Every command identifier, in declaration order.
fn all_command_ids() -> (r: Vec<CommandId>)
    ensures
        r@ == all_ids(),
{
    let mut v: Vec<CommandId> = Vec::new();
    v.push(CommandId::RepositoryAdd);
    v.push(CommandId::RepositoryNext);
    v.push(CommandId::RepositoryPrevious);
    v.push(CommandId::RepositoryOpenInBrowser);
    v.push(CommandId::NavigateNext);
    v.push(CommandId::NavigatePrevious);
    v.push(CommandId::NavigateLeft);
    v.push(CommandId::NavigateRight);
    v.push(CommandId::NavigateToTop);
    v.push(CommandId::NavigateToBottom);
    v.push(CommandId::DebugToggleConsoleView);
    v.push(CommandId::DebugClearLogs);
    v.push(CommandId::DebugLogDump);
    v.push(CommandId::CommandPaletteOpen);
    v.push(CommandId::PrToggleSelection);
    v.push(CommandId::PrSelectAll);
    v.push(CommandId::PrDeselectAll);
    v.push(CommandId::PrRefresh);
    v.push(CommandId::PrOpenInBrowser);
    v.push(CommandId::PrMerge);
    v.push(CommandId::PrRebase);
    v.push(CommandId::PrApprove);
    v.push(CommandId::PrClose);
    v.push(CommandId::PrRerunFailedJobs);
    v.push(CommandId::PrOpenBuildLogs);
    v.push(CommandId::PrOpenInIDE);
    v.push(CommandId::PrCycleFilter);
    v.push(CommandId::PrClearFilter);
    v.push(CommandId::MergeBotStart);
    v.push(CommandId::MergeBotStop);
    v.push(CommandId::MergeBotAddToQueue);
    v.push(CommandId::BuildLogOpen);
    v.push(CommandId::BuildLogNextError);
    v.push(CommandId::BuildLogPrevError);
    v.push(CommandId::BuildLogToggleTimestamps);
    v.push(CommandId::BuildLogExpandAll);
    v.push(CommandId::BuildLogCollapseAll);
    v.push(CommandId::KeyBindingsToggleView);
    v.push(CommandId::GlobalClose);
    v.push(CommandId::GlobalQuit);
    proof {
        assert(v@ =~= all_ids());
    }
    v
}

/// All palette commands, with shortcut hints from the keymap: one entry
/// per palette-visible identifier, in declaration order.
pub fn get_palette_commands_with_hints(keymap: &Keymap) -> (r: Vec<Command>)
    ensures
        r@.map_values(|c: Command| c.id) == palette_ids_of(all_ids()).map_values(
            |id: CommandId| Some(id),
        ),
        forall|i: int|
            0 <= i < r@.len() ==> {
                let c = #[trigger] r@[i];
                &&& c.url is None
                &&& c.title@ == palette_ids_of(all_ids())[i].spec_title()
                &&& c.description@ == palette_ids_of(all_ids())[i].spec_description()
                &&& c.category@ == palette_ids_of(all_ids())[i].spec_category()
                &&& (match c.shortcut_hint {
                    Some(h) => h@ == join_with(
                        hints_of(keymap.bindings@, palette_ids_of(all_ids())[i]),
                        '/',
                    ) && hints_of(keymap.bindings@, palette_ids_of(all_ids())[i]).len() > 0,
                    None => hints_of(keymap.bindings@, palette_ids_of(all_ids())[i]).len() == 0,
                })
            },
{
    let ids = all_command_ids();
    let mut out: Vec<Command> = Vec::new();
    let n = ids.len();
    let mut i: usize = 0;
    proof {
        assert(all_ids().take(0) =~= Seq::<CommandId>::empty());
        assert(out@.map_values(|c: Command| c.id) =~= palette_ids_of(all_ids().take(0)).map_values(
            |id: CommandId| Some(id),
        ));
    }
    while i < n
        invariant
            i <= n,
            n == ids@.len(),
            ids@ == all_ids(),
            out@.map_values(|c: Command| c.id) == palette_ids_of(all_ids().take(i as int))
                .map_values(|id: CommandId| Some(id)),
            palette_ids_of(all_ids().take(i as int)).len() == out@.len(),
            forall|q: int|
                0 <= q < out@.len() ==> {
                    let c = #[trigger] out@[q];
                    &&& c.url is None
                    &&& c.title@ == palette_ids_of(all_ids().take(i as int))[q].spec_title()
                    &&& c.description@ == palette_ids_of(all_ids().take(i as int))[
                        q
                    ].spec_description()
                    &&& c.category@ == palette_ids_of(all_ids().take(i as int))[q].spec_category()
                    &&& (match c.shortcut_hint {
                        Some(h) => h@ == join_with(
                            hints_of(
                                keymap.bindings@,
                                palette_ids_of(all_ids().take(i as int))[q],
                            ),
                            '/',
                        ) && hints_of(
                            keymap.bindings@,
                            palette_ids_of(all_ids().take(i as int))[q],
                        ).len() > 0,
                        None => hints_of(
                            keymap.bindings@,
                            palette_ids_of(all_ids().take(i as int))[q],
                        ).len() == 0,
                    })
                },
        decreases n - i,
    {
        proof {
            lemma_palette_ids_snoc(all_ids(), i as int);
        }
        let id = ids[i];
        if id.show_in_palette() {
            let hint = keymap.compact_hint_for_command(id);
            let c = Command {
                id: Some(id),
                url: None,
                title: id.title().to_owned(),
                description: id.description().to_owned(),
                category: id.category().to_owned(),
                shortcut_hint: hint,
            };
            let ghost before = out@;
            out.push(c);
            proof {
                assert(out@.map_values(|x: Command| x.id) =~= before.map_values(
                    |x: Command| x.id,
                ).push(Some(id)));
                assert(palette_ids_of(all_ids().take(i + 1)) =~= palette_ids_of(
                    all_ids().take(i as int),
                ).push(id));
                assert(palette_ids_of(all_ids().take(i + 1)).map_values(|q: CommandId| Some(q))
                    =~= palette_ids_of(all_ids().take(i as int)).map_values(
                    |q: CommandId| Some(q),
                ).push(Some(id)));
            }
        } else {
            proof {
                assert(palette_ids_of(all_ids().take(i + 1)) == palette_ids_of(
                    all_ids().take(i as int),
                ));
            }
        }
        i = i + 1;
    }
    proof {
        assert(all_ids().take(n as int) =~= all_ids());
    }
    out
}

/// Whether a command matches a lowercased query: the query occurs in
/// its lowercased title, description or category.
pub open spec fn cmd_matches(c: Command, query_lower: Seq<char>) -> bool {
    ||| contains_seq(lower_of(c.title@), query_lower)
    ||| contains_seq(lower_of(c.description@), query_lower)
    ||| contains_seq(lower_of(c.category@), query_lower)
}

/// The commands matching a lowercased query, in order.
pub open spec fn filtered_cmds(s: Seq<Command>, query_lower: Seq<char>) -> Seq<Command>
    decreases s,
{
    if s.len() == 0 {
        Seq::empty()
    } else {
        let rest = filtered_cmds(s.skip(1), query_lower);
        if cmd_matches(s[0], query_lower) {
            seq![s[0]] + rest
        } else {
            rest
        }
    }
}

proof fn lemma_filtered_cmds_snoc(s: Seq<Command>, query_lower: Seq<char>, i: int)
    requires
        0 <= i < s.len(),
    ensures
        filtered_cmds(s.take(i + 1), query_lower) == (if cmd_matches(s[i], query_lower) {
            filtered_cmds(s.take(i), query_lower).push(s[i])
        } else {
            filtered_cmds(s.take(i), query_lower)
        }),
    decreases i + 1,
{
    let a = s.take(i + 1);
    if i == 0 {
        assert(a.skip(1) =~= s.take(0));
        if cmd_matches(s[0], query_lower) {
            assert(filtered_cmds(a, query_lower) =~= filtered_cmds(s.take(0), query_lower).push(
                s[0],
            ));
        }
    } else {
        lemma_filtered_cmds_snoc(s.skip(1), query_lower, i - 1);
        assert(a.skip(1) =~= s.skip(1).take(i));
        assert(s.take(i).skip(1) =~= s.skip(1).take(i - 1));
        assert(a[0] == s[0]);
        assert(s.take(i)[0] == s[0]);
        assert(s.skip(1)[i - 1] == s[i]);
        if cmd_matches(s[i], query_lower) {
            assert(filtered_cmds(s.take(i + 1), query_lower) =~= filtered_cmds(
                s.take(i),
                query_lower,
            ).push(s[i]));
        }
    }
}

/// Filters commands by a search query: case-insensitive containment in
/// the title, description or category; an empty query keeps everything.
pub fn filter_commands(commands: &[Command], query: &str) -> (r: Vec<Command>)
    ensures
        query@.len() == 0 ==> r@ == commands@,
        query@.len() > 0 ==> r@ == filtered_cmds(commands@, lower_of(query@)),
{
    let n = commands.len();
    let mut out: Vec<Command> = Vec::new();
    if query.unicode_len() == 0 {
        let mut i: usize = 0;
        while i < n
            invariant
                i <= n,
                n == commands@.len(),
                out@ == commands@.take(i as int),
            decreases n - i,
        {
            proof {
                assert(commands@.take(i + 1) =~= commands@.take(i as int).push(
                    commands@[i as int],
                ));
            }
            out.push(commands[i].duplicate());
            i = i + 1;
        }
        proof {
            assert(commands@.take(n as int) =~= commands@);
        }
        return out;
    }
    let query_lower = crate::text::lowercase(query);
    let ghost ql = lower_of(query@);
    let mut i: usize = 0;
    proof {
        assert(commands@.take(0) =~= Seq::<Command>::empty());
        assert(out@ =~= filtered_cmds(commands@.take(0), ql));
    }
    while i < n
        invariant
            i <= n,
            n == commands@.len(),
            query_lower@ == ql,
            out@ == filtered_cmds(commands@.take(i as int), ql),
        decreases n - i,
    {
        proof {
            lemma_filtered_cmds_snoc(commands@, ql, i as int);
        }
        let c = &commands[i];
        let title_l = crate::text::lowercase(c.title.as_str());
        let desc_l = crate::text::lowercase(c.description.as_str());
        let cat_l = crate::text::lowercase(c.category.as_str());
        let hit = crate::text::contains_str(title_l.as_str(), query_lower.as_str())
            || crate::text::contains_str(desc_l.as_str(), query_lower.as_str())
            || crate::text::contains_str(cat_l.as_str(), query_lower.as_str());
        if hit {
            out.push(c.duplicate());
        }
        i = i + 1;
    }
    proof {
        assert(commands@.take(n as int) =~= commands@);
    }
    out
}

/// Pre-computed footer hints of the command palette.
#[derive(Debug, Clone)]
pub struct FooterHints {
    /// Hint for navigating up (e.g. "k").
    pub navigate_up: String,
    /// Hint for navigating down (e.g. "j").
    pub navigate_down: String,
    /// Hint for closing the palette (e.g. "q/Esc").
    pub close: String,
}

/// Details shown for the selected command.
#[derive(Debug, Clone)]
pub struct SelectedCommandDetails {
    /// The command's description.
    pub description: String,
}

/// One key chord bound to a command.
#[derive(Debug, Clone)]
pub struct KeyBinding {
    /// The chord as parsed (e.g. "ctrl+p").
    pub key: String,
    /// The chord as displayed (e.g. "Ctrl+P").
    pub display: String,
    /// The command the chord triggers.
    pub command: CommandId,
}

impl KeyBinding {
    /// A binding of one chord to one command.
    pub fn new(key: &str, display: &str, command: CommandId) -> (r: KeyBinding)
        ensures
            r.key@ == key@,
            r.display@ == display@,
            r.command == command,
    {
        KeyBinding { key: key.to_owned(), display: display.to_owned(), command }
    }
}

/// The set of key bindings in effect.
#[derive(Debug, Clone)]
pub struct Keymap {
    /// The bindings, in declaration order.
    pub bindings: Vec<KeyBinding>,
}

/// The display hints of every binding of the given command, in order.
pub open spec fn hints_of(bs: Seq<KeyBinding>, command: CommandId) -> Seq<Seq<char>>
    decreases bs,
{
    if bs.len() == 0 {
        Seq::empty()
    } else {
        let rest = hints_of(bs.skip(1), command);
        if bs[0].command == command {
            seq![bs[0].display@] + rest
        } else {
            rest
        }
    }
}

/// Sequences joined by a separator character.
pub open spec fn join_with(parts: Seq<Seq<char>>, sep: char) -> Seq<char>
    decreases parts,
{
    if parts.len() == 0 {
        Seq::empty()
    } else if parts.len() == 1 {
        parts[0]
    } else {
        parts[0] + seq![sep] + join_with(parts.skip(1), sep)
    }
}

proof fn lemma_hints_of_snoc(bs: Seq<KeyBinding>, command: CommandId, i: int)
    requires
        0 <= i < bs.len(),
    ensures
        hints_of(bs.take(i + 1), command) == (if bs[i].command == command {
            hints_of(bs.take(i), command).push(bs[i].display@)
        } else {
            hints_of(bs.take(i), command)
        }),
    decreases i + 1,
{
    let a = bs.take(i + 1);
    if i == 0 {
        assert(a.skip(1) =~= bs.take(0));
        if bs[0].command == command {
            assert(hints_of(a, command) =~= hints_of(bs.take(0), command).push(bs[0].display@));
        }
    } else {
        lemma_hints_of_snoc(bs.skip(1), command, i - 1);
        assert(a.skip(1) =~= bs.skip(1).take(i));
        assert(bs.take(i).skip(1) =~= bs.skip(1).take(i - 1));
        assert(a[0] == bs[0]);
        assert(bs.take(i)[0] == bs[0]);
        assert(bs.skip(1)[i - 1] == bs[i]);
        if bs[i].command == command {
            assert(hints_of(bs.take(i + 1), command) =~= hints_of(bs.take(i), command).push(
                bs[i].display@,
            ));
        }
    }
}

proof fn lemma_join_with_snoc(parts: Seq<Seq<char>>, sep: char, p: Seq<char>)
    requires
        parts.len() > 0,
    ensures
        join_with(parts.push(p), sep) == join_with(parts, sep) + seq![sep] + p,
    decreases parts.len(),
{
    reveal_with_fuel(join_with, 3);
    if parts.len() == 1 {
        assert(parts.push(p)[0] == parts[0]);
        assert(parts.push(p).skip(1) =~= seq![p]);
        assert(join_with(parts.push(p), sep) =~= join_with(parts, sep) + seq![sep] + p);
    } else {
        lemma_join_with_snoc(parts.skip(1), sep, p);
        assert(parts.push(p)[0] == parts[0]);
        assert(parts.push(p).skip(1) =~= parts.skip(1).push(p));
        assert(join_with(parts.push(p), sep) =~= join_with(parts, sep) + seq![sep] + p);
    }
}

impl Keymap {
    /// A keymap holding the given bindings.
    pub fn new(bindings: Vec<KeyBinding>) -> (r: Keymap)
        ensures
            r.bindings == bindings,
    {
        Keymap { bindings }
    }

    /// The display hints of every binding of the command, joined with
    /// `/` (e.g. "j/Down"); `None` when the command has no binding.
    #[verifier::loop_isolation(false)]
    pub fn compact_hint_for_command(&self, command: CommandId) -> (r: Option<String>)
        ensures
            hints_of(self.bindings@, command).len() == 0 <==> r is None,
            r matches Some(s) ==> s@ == join_with(hints_of(self.bindings@, command), '/'),
    {
        let mut out: Option<String> = None;
        let n = self.bindings.len();
        let mut i: usize = 0;
        while i < n
            invariant
                i <= n,
                n == self.bindings@.len(),
                hints_of(self.bindings@.take(i as int), command).len() == 0 <==> out is None,
                out matches Some(s) ==> s@ == join_with(
                    hints_of(self.bindings@.take(i as int), command),
                    '/',
                ),
            decreases n - i,
        {
            proof {
                lemma_hints_of_snoc(self.bindings@, command, i as int);
            }
            let b = &self.bindings[i];
            let is_match = b.command == command;
            if is_match {
                match out {
                    None => {
                        proof {
                            lemma_hints_of_len_zero(
                                self.bindings@.take(i as int),
                                command,
                            );
                        }
                        out = Some(b.display.clone());
                        proof {
                            let hs = hints_of(self.bindings@.take(i + 1), command);
                            assert(hs =~= seq![self.bindings@[i as int].display@]);
                        }
                    },
                    Some(prev) => {
                        let joined = concat_str(prev.as_str(), "/");
                        let withnew = concat_str(joined.as_str(), b.display.as_str());
                        proof {
                            lemma_join_with_snoc(
                                hints_of(self.bindings@.take(i as int), command),
                                '/',
                                self.bindings@[i as int].display@,
                            );
                            reveal_strlit("/");
                            assert("/"@ =~= seq!['/']);
                        }
                        out = Some(withnew);
                    },
                }
            }
            i = i + 1;
        }
        proof {
            assert(self.bindings@.take(n as int) =~= self.bindings@);
        }
        out
    }
}

/// An empty prefix yields no hints.
proof fn lemma_hints_of_len_zero(bs: Seq<KeyBinding>, command: CommandId)
    requires
        hints_of(bs, command).len() == 0,
    ensures
        hints_of(bs, command) == Seq::<Seq<char>>::empty(),
{
    assert(hints_of(bs, command) =~= Seq::<Seq<char>>::empty());
}

/// The chord, display text and command of every default binding, in
/// declaration order.
pub open spec fn default_bindings() -> Seq<(Seq<char>, Seq<char>, CommandId)> {
    seq![
        ("j"@, "j"@, CommandId::NavigateNext),
        ("down"@, "↓"@, CommandId::NavigateNext),
        ("k"@, "k"@, CommandId::NavigatePrevious),
        ("up"@, "↑"@, CommandId::NavigatePrevious),
        ("h"@, "h"@, CommandId::NavigateLeft),
        ("left"@, "←"@, CommandId::NavigateLeft),
        ("l"@, "l"@, CommandId::NavigateRight),
        ("right"@, "→"@, CommandId::NavigateRight),
        ("tab"@, "Tab"@, CommandId::RepositoryNext),
        ("shift+tab"@, "Shift+Tab"@, CommandId::RepositoryPrevious),
        ("backtab"@, "Shift+Tab"@, CommandId::RepositoryPrevious),
        ("r a"@, "r → a"@, CommandId::RepositoryAdd),
        ("r o"@, "r → o"@, CommandId::RepositoryOpenInBrowser),
        ("g g"@, "gg"@, CommandId::NavigateToTop),
        ("G"@, "G"@, CommandId::NavigateToBottom),
        ("`"@, "`"@, CommandId::DebugToggleConsoleView),
        ("c"@, "c"@, CommandId::DebugClearLogs),
        ("ctrl+p"@, "Ctrl+P"@, CommandId::CommandPaletteOpen),
        ("space"@, "Space"@, CommandId::PrToggleSelection),
        ("ctrl+a"@, "Ctrl+A"@, CommandId::PrSelectAll),
        ("u"@, "u"@, CommandId::PrDeselectAll),
        ("ctrl+r"@, "Ctrl+R"@, CommandId::PrRefresh),
        ("enter"@, "Enter"@, CommandId::PrOpenInBrowser),
        ("p m"@, "p -> m"@, CommandId::PrMerge),
        ("p l"@, "p -> l"@, CommandId::PrOpenBuildLogs),
        ("b l"@, "b -> l"@, CommandId::BuildLogOpen),
        ("i"@, "i"@, CommandId::PrOpenInIDE),
        ("f"@, "f"@, CommandId::PrCycleFilter),
        ("F"@, "F"@, CommandId::PrClearFilter),
        ("?"@, "?"@, CommandId::KeyBindingsToggleView),
        ("n"@, "n"@, CommandId::BuildLogNextError),
        ("N"@, "N"@, CommandId::BuildLogPrevError),
        ("t"@, "t"@, CommandId::BuildLogToggleTimestamps),
        ("e"@, "e"@, CommandId::BuildLogExpandAll),
        ("E"@, "E"@, CommandId::BuildLogCollapseAll),
        ("q"@, "q"@, CommandId::GlobalClose),
        ("esc"@, "Esc"@, CommandId::GlobalClose),
        ("ctrl+c"@, "Ctrl+C"@, CommandId::GlobalQuit),
    ]
}

/// The default keymap: exactly the bindings of `default_bindings`, in
/// order.
#[verifier::rlimit(100)]
pub fn default_keymap() -> (r: Keymap)
    ensures
        r.bindings@.map_values(|b: KeyBinding| (b.key@, b.display@, b.command))
            == default_bindings(),
        r.bindings@.len() > 0,
        hints_of(r.bindings@, CommandId::NavigateNext).len() > 0,
        hints_of(r.bindings@, CommandId::GlobalQuit).len() > 0,
{
    let mut bindings: Vec<KeyBinding> = Vec::new();
    bindings.push(KeyBinding::new("j", "j", CommandId::NavigateNext));
    bindings.push(KeyBinding::new("down", "↓", CommandId::NavigateNext));
    bindings.push(KeyBinding::new("k", "k", CommandId::NavigatePrevious));
    bindings.push(KeyBinding::new("up", "↑", CommandId::NavigatePrevious));
    bindings.push(KeyBinding::new("h", "h", CommandId::NavigateLeft));
    bindings.push(KeyBinding::new("left", "←", CommandId::NavigateLeft));
    bindings.push(KeyBinding::new("l", "l", CommandId::NavigateRight));
    bindings.push(KeyBinding::new("right", "→", CommandId::NavigateRight));
    bindings.push(KeyBinding::new("tab", "Tab", CommandId::RepositoryNext));
    bindings.push(KeyBinding::new("shift+tab", "Shift+Tab", CommandId::RepositoryPrevious));
    bindings.push(KeyBinding::new("backtab", "Shift+Tab", CommandId::RepositoryPrevious));
    bindings.push(KeyBinding::new("r a", "r → a", CommandId::RepositoryAdd));
    bindings.push(KeyBinding::new("r o", "r → o", CommandId::RepositoryOpenInBrowser));
    bindings.push(KeyBinding::new("g g", "gg", CommandId::NavigateToTop));
    bindings.push(KeyBinding::new("G", "G", CommandId::NavigateToBottom));
    bindings.push(KeyBinding::new("`", "`", CommandId::DebugToggleConsoleView));
    bindings.push(KeyBinding::new("c", "c", CommandId::DebugClearLogs));
    bindings.push(KeyBinding::new("ctrl+p", "Ctrl+P", CommandId::CommandPaletteOpen));
    bindings.push(KeyBinding::new("space", "Space", CommandId::PrToggleSelection));
    bindings.push(KeyBinding::new("ctrl+a", "Ctrl+A", CommandId::PrSelectAll));
    bindings.push(KeyBinding::new("u", "u", CommandId::PrDeselectAll));
    bindings.push(KeyBinding::new("ctrl+r", "Ctrl+R", CommandId::PrRefresh));
    bindings.push(KeyBinding::new("enter", "Enter", CommandId::PrOpenInBrowser));
    bindings.push(KeyBinding::new("p m", "p -> m", CommandId::PrMerge));
    bindings.push(KeyBinding::new("p l", "p -> l", CommandId::PrOpenBuildLogs));
    bindings.push(KeyBinding::new("b l", "b -> l", CommandId::BuildLogOpen));
    bindings.push(KeyBinding::new("i", "i", CommandId::PrOpenInIDE));
    bindings.push(KeyBinding::new("f", "f", CommandId::PrCycleFilter));
    bindings.push(KeyBinding::new("F", "F", CommandId::PrClearFilter));
    bindings.push(KeyBinding::new("?", "?", CommandId::KeyBindingsToggleView));
    bindings.push(KeyBinding::new("n", "n", CommandId::BuildLogNextError));
    bindings.push(KeyBinding::new("N", "N", CommandId::BuildLogPrevError));
    bindings.push(KeyBinding::new("t", "t", CommandId::BuildLogToggleTimestamps));
    bindings.push(KeyBinding::new("e", "e", CommandId::BuildLogExpandAll));
    bindings.push(KeyBinding::new("E", "E", CommandId::BuildLogCollapseAll));
    bindings.push(KeyBinding::new("q", "q", CommandId::GlobalClose));
    bindings.push(KeyBinding::new("esc", "Esc", CommandId::GlobalClose));
    bindings.push(KeyBinding::new("ctrl+c", "Ctrl+C", CommandId::GlobalQuit));
    proof {
        lemma_hints_prefix_monotone(bindings@, CommandId::NavigateNext, 1);
        lemma_hints_prefix_monotone(bindings@, CommandId::GlobalQuit, bindings@.len() as int);
        assert(bindings@.map_values(|b: KeyBinding| (b.key@, b.display@, b.command))
            =~~= default_bindings());
    }
    Keymap::new(bindings)
}

/// A command bound inside a prefix stays bound in the whole sequence.
proof fn lemma_hints_prefix_monotone(bs: Seq<KeyBinding>, command: CommandId, upto: int)
    requires
        0 < upto <= bs.len(),
        bs[upto - 1].command == command,
    ensures
        hints_of(bs, command).len() > 0,
    decreases bs,
{
    if upto == 1 {
        if bs[0].command == command {
        }
    } else {
        lemma_hints_prefix_monotone(bs.skip(1), command, upto - 1);
        assert(bs.skip(1)[upto - 2] == bs[upto - 1]);
    }
}

/// The issues every text yields, one sweep per text, in order.
pub open spec fn all_issues(
    trs: Seq<crate::issues::TrackerView>,
    texts: Seq<Seq<char>>,
    ctx: crate::issues::CtxView,
) -> Seq<crate::issues::IssueView>
    decreases texts,
{
    if texts.len() == 0 {
        Seq::empty()
    } else {
        crate::issues::extract_all_spec(trs, texts[0], ctx) + all_issues(trs, texts.skip(1), ctx)
    }
}

proof fn lemma_all_issues_snoc(
    trs: Seq<crate::issues::TrackerView>,
    texts: Seq<Seq<char>>,
    ctx: crate::issues::CtxView,
    i: int,
)
    requires
        0 <= i < texts.len(),
    ensures
        all_issues(trs, texts.take(i + 1), ctx) == all_issues(trs, texts.take(i), ctx)
            + crate::issues::extract_all_spec(trs, texts[i], ctx),
    decreases i + 1,
{
    let a = texts.take(i + 1);
    if i == 0 {
        assert(a.skip(1) =~= texts.take(0));
        assert(all_issues(trs, a, ctx) =~= all_issues(trs, texts.take(0), ctx)
            + crate::issues::extract_all_spec(trs, texts[0], ctx));
    } else {
        lemma_all_issues_snoc(trs, texts.skip(1), ctx, i - 1);
        assert(a.skip(1) =~= texts.skip(1).take(i));
        assert(texts.take(i).skip(1) =~= texts.skip(1).take(i - 1));
        assert(a[0] == texts[0]);
        assert(texts.take(i)[0] == texts[0]);
        assert(texts.skip(1)[i - 1] == texts[i]);
        assert(all_issues(trs, texts.take(i + 1), ctx) =~= all_issues(trs, texts.take(i), ctx)
            + crate::issues::extract_all_spec(trs, texts[i], ctx));
    }
}

/// Whether an issue with the same tracker and id occurs in the run.
pub open spec fn issue_key_in(
    s: Seq<crate::issues::IssueView>,
    m: crate::issues::IssueView,
) -> bool {
    exists|i: int|
        0 <= i < s.len() && (#[trigger] s[i]).tracker_name == m.tracker_name && s[i].issue_id
            == m.issue_id
}

/// The run with every later repetition of a (tracker, issue) key
/// removed: first occurrences survive, in order.
pub open spec fn dedup_issues(s: Seq<crate::issues::IssueView>) -> Seq<crate::issues::IssueView>
    decreases s.len(),
{
    if s.len() == 0 {
        Seq::empty()
    } else {
        let d = dedup_issues(s.drop_last());
        if issue_key_in(s.drop_last(), s.last()) {
            d
        } else {
            d.push(s.last())
        }
    }
}

/// Removing repetitions keeps exactly the keys.
proof fn lemma_dedup_keys(s: Seq<crate::issues::IssueView>, m: crate::issues::IssueView)
    ensures
        issue_key_in(dedup_issues(s), m) == issue_key_in(s, m),
    decreases s.len(),
{
    if s.len() > 0 {
        let d0 = s.drop_last();
        lemma_dedup_keys(d0, m);
        let dd = dedup_issues(s);
        if issue_key_in(dd, m) {
            let i = choose|i: int|
                0 <= i < dd.len() && (#[trigger] dd[i]).tracker_name == m.tracker_name
                    && dd[i].issue_id == m.issue_id;
            if issue_key_in(d0, s.last()) {
                assert(issue_key_in(dedup_issues(d0), m));
            } else {
                if i < dd.len() - 1 {
                    assert(dedup_issues(d0)[i] == dd[i]);
                    assert(issue_key_in(dedup_issues(d0), m));
                } else {
                    assert(dd[i] == s.last());
                    assert(s[s.len() - 1] == s.last());
                    assert(issue_key_in(s, m));
                }
            }
            if issue_key_in(dedup_issues(d0), m) {
                assert(issue_key_in(d0, m));
                let q = choose|q: int|
                    0 <= q < d0.len() && (#[trigger] d0[q]).tracker_name == m.tracker_name
                        && d0[q].issue_id == m.issue_id;
                assert(d0[q] == s[q]);
                assert(issue_key_in(s, m));
            }
        }
        if issue_key_in(s, m) {
            let i = choose|i: int|
                0 <= i < s.len() && (#[trigger] s[i]).tracker_name == m.tracker_name
                    && s[i].issue_id == m.issue_id;
            if i < s.len() - 1 {
                assert(d0[i] == s[i]);
                assert(issue_key_in(d0, m));
                assert(issue_key_in(dedup_issues(d0), m));
                let q = choose|q: int|
                    0 <= q < dedup_issues(d0).len() && (#[trigger] dedup_issues(
                        d0,
                    )[q]).tracker_name == m.tracker_name && dedup_issues(d0)[q].issue_id
                        == m.issue_id;
                if issue_key_in(d0, s.last()) {
                    assert(dedup_issues(s)[q] == dedup_issues(d0)[q]);
                    assert(issue_key_in(dedup_issues(s), m));
                } else {
                    assert(dedup_issues(s)[q] == dedup_issues(d0)[q]);
                    assert(issue_key_in(dedup_issues(s), m));
                }
            } else {
                assert(s[i] == s.last());
                if issue_key_in(d0, s.last()) {
                    let q = choose|q: int|
                        0 <= q < d0.len() && (#[trigger] d0[q]).tracker_name
                            == s.last().tracker_name && d0[q].issue_id == s.last().issue_id;
                    assert(d0[q].tracker_name == m.tracker_name && d0[q].issue_id == m.issue_id);
                    assert(issue_key_in(d0, m));
                    assert(issue_key_in(dedup_issues(d0), m));
                    let w = choose|w: int|
                        0 <= w < dedup_issues(d0).len() && (#[trigger] dedup_issues(
                            d0,
                        )[w]).tracker_name == m.tracker_name && dedup_issues(d0)[w].issue_id
                            == m.issue_id;
                    assert(dedup_issues(s)[w] == dedup_issues(d0)[w]);
                    assert(issue_key_in(dedup_issues(s), m));
                } else {
                    let last_idx = dedup_issues(s).len() - 1;
                    assert(dedup_issues(s)[last_idx] == s.last());
                    assert(issue_key_in(dedup_issues(s), m));
                }
            }
        }
    }
}

/// A key present in the mapped run is present in some element.
proof fn lemma_key_in_elem(
    s: Seq<crate::issues::IssueView>,
    ks: Seq<crate::issues::MatchedIssue>,
    m: crate::issues::IssueView,
)
    requires
        s == ks.map_values(|x: crate::issues::MatchedIssue| x.to_view()),
        issue_key_in(s, m),
    ensures
        exists|q: int|
            0 <= q < ks.len() && (#[trigger] ks[q]).to_view().tracker_name == m.tracker_name && ks[
                q
            ].to_view().issue_id == m.issue_id,
{
    let q = choose|q: int|
        0 <= q < s.len() && (#[trigger] s[q]).tracker_name == m.tracker_name && s[q].issue_id
            == m.issue_id;
    assert(s[q] == ks[q].to_view());
}

/// Generates one palette entry per distinct issue referenced by the
/// given texts: every tracker contributes its first match per text,
/// repeated (tracker, issue) keys are dropped, and each entry carries
/// the issue's URL.
#[verifier::rlimit(100)]
pub fn get_issue_commands(
    config: &[crate::config::IssueTrackerConfig],
    pr_texts: &[String],
    repo_ctx: &crate::issues::RepoContext,
) -> (r: Vec<Command>)
    ensures
        ({
            let dd = dedup_issues(
                all_issues(
                    crate::issues::built_trackers(config@),
                    pr_texts@.map_values(|s: String| s@),
                    crate::issues::ctx_view(*repo_ctx),
                ),
            );
            &&& r@.len() == dd.len()
            &&& forall|q: int|
                0 <= q < dd.len() ==> {
                    let c = #[trigger] r@[q];
                    &&& c.id is None
                    &&& (c.url matches Some(u) && u@ == dd[q].url)
                    &&& c.title@ == "Open issue "@ + dd[q].issue_id
                    &&& c.description@ == "Open issue "@ + dd[q].issue_id + " on "@
                        + dd[q].tracker_name
                    &&& c.category@ == "Issue Tracker"@
                    &&& c.shortcut_hint is None
                }
        }),
{
    let extractor = crate::issues::IssueExtractor::from_config(config);
    let ghost trs = crate::issues::built_trackers(config@);
    let ghost tv = pr_texts@.map_values(|s: String| s@);
    let ghost cx = crate::issues::ctx_view(*repo_ctx);
    let mut out: Vec<Command> = Vec::new();
    let mut kept: Vec<crate::issues::MatchedIssue> = Vec::new();
    let ghost kview = |x: crate::issues::MatchedIssue| x.to_view();
    let n = pr_texts.len();
    let mut i: usize = 0;
    proof {
        assert(tv.take(0) =~= Seq::<Seq<char>>::empty());
        assert(kept@.map_values(kview) =~= dedup_issues(all_issues(trs, tv.take(0), cx)));
    }
    while i < n
        invariant
            i <= n,
            n == pr_texts@.len(),
            tv == pr_texts@.map_values(|s: String| s@),
            trs == crate::issues::trackers_view(extractor.trackers@),
            cx == crate::issues::ctx_view(*repo_ctx),
            kview == (|x: crate::issues::MatchedIssue| x.to_view()),
            kept@.map_values(kview) == dedup_issues(all_issues(trs, tv.take(i as int), cx)),
            out@.len() == kept@.len(),
            forall|q: int|
                0 <= q < kept@.len() ==> {
                    let c = #[trigger] out@[q];
                    let m = kept@.map_values(|x: crate::issues::MatchedIssue| x.to_view())[q];
                    &&& c.id is None
                    &&& (c.url matches Some(u) && u@ == m.url)
                    &&& c.title@ == "Open issue "@ + m.issue_id
                    &&& c.description@ == "Open issue "@ + m.issue_id + " on "@ + m.tracker_name
                    &&& c.category@ == "Issue Tracker"@
                    &&& c.shortcut_hint is None
                },
        decreases n - i,
    {
        let issues = extractor.extract_all(pr_texts[i].as_str(), repo_ctx);
        let ghost cur = crate::issues::extract_all_spec(trs, tv[i as int], cx);
        proof {
            assert(tv[i as int] == pr_texts@[i as int]@);
            assert(crate::issues::trackers_view(extractor.trackers@) == trs);
            assert forall|k: int| 0 <= k < issues@.len() implies issues@.map_values(
                |x: crate::issues::MatchedIssue| x.to_view(),
            )[k] == issues@[k].to_view() by {}
            assert forall|k: int| 0 <= k < issues@.len() implies cur[k] == issues@[k].to_view()
                by {}
            assert(issues@.map_values(|x: crate::issues::MatchedIssue| x.to_view()) =~= cur);
            lemma_all_issues_snoc(trs, tv, cx, i as int);
            assert(cur.take(0) =~= Seq::<crate::issues::IssueView>::empty());
            assert(all_issues(trs, tv.take(i as int), cx) + cur.take(0) =~= all_issues(
                trs,
                tv.take(i as int),
                cx,
            ));
        }
        let m2 = issues.len();
        let mut j: usize = 0;
        while j < m2
            invariant
                j <= m2,
                m2 == issues@.len(),
                i < n,
                n == pr_texts@.len(),
                cur == issues@.map_values(|x: crate::issues::MatchedIssue| x.to_view()),
                cx == crate::issues::ctx_view(*repo_ctx),
                kview == (|x: crate::issues::MatchedIssue| x.to_view()),
                kept@.map_values(kview) == dedup_issues(
                    all_issues(trs, tv.take(i as int), cx) + cur.take(j as int),
                ),
                out@.len() == kept@.len(),
                forall|q: int|
                    0 <= q < kept@.len() ==> {
                        let c = #[trigger] out@[q];
                        let m = kept@.map_values(|x: crate::issues::MatchedIssue| x.to_view())[q];
                        &&& c.id is None
                        &&& (c.url matches Some(u) && u@ == m.url)
                        &&& c.title@ == "Open issue "@ + m.issue_id
                        &&& c.description@ == "Open issue "@ + m.issue_id + " on "@
                            + m.tracker_name
                        &&& c.shortcut_hint is None
                        &&& c.category@ == "Issue Tracker"@
                    },
            decreases m2 - j,
        {
            let ghost base = all_issues(trs, tv.take(i as int), cx) + cur.take(j as int);
            let issue = &issues[j];
            proof {
                assert(cur[j as int] == issues@[j as int].to_view());
                assert((base.push(cur[j as int])).drop_last() =~= base);
                assert(base.push(cur[j as int]).last() == cur[j as int]);
                assert(cur.take(j + 1) =~= cur.take(j as int).push(cur[j as int]));
                assert(all_issues(trs, tv.take(i as int), cx) + cur.take(j + 1) =~= base.push(
                    cur[j as int],
                ));
                lemma_dedup_keys(base, cur[j as int]);
            }
            let mut seen = false;
            let kn = kept.len();
            let mut t: usize = 0;
            while t < kn
                invariant
                    t <= kn,
                    kn == kept@.len(),
                    kview == (|x: crate::issues::MatchedIssue| x.to_view()),
                    !seen ==> forall|q: int|
                        0 <= q < t ==> !((#[trigger] kept@[q]).to_view().tracker_name
                            == issue.to_view().tracker_name && kept@[q].to_view().issue_id
                            == issue.to_view().issue_id),
                    seen ==> issue_key_in(
                        kept@.map_values(|x: crate::issues::MatchedIssue| x.to_view()),
                        issue.to_view(),
                    ),
                decreases kn - t,
            {
                if !seen {
                    let same = crate::text::str_eq(
                        kept[t].tracker_name.as_str(),
                        issue.tracker_name.as_str(),
                    ) && crate::text::str_eq(kept[t].issue_id.as_str(), issue.issue_id.as_str());
                    proof {
                        assert(kept@.map_values(|x: crate::issues::MatchedIssue| x.to_view())[
                            t as int
                        ] == kept@[t as int].to_view());
                    }
                    if same {
                        seen = true;
                    }
                }
                t = t + 1;
            }
            proof {
                if !seen && issue_key_in(
                    kept@.map_values(|x: crate::issues::MatchedIssue| x.to_view()),
                    issue.to_view(),
                ) {
                    lemma_key_in_elem(
                        kept@.map_values(|x: crate::issues::MatchedIssue| x.to_view()),
                        kept@,
                        issue.to_view(),
                    );
                    assert(false);
                }
            }
            if !seen {
                let ghost kept_before = kept@;
                let ghost out_before = out@;
                kept.push(issue.duplicate());
                let title = concat_str("Open issue ", issue.issue_id.as_str());
                let with_on = concat_str(title.as_str(), " on ");
                let description = concat_str(with_on.as_str(), issue.tracker_name.as_str());
                let category = String::from_str("Issue Tracker");
                let c = Command {
                    id: None,
                    url: Some(issue.url.clone()),
                    title,
                    description,
                    category,
                    shortcut_hint: None,
                };
                out.push(c);
                proof {
                    reveal_strlit("Open issue ");
                    reveal_strlit(" on ");
                    reveal_strlit("Issue Tracker");
                    assert(kept@.map_values(kview) =~= kept_before.map_values(kview).push(
                        issues@[j as int].to_view(),
                    ));
                    assert(!issue_key_in(base, cur[j as int]));
                    assert(kept@.map_values(kview) =~= dedup_issues(base.push(cur[j as int])));
                }
            } else {
                proof {
                    assert(issue_key_in(base, cur[j as int]));
                    assert(kept@.map_values(kview) =~= dedup_issues(base.push(cur[j as int])));
                }
            }
            j = j + 1;
        }
        proof {
            assert(cur.take(m2 as int) =~= cur);
        }
        i = i + 1;
    }
    proof {
        assert(tv.take(n as int) =~= tv);
    }
    out
}

} // verus!
