//! The diff viewer panel: loading state around the navigation engine,
//! and the reducer that translates panel actions into engine actions.

use vstd::prelude::*;

use crate::diff::PullRequestDiff;
use crate::nav::DiffAction;
use crate::nav::DiffEvent;
use crate::nav::DiffViewerState;
use crate::nav::StateView;
use crate::nav::initial_view;
use crate::nav::state_view;
use crate::pr::LoadingState;

verus! {

/// Splash screen state.
#[derive(Debug, Clone)]
pub struct SplashState {
    /// Whether the application is still starting up.
    pub bootstrapping: bool,
    /// Current frame of the startup animation.
    pub animation_frame: usize,
}

impl Default for SplashState {
    fn default() -> (r: Self)
        ensures
            r.bootstrapping,
            r.animation_frame == 0,
    {
        SplashState { bootstrapping: true, animation_frame: 0 }
    }
}

/// Actions of the diff viewer panel.
#[derive(Debug, Clone)]
pub enum DiffViewerAction {
    /// Open the viewer for the current PR; the fetch happens outside the
    /// library.
    Open,
    /// Loading started.
    LoadStart,
    /// The diff arrived.
    Loaded { diff: PullRequestDiff, pr_number: u64, pr_title: String },
    /// Loading failed.
    LoadError(String),
    NavigateDown,
    NavigateUp,
    NavigateLeft,
    NavigateRight,
    NavigateToTop,
    NavigateToBottom,
    PageDown,
    PageUp,
    /// Expand or collapse the tree row under the cursor.
    Toggle,
    ExpandAll,
    CollapseAll,
    SwitchPane,
    EnterVisualMode,
    ExitVisualMode,
    AddComment,
    CancelComment,
    CommitComment,
    CommentChar(char),
    CommentBackspace,
    ShowReviewPopup,
    HideReviewPopup,
    ReviewOptionNext,
    ReviewOptionPrev,
    SubmitReview,
    /// An event emitted by the engine, handled outside the library.
    Event(DiffEvent),
    SetViewport { width: u16, height: u16 },
}

/// The diff viewer panel: its loading state and, once loaded, the
/// navigation engine state.
#[derive(Debug)]
pub struct ViewerPanelState {
    /// Loading state of the diff.
    pub loading: LoadingState,
    /// Number of the PR being viewed.
    pub pr_number: u64,
    /// Title of the PR being viewed.
    pub pr_title: String,
    /// The engine state, once a diff is loaded.
    pub inner: Option<DiffViewerState>,
}

/// The model of the optional engine state.
pub open spec fn inner_view(p: ViewerPanelState) -> Option<StateView> {
    match p.inner {
        Some(s) => Some(state_view(s)),
        None => None,
    }
}

/// The loaded engine state always satisfies its invariant.
pub open spec fn panel_inv(p: ViewerPanelState) -> bool {
    p.inner matches Some(s) ==> state_view(s).inv()
}

impl Default for ViewerPanelState {
    fn default() -> (r: Self)
        ensures
            r.loading == LoadingState::Idle,
            r.pr_number == 0,
            r.pr_title@ == Seq::<char>::empty(),
            r.inner is None,
            panel_inv(r),
    {
        ViewerPanelState {
            loading: LoadingState::Idle,
            pr_number: 0,
            pr_title: String::new(),
            inner: None,
        }
    }
}

impl ViewerPanelState {
    /// Marks the diff as loading.
    pub fn set_loading(&mut self)
        ensures
            final(self).loading == LoadingState::Loading,
            final(self).pr_number == old(self).pr_number,
            final(self).pr_title == old(self).pr_title,
            final(self).inner == old(self).inner,
    {
        self.loading = LoadingState::Loading;
    }

    /// Loads a diff: the engine is built fresh for it.
    pub fn load(&mut self, diff: PullRequestDiff, pr_number: u64, pr_title: &str)
        ensures
            final(self).loading == LoadingState::Loaded,
            final(self).pr_number == pr_number,
            final(self).pr_title@ == pr_title@,
            inner_view(*final(self)) == Some(initial_view(diff.to_view())),
            panel_inv(*final(self)),
    {
        self.loading = LoadingState::Loaded;
        self.pr_number = pr_number;
        self.pr_title = pr_title.to_owned();
        self.inner = Some(DiffViewerState::new(diff));
    }

    /// Records a load failure; the navigation state is not touched.
    pub fn set_error(&mut self, error: &str)
        ensures
            final(self).loading matches LoadingState::Error(m) && m@ == error@,
            final(self).pr_number == old(self).pr_number,
            final(self).pr_title == old(self).pr_title,
            final(self).inner == old(self).inner,
    {
        self.loading = LoadingState::Error(error.to_owned());
    }
}

/// The inner state stepped by one engine action, when loaded.
pub open spec fn stepped(iv: Option<StateView>, a: DiffAction) -> Option<StateView> {
    match iv {
        Some(v) => Some(v.step(a)),
        None => None,
    }
}

/// Forwards an engine action to the inner state, when one is loaded.
/// The emitted intents are dropped here; callers that need them drive
/// the engine directly.
pub fn forward_action(state: &mut ViewerPanelState, action: DiffAction)
    requires
        panel_inv(*old(state)),
    ensures
        panel_inv(*final(state)),
        inner_view(*final(state)) == stepped(inner_view(*old(state)), action),
        final(state).loading == old(state).loading,
        final(state).pr_number == old(state).pr_number,
        final(state).pr_title == old(state).pr_title,
{
    let mut taken: Option<DiffViewerState> = None;
    core::mem::swap(&mut state.inner, &mut taken);
    match taken {
        Some(mut s) => {
            let _events = s.handle_action(action);
            state.inner = Some(s);
        },
        None => {
            state.inner = None;
        },
    }
}

/// The engine action a panel action translates to, when it drives the
/// engine at all.
pub open spec fn engine_action_of(action: DiffViewerAction) -> Option<DiffAction> {
    match action {
        DiffViewerAction::NavigateDown => Some(DiffAction::CursorDown),
        DiffViewerAction::NavigateUp => Some(DiffAction::CursorUp),
        DiffViewerAction::NavigateLeft => Some(DiffAction::FocusFileTree),
        DiffViewerAction::NavigateRight => Some(DiffAction::FocusDiffContent),
        DiffViewerAction::NavigateToTop => Some(DiffAction::CursorFirst),
        DiffViewerAction::NavigateToBottom => Some(DiffAction::CursorLast),
        DiffViewerAction::PageDown => Some(DiffAction::ScrollPageDown),
        DiffViewerAction::PageUp => Some(DiffAction::ScrollPageUp),
        DiffViewerAction::Toggle => Some(DiffAction::ToggleTreeNode),
        DiffViewerAction::SwitchPane => Some(DiffAction::ToggleFocus),
        DiffViewerAction::EnterVisualMode => Some(DiffAction::EnterVisualMode),
        DiffViewerAction::ExitVisualMode => Some(DiffAction::ExitVisualMode),
        DiffViewerAction::AddComment => Some(DiffAction::StartComment),
        DiffViewerAction::CancelComment => Some(DiffAction::CancelComment),
        DiffViewerAction::CommitComment => Some(DiffAction::CommitComment),
        DiffViewerAction::CommentChar(c) => Some(DiffAction::CommentInsertChar(c)),
        DiffViewerAction::CommentBackspace => Some(DiffAction::CommentBackspace),
        DiffViewerAction::ShowReviewPopup => Some(DiffAction::ShowReviewPopup),
        DiffViewerAction::HideReviewPopup => Some(DiffAction::HideReviewPopup),
        DiffViewerAction::ReviewOptionNext => Some(DiffAction::ReviewOptionNext),
        DiffViewerAction::ReviewOptionPrev => Some(DiffAction::ReviewOptionPrev),
        DiffViewerAction::SubmitReview => Some(DiffAction::SubmitReview),
        DiffViewerAction::SetViewport { width, height } => Some(
            DiffAction::SetViewport { width, height },
        ),
        _ => None,
    }
}

/// Applies one panel action: loading actions manage the panel itself,
/// navigation actions are forwarded to the engine.
pub fn reduce_diff_viewer(state: ViewerPanelState, action: &DiffViewerAction) -> (r:
    ViewerPanelState)
    requires
        panel_inv(state),
    ensures
        panel_inv(r),
        (match action {
            DiffViewerAction::Open => r == state,
            DiffViewerAction::LoadStart => r.loading == LoadingState::Loading && r.pr_number
                == state.pr_number && r.pr_title == state.pr_title && r.inner == state.inner,
            DiffViewerAction::Loaded { diff, pr_number, pr_title } => r.loading
                == LoadingState::Loaded && r.pr_number == pr_number && r.pr_title@ == pr_title@
                && inner_view(r) == Some(initial_view(diff.to_view())),
            DiffViewerAction::LoadError(e) => (r.loading matches LoadingState::Error(m) && m@
                == e@) && r.pr_number == state.pr_number && r.pr_title == state.pr_title
                && r.inner == state.inner,
            DiffViewerAction::ExpandAll | DiffViewerAction::CollapseAll
            | DiffViewerAction::Event(_) => r == state,
            _ => (match engine_action_of(*action) {
                Some(a) => inner_view(r) == stepped(inner_view(state), a) && r.loading
                    == state.loading && r.pr_number == state.pr_number && r.pr_title
                    == state.pr_title,
                None => r == state,
            }),
        }),
{
    let mut state = state;
    match action {
        DiffViewerAction::Open => {},
        DiffViewerAction::LoadStart => {
            state.set_loading();
        },
        DiffViewerAction::Loaded { diff, pr_number, pr_title } => {
            state.load(diff.duplicate(), *pr_number, pr_title.as_str());
        },
        DiffViewerAction::LoadError(e) => {
            state.set_error(e.as_str());
        },
        DiffViewerAction::NavigateDown => {
            forward_action(&mut state, DiffAction::CursorDown);
        },
        DiffViewerAction::NavigateUp => {
            forward_action(&mut state, DiffAction::CursorUp);
        },
        DiffViewerAction::NavigateLeft => {
            forward_action(&mut state, DiffAction::FocusFileTree);
        },
        DiffViewerAction::NavigateRight => {
            forward_action(&mut state, DiffAction::FocusDiffContent);
        },
        DiffViewerAction::NavigateToTop => {
            forward_action(&mut state, DiffAction::CursorFirst);
        },
        DiffViewerAction::NavigateToBottom => {
            forward_action(&mut state, DiffAction::CursorLast);
        },
        DiffViewerAction::PageDown => {
            forward_action(&mut state, DiffAction::ScrollPageDown);
        },
        DiffViewerAction::PageUp => {
            forward_action(&mut state, DiffAction::ScrollPageUp);
        },
        DiffViewerAction::Toggle => {
            forward_action(&mut state, DiffAction::ToggleTreeNode);
        },
        DiffViewerAction::ExpandAll | DiffViewerAction::CollapseAll => {},
        DiffViewerAction::SwitchPane => {
            forward_action(&mut state, DiffAction::ToggleFocus);
        },
        DiffViewerAction::EnterVisualMode => {
            forward_action(&mut state, DiffAction::EnterVisualMode);
        },
        DiffViewerAction::ExitVisualMode => {
            forward_action(&mut state, DiffAction::ExitVisualMode);
        },
        DiffViewerAction::AddComment => {
            forward_action(&mut state, DiffAction::StartComment);
        },
        DiffViewerAction::CancelComment => {
            forward_action(&mut state, DiffAction::CancelComment);
        },
        DiffViewerAction::CommitComment => {
            forward_action(&mut state, DiffAction::CommitComment);
        },
        DiffViewerAction::CommentChar(c) => {
            forward_action(&mut state, DiffAction::CommentInsertChar(*c));
        },
        DiffViewerAction::CommentBackspace => {
            forward_action(&mut state, DiffAction::CommentBackspace);
        },
        DiffViewerAction::ShowReviewPopup => {
            forward_action(&mut state, DiffAction::ShowReviewPopup);
        },
        DiffViewerAction::HideReviewPopup => {
            forward_action(&mut state, DiffAction::HideReviewPopup);
        },
        DiffViewerAction::ReviewOptionNext => {
            forward_action(&mut state, DiffAction::ReviewOptionNext);
        },
        DiffViewerAction::ReviewOptionPrev => {
            forward_action(&mut state, DiffAction::ReviewOptionPrev);
        },
        DiffViewerAction::SubmitReview => {
            forward_action(&mut state, DiffAction::SubmitReview);
        },
        DiffViewerAction::Event(_) => {},
        DiffViewerAction::SetViewport { width, height } => {
            forward_action(&mut state, DiffAction::SetViewport { width: *width, height: *height });
        },
    }
    state
}

} // verus!
