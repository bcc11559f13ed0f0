//! Repositories under review, the add-repository form, and their
//! reducers.

use vstd::prelude::*;

use crate::text::concat_str;
use crate::text::split_seq;
use crate::text::split_char;

verus! {

/// A repository being tracked.
#[derive(Debug, Clone)]
pub struct Repository {
    /// Organization or owner name.
    pub org: String,
    /// Repository name.
    pub repo: String,
    /// Branch of interest.
    pub branch: String,
    /// Host name (e.g. "github.com").
    pub host: String,
}

impl Repository {
    /// A repository handle from its parts.
    pub fn new(org: &str, repo: &str, branch: &str, host: &str) -> (r: Repository)
        ensures
            r.org@ == org@,
            r.repo@ == repo@,
            r.branch@ == branch@,
            r.host@ == host@,
    {
        Repository {
            org: org.to_owned(),
            repo: repo.to_owned(),
            branch: branch.to_owned(),
            host: host.to_owned(),
        }
    }

    /// The "org/repo" display form.
    pub fn display_name(&self) -> (r: String)
        ensures
            r@ == self.org@ + "/"@ + self.repo@,
    {
        let head = concat_str(self.org.as_str(), "/");
        concat_str(head.as_str(), self.repo.as_str())
    }

    /// An exact copy.
    pub fn duplicate(&self) -> (r: Repository)
        ensures
            r == *self,
    {
        Repository {
            org: self.org.clone(),
            repo: self.repo.clone(),
            branch: self.branch.clone(),
            host: self.host.clone(),
        }
    }
}

/// Actions on the repository list and the add-repository form.
#[derive(Debug, Clone)]
pub enum RepositoryAction {
    /// Open the current repository in the browser; a side effect outside
    /// the library, so the state is unchanged.
    OpenRepositoryInBrowser,
    /// Adds a new repository to the list.
    AddRepository(Repository),
    /// Load the repository's data; a side effect outside the library.
    LoadRepositoryData(Repository),
    /// Move to the next form field.
    FormNextField,
    /// Move to the previous form field.
    FormPrevField,
    /// A character typed into the focused field.
    FormChar(char),
    /// Backspace pressed in the focused field.
    FormBackspace,
    /// Clear the focused field.
    FormClearField,
    /// Confirm and add the repository.
    FormConfirm,
    /// Close the form without adding.
    FormClose,
}

/// Actions of application startup and configuration loading.
#[derive(Debug, Clone)]
pub enum BootstrapAction {
    /// Bootstrap started.
    Start,
    /// Bootstrap finished.
    End,
    /// The application configuration was loaded.
    ConfigLoaded(crate::config::AppConfig),
    /// Request to load the recently used repositories.
    LoadRecentRepositories,
    /// The recently used repositories were loaded.
    LoadRecentRepositoriesDone,
    /// Add several repositories at once, from configuration.
    RepositoryAddBulk(Vec<Repository>),
}

/// State of the main repository list.
#[derive(Debug, Clone)]
pub struct MainViewState {
    /// The repositories being tracked.
    pub repositories: Vec<Repository>,
    /// Index of the active repository tab.
    pub selected_repository: usize,
}

impl Default for MainViewState {
    fn default() -> (r: Self)
        ensures
            r.repositories@ == Seq::<Repository>::empty(),
            r.selected_repository == 0,
    {
        MainViewState { repositories: Vec::new(), selected_repository: 0 }
    }
}

/// Applies one repository action to the list: only `AddRepository`
/// changes it, appending the repository; everything else is handled
/// elsewhere or has its side effect outside the library.
pub fn reduce_repository(state: MainViewState, action: &RepositoryAction) -> (r: MainViewState)
    ensures
        (match action {
            RepositoryAction::AddRepository(repo) => r.repositories@ == state.repositories@.push(
                *repo,
            ) && r.selected_repository == state.selected_repository,
            _ => r == state,
        }),
{
    let mut state = state;
    match action {
        RepositoryAction::AddRepository(repo) => {
            state.repositories.push(repo.duplicate());
        },
        _ => {},
    }
    state
}

/// The form field currently focused.
#[derive(Debug, Clone, Copy, PartialEq, Eq, Structural)]
pub enum AddRepoField {
    Url,
    Org,
    Repo,
    Branch,
}

impl AddRepoField {
    /// The field after this one, cyclically.
    pub open spec fn spec_next(self) -> AddRepoField {
        match self {
            AddRepoField::Url => AddRepoField::Org,
            AddRepoField::Org => AddRepoField::Repo,
            AddRepoField::Repo => AddRepoField::Branch,
            AddRepoField::Branch => AddRepoField::Url,
        }
    }

    /// The field before this one, cyclically.
    pub open spec fn spec_prev(self) -> AddRepoField {
        match self {
            AddRepoField::Url => AddRepoField::Branch,
            AddRepoField::Org => AddRepoField::Url,
            AddRepoField::Repo => AddRepoField::Org,
            AddRepoField::Branch => AddRepoField::Repo,
        }
    }

    /// The next field.
    pub fn next(self) -> (r: AddRepoField)
        ensures
            r == self.spec_next(),
    {
        match self {
            AddRepoField::Url => AddRepoField::Org,
            AddRepoField::Org => AddRepoField::Repo,
            AddRepoField::Repo => AddRepoField::Branch,
            AddRepoField::Branch => AddRepoField::Url,
        }
    }

    /// The previous field.
    pub fn prev(self) -> (r: AddRepoField)
        ensures
            r == self.spec_prev(),
    {
        match self {
            AddRepoField::Url => AddRepoField::Branch,
            AddRepoField::Org => AddRepoField::Url,
            AddRepoField::Repo => AddRepoField::Org,
            AddRepoField::Branch => AddRepoField::Repo,
        }
    }
}

/// State of the add-repository form.
#[derive(Debug, Clone)]
pub struct AddRepoFormState {
    /// Pasted URL, parsed into org/repo as it changes.
    pub url: String,
    /// Organization field.
    pub org: String,
    /// Repository field.
    pub repo: String,
    /// Branch field.
    pub branch: String,
    /// The focused field.
    pub focused_field: AddRepoField,
}

/// The mathematical model of the form.
#[verifier::ext_equal]
pub ghost struct FormView {
    pub url: Seq<char>,
    pub org: Seq<char>,
    pub repo: Seq<char>,
    pub branch: Seq<char>,
    pub focused_field: AddRepoField,
}

pub open spec fn form_view(s: AddRepoFormState) -> FormView {
    FormView {
        url: s.url@,
        org: s.org@,
        repo: s.repo@,
        branch: s.branch@,
        focused_field: s.focused_field,
    }
}

/// The org/repo parsed from a pasted URL: the third and fourth segments
/// of the URL split at `/` (as in "https://host/org/repo"), when both
/// are present and non-empty; otherwise the fields are left unchanged.
pub open spec fn parsed_url(v: FormView) -> FormView {
    let segs = split_seq(v.url, '/');
    if segs.len() >= 5 && segs[3].len() > 0 && segs[4].len() > 0 {
        FormView { org: segs[3], repo: segs[4], ..v }
    } else {
        v
    }
}

impl Default for AddRepoFormState {
    fn default() -> (r: Self)
        ensures
            form_view(r) == (FormView {
                url: Seq::<char>::empty(),
                org: Seq::<char>::empty(),
                repo: Seq::<char>::empty(),
                branch: Seq::<char>::empty(),
                focused_field: AddRepoField::Url,
            }),
    {
        let r = AddRepoFormState {
            url: String::new(),
            org: String::new(),
            repo: String::new(),
            branch: String::new(),
            focused_field: AddRepoField::Url,
        };
        proof {
            assert(form_view(r) =~= FormView {
                url: Seq::<char>::empty(),
                org: Seq::<char>::empty(),
                repo: Seq::<char>::empty(),
                branch: Seq::<char>::empty(),
                focused_field: AddRepoField::Url,
            });
        }
        r
    }
}

impl AddRepoFormState {
    /// The form is valid when both org and repo are filled in.
    pub fn is_valid(&self) -> (r: bool)
        ensures
            r == (self.org@.len() > 0 && self.repo@.len() > 0),
    {
        !self.org.as_str().is_empty() && !self.repo.as_str().is_empty()
    }

    /// Re-parses the pasted URL into the org and repo fields.
    pub fn parse_url_and_update(&mut self)
        ensures
            form_view(*final(self)) == parsed_url(form_view(*old(self))),
    {
        let segs = split_char(self.url.as_str(), '/');
        proof {
            assert(segs@.map_values(|t: String| t@) == split_seq(self.url@, '/'));
        }
        if segs.len() >= 5 {
            let org_seg = &segs[3];
            let repo_seg = &segs[4];
            if !org_seg.as_str().is_empty() && !repo_seg.as_str().is_empty() {
                self.org = org_seg.clone();
                self.repo = repo_seg.clone();
            }
        }
        proof {
            assert(form_view(*self) =~= parsed_url(form_view(*old(self))));
        }
    }

    /// Clears every field and focuses the URL field.
    pub fn reset(&mut self)
        ensures
            form_view(*final(self)) == (FormView {
                url: Seq::<char>::empty(),
                org: Seq::<char>::empty(),
                repo: Seq::<char>::empty(),
                branch: Seq::<char>::empty(),
                focused_field: AddRepoField::Url,
            }),
    {
        self.url.clear();
        self.org.clear();
        self.repo.clear();
        self.branch.clear();
        self.focused_field = AddRepoField::Url;
        proof {
            assert(form_view(*self) =~= FormView {
                url: Seq::<char>::empty(),
                org: Seq::<char>::empty(),
                repo: Seq::<char>::empty(),
                branch: Seq::<char>::empty(),
                focused_field: AddRepoField::Url,
            });
        }
    }
}

/// The form state one action steps to.
pub open spec fn spec_form_step(v: FormView, a: RepositoryAction) -> FormView {
    match a {
        RepositoryAction::FormChar(c) => match v.focused_field {
            AddRepoField::Url => parsed_url(FormView { url: v.url.push(c), ..v }),
            AddRepoField::Org => FormView { org: v.org.push(c), ..v },
            AddRepoField::Repo => FormView { repo: v.repo.push(c), ..v },
            AddRepoField::Branch => FormView { branch: v.branch.push(c), ..v },
        },
        RepositoryAction::FormBackspace => match v.focused_field {
            AddRepoField::Url => parsed_url(
                FormView {
                    url: if v.url.len() > 0 {
                        v.url.drop_last()
                    } else {
                        v.url
                    },
                    ..v
                },
            ),
            AddRepoField::Org => FormView {
                org: if v.org.len() > 0 {
                    v.org.drop_last()
                } else {
                    v.org
                },
                ..v
            },
            AddRepoField::Repo => FormView {
                repo: if v.repo.len() > 0 {
                    v.repo.drop_last()
                } else {
                    v.repo
                },
                ..v
            },
            AddRepoField::Branch => FormView {
                branch: if v.branch.len() > 0 {
                    v.branch.drop_last()
                } else {
                    v.branch
                },
                ..v
            },
        },
        RepositoryAction::FormClearField => match v.focused_field {
            AddRepoField::Url => FormView {
                url: Seq::empty(),
                org: Seq::empty(),
                repo: Seq::empty(),
                ..v
            },
            AddRepoField::Org => FormView { org: Seq::empty(), ..v },
            AddRepoField::Repo => FormView { repo: Seq::empty(), ..v },
            AddRepoField::Branch => FormView { branch: Seq::empty(), ..v },
        },
        RepositoryAction::FormNextField => FormView {
            focused_field: v.focused_field.spec_next(),
            ..v
        },
        RepositoryAction::FormPrevField => FormView {
            focused_field: v.focused_field.spec_prev(),
            ..v
        },
        RepositoryAction::FormConfirm => if v.org.len() > 0 && v.repo.len() > 0 {
            FormView {
                url: Seq::empty(),
                org: Seq::empty(),
                repo: Seq::empty(),
                branch: Seq::empty(),
                focused_field: AddRepoField::Url,
            }
        } else {
            v
        },
        RepositoryAction::FormClose => FormView {
            url: Seq::empty(),
            org: Seq::empty(),
            repo: Seq::empty(),
            branch: Seq::empty(),
            focused_field: AddRepoField::Url,
        },
        _ => v,
    }
}

/// Applies one action to the add-repository form.
pub fn reduce_add_repo_form(state: AddRepoFormState, action: &RepositoryAction) -> (r:
    AddRepoFormState)
    ensures
        form_view(r) == spec_form_step(form_view(state), *action),
{
    let ghost v0 = form_view(state);
    let mut state = state;
    match action {
        RepositoryAction::FormChar(c) => {
            match state.focused_field {
                AddRepoField::Url => {
                    state.url.push(*c);
                    state.parse_url_and_update();
                },
                AddRepoField::Org => {
                    state.org.push(*c);
                },
                AddRepoField::Repo => {
                    state.repo.push(*c);
                },
                AddRepoField::Branch => {
                    state.branch.push(*c);
                },
            }
        },
        RepositoryAction::FormBackspace => {
            match state.focused_field {
                AddRepoField::Url => {
                    let _c = state.url.pop();
                    state.parse_url_and_update();
                },
                AddRepoField::Org => {
                    let _c = state.org.pop();
                },
                AddRepoField::Repo => {
                    let _c = state.repo.pop();
                },
                AddRepoField::Branch => {
                    let _c = state.branch.pop();
                },
            }
        },
        RepositoryAction::FormClearField => {
            match state.focused_field {
                AddRepoField::Url => {
                    state.url.clear();
                    state.org.clear();
                    state.repo.clear();
                },
                AddRepoField::Org => {
                    state.org.clear();
                },
                AddRepoField::Repo => {
                    state.repo.clear();
                },
                AddRepoField::Branch => {
                    state.branch.clear();
                },
            }
        },
        RepositoryAction::FormNextField => {
            state.focused_field = state.focused_field.next();
        },
        RepositoryAction::FormPrevField => {
            state.focused_field = state.focused_field.prev();
        },
        RepositoryAction::FormConfirm => {
            if state.is_valid() {
                state.reset();
            }
        },
        RepositoryAction::FormClose => {
            state.reset();
        },
        RepositoryAction::OpenRepositoryInBrowser
        | RepositoryAction::AddRepository(_)
        | RepositoryAction::LoadRepositoryData(_) => {},
    }
    proof {
        assert(form_view(state) =~= spec_form_step(v0, *action));
    }
    state
}

} // verus!
