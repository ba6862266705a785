use vstd::prelude::*;

use crate::menu::{
    next_menu_item, previous_menu_item, request_of, request_view_name, view_name, MenuItem,
    RequestType, DETAIL_VIEW_NAME, ISSUES_VIEW_NAME, PROJECTS_VIEW_NAME, PULL_REQUESTS_VIEW_NAME,
    REMOTE_EXPLORER_NAME,
};
use crate::panel::{KeyCode, KeyInput, KeyModifiers, PanelElement};
use crate::panel_stack::{
    lemma_reaped_stack, drop_named, not_quitting, placed_on_top, select_outcome, stack_accepts, stack_layout,
    stack_takes_key, stack_wf, StackView,
    UiStack,
};
use crate::requests::{plan_request, remote_name, remote_owner, RequestPlan};
use crate::state::State;

verus! {

/// Data that background requests deliver to the orchestrator.
pub enum RepoData<D> {
    ActiveRemote(String),
    Issues(Option<D>),
    PullRequests(Option<D>),
    Projects(Option<D>),
    IssueInspect(D),
    PullRequestInspect(D),
    ProjectInspect(D),
}

/// What the orchestrator asks its surroundings to do.
#[derive(PartialEq, Eq, Structural, Clone, Copy, Debug)]
pub enum UiCommand {
    /// Fetch the list of this kind (see `Ui::plan_request`).
    Request(RequestType),
    /// Write the repository state to durable storage.
    SaveState,
    /// Build the remote picker and hand it to `Ui::add_remote_picker`.
    OpenRemotePicker,
}

/// The commands that a key press not consumed by a panel stands for.
#[derive(PartialEq, Eq, Structural, Clone, Copy, Debug)]
pub enum GlobalCommand {
    Quit,
    NextView,
    PreviousView,
    ShowView(MenuItem),
    OpenRemotePicker,
    Nothing,
}

/// `q` quits and Tab goes to the next view; with shift, BackTab goes to the
/// previous view and `I`, `P`, `R` show issues, pull requests and projects;
/// with control, `n` opens the remote picker.
pub open spec fn global_command_of(key: KeyInput) -> GlobalCommand {
    if key.modifiers == KeyModifiers::none_spec() {
        match key.code {
            KeyCode::Char(c) => if c == 'q' {
                GlobalCommand::Quit
            } else {
                GlobalCommand::Nothing
            },
            KeyCode::Tab => GlobalCommand::NextView,
            _ => GlobalCommand::Nothing,
        }
    } else if key.modifiers == (KeyModifiers { shift: true, ..KeyModifiers::none_spec() }) {
        match key.code {
            KeyCode::BackTab => GlobalCommand::PreviousView,
            KeyCode::Char(c) => if c == 'I' {
                GlobalCommand::ShowView(MenuItem::Issues)
            } else if c == 'P' {
                GlobalCommand::ShowView(MenuItem::PullRequests)
            } else if c == 'R' {
                GlobalCommand::ShowView(MenuItem::Projects)
            } else {
                GlobalCommand::Nothing
            },
            _ => GlobalCommand::Nothing,
        }
    } else if key.modifiers == (KeyModifiers { control: true, ..KeyModifiers::none_spec() }) {
        match key.code {
            KeyCode::Char(c) => if c == 'n' {
                GlobalCommand::OpenRemotePicker
            } else {
                GlobalCommand::Nothing
            },
            _ => GlobalCommand::Nothing,
        }
    } else {
        GlobalCommand::Nothing
    }
}

/// The global command that `key` stands for.
pub fn global_command(key: KeyInput) -> (r: GlobalCommand)
    ensures
        r == global_command_of(key),
{
    if key.modifiers == KeyModifiers::none() {
        match key.code {
            KeyCode::Char(c) => if c == 'q' {
                GlobalCommand::Quit
            } else {
                GlobalCommand::Nothing
            },
            KeyCode::Tab => GlobalCommand::NextView,
            _ => GlobalCommand::Nothing,
        }
    } else if key.modifiers == KeyModifiers::shift_only() {
        match key.code {
            KeyCode::BackTab => GlobalCommand::PreviousView,
            KeyCode::Char(c) => if c == 'I' {
                GlobalCommand::ShowView(MenuItem::Issues)
            } else if c == 'P' {
                GlobalCommand::ShowView(MenuItem::PullRequests)
            } else if c == 'R' {
                GlobalCommand::ShowView(MenuItem::Projects)
            } else {
                GlobalCommand::Nothing
            },
            _ => GlobalCommand::Nothing,
        }
    } else if key.modifiers == KeyModifiers::control_only() {
        match key.code {
            KeyCode::Char(c) => if c == 'n' {
                GlobalCommand::OpenRemotePicker
            } else {
                GlobalCommand::Nothing
            },
            _ => GlobalCommand::Nothing,
        }
    } else {
        GlobalCommand::Nothing
    }
}

/// Routing list data to the view `name`: an open view is handed the data,
/// which it shows when it accepts it, and nothing else changes; else a new
/// view showing the data is put on top (when the stack has room).
pub open spec fn routed_to<P: PanelElement>(
    old: StackView<P>,
    name: Seq<char>,
    data: P::Payload,
    new: StackView<P>,
) -> bool {
    if exists|i: int| 0 <= i < old.len() && old[i].1 == name {
        &&& new.len() == old.len()
        &&& stack_layout(new) == stack_layout(old)
        &&& forall|k: int| 0 <= k < old.len() && old[k].1 != name ==> new[k] == old[k]
        &&& forall|k: int|
            0 <= k < old.len() && old[k].1 == name && old[k].2.accepts_data(data)
                ==> new[k].2.shows(data)
    } else {
        &&& old.len() < 256 ==> exists|p: P| p.shows(data) && new == placed_on_top(old, name, p)
        &&& old.len() >= 256 ==> new == old
    }
}

/// What one delivered result does to the panel stack: list data goes to
/// the view of its kind and item details to the detail view; a list result
/// without a repository and a remote change leave it as it is.
pub open spec fn result_step<P: PanelElement>(
    old: StackView<P>,
    data: RepoData<P::Payload>,
    new: StackView<P>,
) -> bool {
    match data {
        RepoData::Issues(Some(d)) => routed_to(old, ISSUES_VIEW_NAME@, d, new),
        RepoData::PullRequests(Some(d)) => routed_to(old, PULL_REQUESTS_VIEW_NAME@, d, new),
        RepoData::Projects(Some(d)) => routed_to(old, PROJECTS_VIEW_NAME@, d, new),
        RepoData::IssueInspect(d) => routed_to(old, DETAIL_VIEW_NAME@, d, new),
        RepoData::PullRequestInspect(d) => routed_to(old, DETAIL_VIEW_NAME@, d, new),
        RepoData::ProjectInspect(d) => routed_to(old, DETAIL_VIEW_NAME@, d, new),
        _ => new == old,
    }
}

/// The remote named by the last remote change among `results`.
pub open spec fn last_active_remote<D>(results: Seq<RepoData<D>>) -> Option<Seq<char>>
    decreases results.len(),
{
    if results.len() == 0 {
        None
    } else {
        match results.last() {
            RepoData::ActiveRemote(remote) => Some(remote@),
            _ => last_active_remote(results.drop_last()),
        }
    }
}

/// One save of the repository state for each remote change.
pub open spec fn remote_saves<D>(results: Seq<RepoData<D>>) -> Seq<UiCommand>
    decreases results.len(),
{
    if results.len() == 0 {
        Seq::empty()
    } else {
        let rest = remote_saves(results.drop_last());
        match results.last() {
            RepoData::ActiveRemote(_) => rest.push(UiCommand::SaveState),
            _ => rest,
        }
    }
}

/// A fetch for each of the three lists.
pub open spec fn refresh_all() -> Seq<UiCommand> {
    seq![
        UiCommand::Request(RequestType::Issues),
        UiCommand::Request(RequestType::PullRequests),
        UiCommand::Request(RequestType::Projects),
    ]
}

/// The commands of a tick over `results`: a save per remote change, then,
/// when the remote changed, a fetch of all three lists.
pub open spec fn tick_commands<D>(results: Seq<RepoData<D>>) -> Seq<UiCommand> {
    if last_active_remote(results) is Some {
        remote_saves(results) + refresh_all()
    } else {
        remote_saves(results)
    }
}

/// The stack `new` comes from `old` by selecting the list view of `item`,
/// after the panels had a chance to see a key press.
pub open spec fn switched_to<P: PanelElement>(old: StackView<P>, item: MenuItem, new: StackView<P>) -> bool {
    exists|mid: StackView<P>|
        #![trigger select_outcome(mid, view_name(item), new, stack_accepts(mid, view_name(item)))]
        stack_wf(mid) && mid.len() == old.len() && stack_layout(mid) == stack_layout(old)
            && select_outcome(mid, view_name(item), new, stack_accepts(mid, view_name(item)))
}

/// The orchestrator: owns the panel stack, decides what key presses and
/// delivered results do, and tells its surroundings what to fetch and save.
pub struct Ui<P> {
    active_menu_item: MenuItem,
    github_token: Option<String>,
    state: State,
    repo_root: String,
    active_remote: Option<String>,
    ui_stack: UiStack<P>,
    quit: bool,
}

pub open spec fn opt_view(s: Option<String>) -> Option<Seq<char>> {
    match s {
        Some(s) => Some(s@),
        None => None,
    }
}

impl<P: PanelElement> Ui<P> {
    pub closed spec fn wf(&self) -> bool {
        self.ui_stack.wf() && self.state.wf()
    }

    /// The panels, lowest priority first.
    pub closed spec fn panels(&self) -> StackView<P> {
        self.ui_stack@
    }

    pub closed spec fn active_view(&self) -> MenuItem {
        self.active_menu_item
    }

    pub closed spec fn quit_requested(&self) -> bool {
        self.quit
    }

    pub closed spec fn token(&self) -> Option<Seq<char>> {
        opt_view(self.github_token)
    }

    pub closed spec fn remote(&self) -> Option<Seq<char>> {
        opt_view(self.active_remote)
    }

    pub closed spec fn root(&self) -> Seq<char> {
        self.repo_root@
    }

    /// The remote that the repository state records for `root`.
    pub closed spec fn recorded(&self, root: Seq<char>) -> Option<Seq<char>> {
        self.state.remote_for(root)
    }

    /// Sets up the dashboard for the repository at `repo_root`: the three list
    /// views are stacked and the issues view is selected. With a remote
    /// recorded for the repository, all three lists are fetched; without, the
    /// remote picker is asked for.
    pub fn new(
        github_token: Option<String>,
        state: State,
        repo_root: String,
        issues_view: P,
        pull_requests_view: P,
        projects_view: P,
    ) -> (r: (Ui<P>, Vec<UiCommand>))
        requires
            state.wf(),
        ensures
            r.0.wf(),
            r.0.active_view() == MenuItem::Issues,
            !r.0.quit_requested(),
            r.0.token() == opt_view(github_token),
            r.0.root() == repo_root@,
            r.0.remote() == state.remote_for(repo_root@),
            forall|root: Seq<char>| r.0.recorded(root) == state.remote_for(root),
            select_outcome(
                seq![
                    (0u8, PULL_REQUESTS_VIEW_NAME@, pull_requests_view),
                    (1u8, PROJECTS_VIEW_NAME@, projects_view),
                    (2u8, ISSUES_VIEW_NAME@, issues_view),
                ],
                ISSUES_VIEW_NAME@,
                r.0.panels(),
                issues_view.accepts_focus(),
            ),
            r.1@ == if state.remote_for(repo_root@) is Some {
                refresh_all()
            } else {
                seq![UiCommand::OpenRemotePicker]
            },
    {
        let active_remote = state.get_repository_data(repo_root.as_str());
        let mut ui_stack = UiStack::new();
        let ghost iv = issues_view;
        let ghost pv = pull_requests_view;
        let ghost jv = projects_view;
        proof {
            reveal_strlit("issues_view");
            reveal_strlit("pull_requests_view");
            reveal_strlit("projects_view");
            assert(ISSUES_VIEW_NAME@[0] != PULL_REQUESTS_VIEW_NAME@[0]);
            assert(ISSUES_VIEW_NAME@[0] != PROJECTS_VIEW_NAME@[0]);
            assert(PULL_REQUESTS_VIEW_NAME@[1] != PROJECTS_VIEW_NAME@[1]);
        }
        ui_stack.add_panel(issues_view, 2, ISSUES_VIEW_NAME);
        proof {
            assert(ui_stack@.len() == 1);
            assert(ui_stack@.contains(ui_stack@[0]));
        }
        ui_stack.add_panel(pull_requests_view, 0, PULL_REQUESTS_VIEW_NAME);
        proof {
            assert(ui_stack@.len() == 2);
            assert(ui_stack@.contains(ui_stack@[0]));
            assert(ui_stack@.contains(ui_stack@[1]));
        }
        ui_stack.add_panel(projects_view, 1, PROJECTS_VIEW_NAME);
        let ghost initial = seq![
            (0u8, PULL_REQUESTS_VIEW_NAME@, pv),
            (1u8, PROJECTS_VIEW_NAME@, jv),
            (2u8, ISSUES_VIEW_NAME@, iv),
        ];
        proof {
            let s = ui_stack@;
            assert(s.len() == 3);
            assert(s.contains(s[0]) && s.contains(s[1]) && s.contains(s[2]));
            assert(s[0].0 < s[1].0 && s[1].0 < s[2].0);
            assert(s =~= initial);
        }
        let selected = ui_stack.select_panel(ISSUES_VIEW_NAME);
        proof {
            assert(select_outcome(initial, ISSUES_VIEW_NAME@, ui_stack@, selected));
        }
        let ui = Ui {
            active_menu_item: MenuItem::Issues,
            github_token,
            state,
            repo_root,
            active_remote,
            ui_stack,
            quit: false,
        };
        let commands = if ui.active_remote.is_some() {
            ui.request_all()
        } else {
            let c = vec![UiCommand::OpenRemotePicker];
            assert(c@ =~= seq![UiCommand::OpenRemotePicker]);
            c
        };
        proof {
            assert(ui.remote() == state.remote_for(repo_root@));
            assert(initial == seq![
                (0u8, PULL_REQUESTS_VIEW_NAME@, pull_requests_view),
                (1u8, PROJECTS_VIEW_NAME@, projects_view),
                (2u8, ISSUES_VIEW_NAME@, issues_view),
            ]);
            assert(stack_accepts(initial, ISSUES_VIEW_NAME@) == issues_view.accepts_focus()) by {
                if stack_accepts(initial, ISSUES_VIEW_NAME@) {
                    let i = choose|i: int|
                        0 <= i < initial.len() && initial[i].1 == ISSUES_VIEW_NAME@
                            && initial[i].2.accepts_focus();
                    assert(i == 2);
                }
                assert(initial[2].1 == ISSUES_VIEW_NAME@);
            }
            assert(select_outcome(initial, ISSUES_VIEW_NAME@, ui.panels(), selected));
        }
        (ui, commands)
    }

    /// A fetch for each of the three lists.
    fn request_all(&self) -> (r: Vec<UiCommand>)
        ensures
            r@ == refresh_all(),
    {
        let r = vec![
            UiCommand::Request(RequestType::Issues),
            UiCommand::Request(RequestType::PullRequests),
            UiCommand::Request(RequestType::Projects),
        ];
        assert(r@ =~= refresh_all());
        r
    }

    /// What becomes of a fetch of `request_type` in the current state: it
    /// goes out only with a token and an active remote of the expected shape.
    pub fn plan_request(&self, request_type: RequestType) -> (r: RequestPlan)
        ensures
            self.token() is None ==> r is MissingToken,
            self.token() is Some && self.remote() is None ==> r is MissingRemote,
            self.token() is Some && self.remote() is Some ==> match (
                remote_owner(self.remote().unwrap()),
                remote_name(self.remote().unwrap()),
            ) {
                (Some(o), Some(n)) => match r {
                    RequestPlan::Send(spec) => spec.request_type == request_type
                        && spec.variables.repo_owner@ == o && spec.variables.repo_name@ == n
                        && spec.variables.issue_number == 0 && spec.access_token@
                        == self.token().unwrap(),
                    _ => false,
                },
                _ => r is UnrecognisedRemote,
            },
    {
        plan_request(request_type, &self.github_token, &self.active_remote)
    }

    /// Makes `item` the active view, brings its list to the front and asks
    /// for a fresh fetch of it.
    fn select_view(&mut self, item: MenuItem) -> (r: Vec<UiCommand>)
        requires
            old(self).wf(),
        ensures
            final(self).wf(),
            final(self).active_view() == item,
            select_outcome(
                old(self).panels(),
                view_name(item),
                final(self).panels(),
                stack_accepts(old(self).panels(), view_name(item)),
            ),
            r@ == seq![UiCommand::Request(request_of(item))],
            final(self).quit_requested() == old(self).quit_requested(),
            final(self).token() == old(self).token(),
            final(self).remote() == old(self).remote(),
            final(self).root() == old(self).root(),
            forall|root: Seq<char>| final(self).recorded(root) == old(self).recorded(root),
    {
        self.active_menu_item = item;
        let ghost before = self.ui_stack@;
        let selected = self.ui_stack.select_panel(item.view_name());
        proof {
            assert(select_outcome(old(self).panels(), view_name(item), self.panels(), selected));
        }
        let r = vec![UiCommand::Request(item.request_type())];
        assert(r@ =~= seq![UiCommand::Request(request_of(item))]);
        r
    }

    /// Offers a key press to the panels from the top down; when none consumes
    /// it, it is taken as a global command. The flag tells whether a panel
    /// consumed it.
    pub fn handle_input(&mut self, key_event: KeyInput) -> (r: (bool, Vec<UiCommand>))
        requires
            old(self).wf(),
        ensures
            final(self).wf(),
            final(self).token() == old(self).token(),
            final(self).remote() == old(self).remote(),
            final(self).root() == old(self).root(),
            forall|root: Seq<char>| final(self).recorded(root) == old(self).recorded(root),
            r.0 == stack_takes_key(old(self).panels(), key_event),
            r.0 ==> forall|k: int|
                0 <= k < old(self).panels().len() && (exists|j: int|
                    k < j < old(self).panels().len() && old(self).panels()[j].2.takes_key(
                        key_event,
                    )) ==> final(self).panels()[k] == old(self).panels()[k],
            r.0 ==> r.1@ == Seq::<UiCommand>::empty() && final(self).active_view()
                == old(self).active_view() && final(self).quit_requested()
                == old(self).quit_requested() && stack_layout(final(self).panels())
                == stack_layout(old(self).panels()),
            !r.0 ==> match global_command_of(key_event) {
                GlobalCommand::Quit => final(self).quit_requested() && r.1@ == Seq::<
                    UiCommand,
                >::empty() && final(self).active_view() == old(self).active_view()
                    && stack_layout(final(self).panels()) == stack_layout(old(self).panels()),
                GlobalCommand::NextView => {
                    let item = next_menu_item(old(self).active_view());
                    &&& final(self).active_view() == item
                    &&& r.1@ == seq![UiCommand::Request(request_of(item))]
                    &&& final(self).quit_requested() == old(self).quit_requested()
                    &&& switched_to(old(self).panels(), item, final(self).panels())
                },
                GlobalCommand::PreviousView => {
                    let item = previous_menu_item(old(self).active_view());
                    &&& final(self).active_view() == item
                    &&& r.1@ == seq![UiCommand::Request(request_of(item))]
                    &&& final(self).quit_requested() == old(self).quit_requested()
                    &&& switched_to(old(self).panels(), item, final(self).panels())
                },
                GlobalCommand::ShowView(item) => {
                    &&& final(self).active_view() == item
                    &&& r.1@ == seq![UiCommand::Request(request_of(item))]
                    &&& final(self).quit_requested() == old(self).quit_requested()
                    &&& switched_to(old(self).panels(), item, final(self).panels())
                },
                GlobalCommand::OpenRemotePicker => r.1@ == seq![UiCommand::OpenRemotePicker]
                    && final(self).active_view() == old(self).active_view()
                    && final(self).quit_requested() == old(self).quit_requested()
                    && stack_layout(final(self).panels()) == stack_layout(old(self).panels()),
                GlobalCommand::Nothing => r.1@ == Seq::<UiCommand>::empty()
                    && final(self).active_view() == old(self).active_view()
                    && final(self).quit_requested() == old(self).quit_requested()
                    && stack_layout(final(self).panels()) == stack_layout(old(self).panels()),
            },
    {
        let ghost before = self.ui_stack@;
        if self.ui_stack.dispatch_input(key_event) {
            return (true, Vec::new());
        }
        let ghost mid = self.ui_stack@;
        match global_command(key_event) {
            GlobalCommand::Quit => {
                self.quit = true;
                (false, Vec::new())
            },
            GlobalCommand::NextView => {
                let item = self.active_menu_item.next();
                let r = self.select_view(item);
                proof {
                    assert(select_outcome(
                        mid,
                        view_name(item),
                        self.ui_stack@,
                        stack_accepts(mid, view_name(item)),
                    ));
                }
                (false, r)
            },
            GlobalCommand::PreviousView => {
                let item = self.active_menu_item.previous();
                let r = self.select_view(item);
                proof {
                    assert(select_outcome(
                        mid,
                        view_name(item),
                        self.ui_stack@,
                        stack_accepts(mid, view_name(item)),
                    ));
                }
                (false, r)
            },
            GlobalCommand::ShowView(item) => {
                let r = self.select_view(item);
                proof {
                    assert(select_outcome(
                        mid,
                        view_name(item),
                        self.ui_stack@,
                        stack_accepts(mid, view_name(item)),
                    ));
                }
                (false, r)
            },
            GlobalCommand::OpenRemotePicker => {
                let r = vec![UiCommand::OpenRemotePicker];
                assert(r@ =~= seq![UiCommand::OpenRemotePicker]);
                (false, r)
            },
            GlobalCommand::Nothing => (false, Vec::new()),
        }
    }

    /// Puts the remote picker on top of the stack.
    pub fn add_remote_picker(&mut self, picker: P) -> (r: bool)
        requires
            old(self).wf(),
        ensures
            final(self).wf(),
            r == (drop_named(old(self).panels(), REMOTE_EXPLORER_NAME@).len() < 256),
            r ==> final(self).panels() == placed_on_top(
                old(self).panels(),
                REMOTE_EXPLORER_NAME@,
                picker,
            ),
            !r ==> final(self).panels() == old(self).panels(),
            final(self).active_view() == old(self).active_view(),
            final(self).quit_requested() == old(self).quit_requested(),
            final(self).token() == old(self).token(),
            final(self).remote() == old(self).remote(),
            final(self).root() == old(self).root(),
            forall|root: Seq<char>| final(self).recorded(root) == old(self).recorded(root),
    {
        self.ui_stack.add_panel_on_top(picker, REMOTE_EXPLORER_NAME)
    }

    /// Hands list data to the view that `request_type` fills, creating the
    /// view on top when it is not open.
    fn route_list(&mut self, request_type: RequestType, data: P::Payload)
        requires
            old(self).wf(),
        ensures
            final(self).wf(),
            routed_to(old(self).panels(), request_view_name(request_type), data, final(self).panels()),
            final(self).active_view() == old(self).active_view(),
            final(self).quit_requested() == old(self).quit_requested(),
            final(self).token() == old(self).token(),
            final(self).remote() == old(self).remote(),
            final(self).root() == old(self).root(),
            forall|root: Seq<char>| final(self).recorded(root) == old(self).recorded(root),
    {
        let name = request_type.view_name();
        if self.ui_stack.position_of_name(name).is_some() {
            let _ = self.ui_stack.update_panel_by_name(name, data);
        } else {
            let ghost s = self.ui_stack@;
            let panel = P::create_list_view(request_type, data);
            let ghost p = panel;
            let _ = self.ui_stack.add_panel_on_top(panel, name);
            proof {
                assert(drop_named(s, name@) == s);
                if s.len() < 256 {
                    assert(p.shows(data) && self.ui_stack@ == placed_on_top(s, name@, p));
                }
            }
        }
    }

    /// Hands item details to the detail view, creating it on top when it is
    /// not open.
    fn route_detail(&mut self, data: P::Payload)
        requires
            old(self).wf(),
        ensures
            final(self).wf(),
            routed_to(old(self).panels(), DETAIL_VIEW_NAME@, data, final(self).panels()),
            final(self).active_view() == old(self).active_view(),
            final(self).quit_requested() == old(self).quit_requested(),
            final(self).token() == old(self).token(),
            final(self).remote() == old(self).remote(),
            final(self).root() == old(self).root(),
            forall|root: Seq<char>| final(self).recorded(root) == old(self).recorded(root),
    {
        if self.ui_stack.position_of_name(DETAIL_VIEW_NAME).is_some() {
            let _ = self.ui_stack.update_panel_by_name(DETAIL_VIEW_NAME, data);
        } else {
            let ghost s = self.ui_stack@;
            let panel = P::create_detail_view(data);
            let ghost p = panel;
            let _ = self.ui_stack.add_panel_on_top(panel, DETAIL_VIEW_NAME);
            proof {
                assert(drop_named(s, DETAIL_VIEW_NAME@) == s);
                if s.len() < 256 {
                    assert(p.shows(data) && self.ui_stack@ == placed_on_top(s, DETAIL_VIEW_NAME@, p));
                }
            }
        }
    }

    /// Takes in the results delivered since the last tick, in order: list
    /// data goes to its view, item details to the detail view, a remote change is recorded and saved and, at
    /// the end, sets off a fetch of all three lists. Then every panel that
    /// asks to quit is removed.
    pub fn tick(&mut self, results: Vec<RepoData<P::Payload>>) -> (r: Vec<UiCommand>)
        requires
            old(self).wf(),
        ensures
            final(self).wf(),
            r@ == tick_commands(results@),
            match last_active_remote(results@) {
                Some(remote) => final(self).remote() == Some(remote) && final(self).recorded(
                    old(self).root(),
                ) == Some(remote),
                None => final(self).remote() == old(self).remote() && final(self).recorded(
                    old(self).root(),
                ) == old(self).recorded(old(self).root()),
            },
            forall|root: Seq<char>|
                root != old(self).root() ==> final(self).recorded(root) == old(self).recorded(root),
            final(self).active_view() == old(self).active_view(),
            final(self).quit_requested() == old(self).quit_requested(),
            final(self).token() == old(self).token(),
            final(self).root() == old(self).root(),
            exists|chain: Seq<StackView<P>>|
                #![trigger chain.len()]
                chain.len() == results@.len() + 1 && chain[0] == old(self).panels() && (forall|
                    j: int,
                | 0 <= j < chain.len() ==> stack_wf(#[trigger] chain[j])) && (forall|
                    j: int,
                | 0 <= j < results@.len() ==> #[trigger] result_step(
                    chain[j],
                    results@[j],
                    chain[j + 1],
                )) && final(self).panels() == not_quitting(chain.last()) && (forall|k: int, j: int|
                    0 <= k < chain.last().len() && chain.last()[k].2.quitting() && 0 <= j
                        < final(self).panels().len() ==> final(self).panels()[j].1
                        != chain.last()[k].1),
            forall|j: int|
                0 <= j < final(self).panels().len() ==> !(#[trigger] final(self).panels()[j]).2.quitting(),
    {
        let ghost orig = results@;
        let mut results = results;
        let mut commands: Vec<UiCommand> = Vec::new();
        let mut refresh = false;
        let ghost mut chain: Seq<StackView<P>> = seq![self.ui_stack@];
        let ghost mut done: int = 0;
        while results.len() > 0
            invariant
                0 <= done <= orig.len(),
                results@ == orig.subrange(done, orig.len() as int),
                self.wf(),
                chain.len() == done + 1,
                chain[0] == old(self).panels(),
                forall|j: int| 0 <= j < chain.len() ==> stack_wf(#[trigger] chain[j]),
                forall|j: int|
                    0 <= j < done ==> #[trigger] result_step(chain[j], orig[j], chain[j + 1]),
                chain.last() == self.ui_stack@,
                commands@ == remote_saves(orig.subrange(0, done)),
                refresh == (last_active_remote(orig.subrange(0, done)) is Some),
                match last_active_remote(orig.subrange(0, done)) {
                    Some(remote) => self.remote() == Some(remote) && self.recorded(
                        old(self).root(),
                    ) == Some(remote),
                    None => self.remote() == old(self).remote() && self.recorded(old(self).root())
                        == old(self).recorded(old(self).root()),
                },
                forall|root: Seq<char>|
                    root != old(self).root() ==> self.recorded(root) == old(self).recorded(root),
                self.active_view() == old(self).active_view(),
                self.quit_requested() == old(self).quit_requested(),
                self.token() == old(self).token(),
                self.root() == old(self).root(),
            decreases results@.len(),
        {
            let ghost item = orig[done];
            proof {
                assert(results@[0] == item);
            }
            let data = results.remove(0);
            let ghost before = self.ui_stack@;
            match data {
                RepoData::Issues(Some(d)) => self.route_list(RequestType::Issues, d),
                RepoData::PullRequests(Some(d)) => self.route_list(RequestType::PullRequests, d),
                RepoData::Projects(Some(d)) => self.route_list(RequestType::Projects, d),
                RepoData::IssueInspect(d) => self.route_detail(d),
                RepoData::PullRequestInspect(d) => self.route_detail(d),
                RepoData::ProjectInspect(d) => self.route_detail(d),
                RepoData::ActiveRemote(remote) => {
                    self.state.set_repository_data(self.repo_root.clone(), remote.clone());
                    self.active_remote = Some(remote);
                    commands.push(UiCommand::SaveState);
                    refresh = true;
                },
                _ => {},
            }
            proof {
                let prefix = orig.subrange(0, done + 1);
                assert(prefix.drop_last() =~= orig.subrange(0, done));
                assert(prefix.last() == item);
                assert(result_step(before, item, self.ui_stack@));
                chain = chain.push(self.ui_stack@);
                done = done + 1;
                assert(results@ =~= orig.subrange(done, orig.len() as int));
            }
        }
        if refresh {
            commands.push(UiCommand::Request(RequestType::Issues));
            commands.push(UiCommand::Request(RequestType::PullRequests));
            commands.push(UiCommand::Request(RequestType::Projects));
        }
        proof {
            assert(orig.subrange(0, done) =~= orig);
            assert(commands@ =~= tick_commands(orig));
        }
        let ghost last = self.ui_stack@;
        let _ = self.ui_stack.remove_quitting_panels();
        proof {
            lemma_reaped_stack(last);
        }
        commands
    }

    /// `true` once the user asked to quit.
    pub fn wants_to_quit(&self) -> (r: bool)
        ensures
            r == self.quit_requested(),
    {
        self.quit
    }

    /// The active view.
    pub fn active_menu_item(&self) -> (r: MenuItem)
        ensures
            r == self.active_view(),
    {
        self.active_menu_item
    }

    /// The repository state, for saving.
    pub fn state(&self) -> (r: &State)
        ensures
            forall|root: Seq<char>| r.remote_for(root) == self.recorded(root),
            self.wf() ==> r.wf(),
    {
        &self.state
    }

    /// The root of the repository on display.
    pub fn repo_root(&self) -> (r: &String)
        ensures
            r@ == self.root(),
    {
        &self.repo_root
    }

    /// The number of panels.
    pub fn panel_count(&self) -> (r: usize)
        ensures
            r == self.panels().len(),
    {
        self.ui_stack.len()
    }

    /// The name of panel `i`, lowest priority first.
    pub fn panel_name_at(&self, i: usize) -> (r: &String)
        requires
            i < self.panels().len(),
        ensures
            r@ == self.panels()[i as int].1,
    {
        self.ui_stack.name_at(i)
    }

    /// Mutable access to panel `i`, for drawing; the layout stays as it is.
    pub fn panel_mut_at(&mut self, i: usize) -> (r: &mut P)
        requires
            i < old(self).panels().len(),
        ensures
            *r == old(self).panels()[i as int].2,
            final(self).panels() == old(self).panels().update(
                i as int,
                (old(self).panels()[i as int].0, old(self).panels()[i as int].1, *final(r)),
            ),
            final(self).active_view() == old(self).active_view(),
            final(self).quit_requested() == old(self).quit_requested(),
            final(self).token() == old(self).token(),
            final(self).remote() == old(self).remote(),
            final(self).root() == old(self).root(),
            forall|root: Seq<char>| final(self).recorded(root) == old(self).recorded(root),
            old(self).wf() ==> final(self).wf(),
    {
        self.ui_stack.panel_mut_at(i)
    }
}

proof fn lemma_no_remote_suffix<D>(p: Seq<RepoData<D>>, after: Seq<RepoData<D>>)
    requires
        forall|i: int| 0 <= i < after.len() ==> !(after[i] is ActiveRemote),
    ensures
        remote_saves(p + after) == remote_saves(p),
        last_active_remote(p + after) == last_active_remote(p),
    decreases after.len(),
{
    if after.len() == 0 {
        assert(p + after =~= p);
    } else {
        let shorter = after.drop_last();
        lemma_no_remote_suffix(p, shorter);
        assert((p + after).drop_last() =~= p + shorter);
        assert((p + after).last() == after.last());
        assert(!(after[after.len() - 1] is ActiveRemote));
    }
}

/// A remote change delivered in a tick, among results that carry no other
/// remote change, makes the tick save the repository state exactly once and
/// then fetch all three lists, and the tick records that remote.
pub proof fn lemma_remote_change_cascades<D>(
    before: Seq<RepoData<D>>,
    remote: String,
    after: Seq<RepoData<D>>,
)
    requires
        forall|i: int| 0 <= i < before.len() ==> !(before[i] is ActiveRemote),
        forall|i: int| 0 <= i < after.len() ==> !(after[i] is ActiveRemote),
    ensures
        tick_commands(before + seq![RepoData::ActiveRemote(remote)] + after) == seq![
            UiCommand::SaveState,
        ] + refresh_all(),
        last_active_remote(before + seq![RepoData::ActiveRemote(remote)] + after) == Some(remote@),
{
    let p = before + seq![RepoData::ActiveRemote(remote)];
    lemma_no_remote_suffix(Seq::<RepoData<D>>::empty(), before);
    assert(Seq::<RepoData<D>>::empty() + before =~= before);
    assert(remote_saves(Seq::<RepoData<D>>::empty()) == Seq::<UiCommand>::empty());
    assert(p.drop_last() =~= before);
    assert(p.last() == RepoData::<D>::ActiveRemote(remote));
    assert(remote_saves(p) =~= seq![UiCommand::SaveState]);
    lemma_no_remote_suffix(p, after);
}

} // verus!
