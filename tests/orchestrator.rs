use lazyissues::menu::{MenuItem, RequestType, REMOTE_EXPLORER_NAME};
use lazyissues::panel::{KeyCode, KeyInput, KeyModifiers, PanelElement};
use lazyissues::requests::RequestPlan;
use lazyissues::state::State;
use lazyissues::ui::{global_command, GlobalCommand, RepoData, Ui, UiCommand};

#[derive(Debug, Clone, PartialEq)]
struct Pane {
    data: u32,
    quit: bool,
    consumes: bool,
    updates: u32,
    focused: bool,
}

impl Pane {
    fn new(data: u32) -> Self {
        Pane { data, quit: false, consumes: false, updates: 0, focused: false }
    }
}

impl PanelElement for Pane {
    type Payload = u32;

    fn takes_key(&self, _key_event: KeyInput) -> bool {
        self.consumes
    }

    fn accepts_data(&self, _data: u32) -> bool {
        true
    }

    fn shows(&self, data: u32) -> bool {
        self.data == data
    }

    fn accepts_focus(&self) -> bool {
        true
    }

    fn in_focus(&self) -> bool {
        self.focused
    }

    fn handle_input(&mut self, _key_event: KeyInput) -> bool {
        self.consumes
    }

    fn tick(&mut self) {}

    fn update(&mut self, data: u32) -> bool {
        self.data = data;
        self.updates += 1;
        true
    }

    fn quitting(&self) -> bool {
        self.quit
    }

    fn wants_to_quit(&self) -> bool {
        self.quit
    }

    fn set_focus(&mut self, state: bool) -> bool {
        self.focused = state;
        true
    }

    fn create_list_view(_request_type: RequestType, data: u32) -> Self {
        Pane::new(data)
    }

    fn create_detail_view(data: u32) -> Self {
        Pane::new(data)
    }
}

fn names(ui: &Ui<Pane>) -> Vec<String> {
    (0..ui.panel_count()).map(|i| ui.panel_name_at(i).clone()).collect()
}

fn plain(c: char) -> KeyInput {
    KeyInput { code: KeyCode::Char(c), modifiers: KeyModifiers::none() }
}

fn shifted(code: KeyCode) -> KeyInput {
    KeyInput { code, modifiers: KeyModifiers::shift_only() }
}

fn state_with(root: &str, remote: &str) -> State {
    let mut state = State::new();
    state.set_repository_data(root.to_string(), remote.to_string());
    state
}

fn new_ui(token: Option<&str>, state: State) -> (Ui<Pane>, Vec<UiCommand>) {
    Ui::new(token.map(|t| t.to_string()), state, "/repo".to_string(), Pane::new(1), Pane::new(2), Pane::new(3))
}

#[test]
fn start_with_known_remote_fetches_all_lists() {
    let (mut ui, commands) = new_ui(Some("tok"), state_with("/repo", "git@github.com:owner/name.git"));
    assert_eq!(
        commands,
        vec![
            UiCommand::Request(RequestType::Issues),
            UiCommand::Request(RequestType::PullRequests),
            UiCommand::Request(RequestType::Projects),
        ]
    );
    assert_eq!(ui.active_menu_item(), MenuItem::Issues);
    assert_eq!(names(&ui), vec!["pull_requests_view", "projects_view", "issues_view"]);
    assert!(ui.panel_mut_at(2).focused);
    assert!(!ui.wants_to_quit());
}

#[test]
fn start_without_remote_asks_for_the_picker() {
    let (mut ui, commands) = new_ui(Some("tok"), State::new());
    assert_eq!(commands, vec![UiCommand::OpenRemotePicker]);
    assert!(ui.add_remote_picker(Pane::new(9)));
    assert_eq!(names(&ui).last().unwrap(), REMOTE_EXPLORER_NAME);
    assert_eq!(ui.panel_count(), 4);
}

#[test]
fn request_without_token_is_not_sent() {
    let (ui, _) = new_ui(None, state_with("/repo", "git@github.com:owner/name.git"));
    assert!(matches!(ui.plan_request(RequestType::Issues), RequestPlan::MissingToken));
}

#[test]
fn request_without_remote_is_not_sent() {
    let (ui, _) = new_ui(Some("tok"), State::new());
    assert!(matches!(ui.plan_request(RequestType::Projects), RequestPlan::MissingRemote));
}

#[test]
fn request_with_token_and_remote_is_sent() {
    let (ui, _) = new_ui(Some("tok"), state_with("/repo", "git@github.com:someone/project.git"));
    match ui.plan_request(RequestType::PullRequests) {
        RequestPlan::Send(spec) => {
            assert_eq!(spec.request_type, RequestType::PullRequests);
            assert_eq!(spec.variables.repo_owner, "someone");
            assert_eq!(spec.variables.repo_name, "project");
            assert_eq!(spec.access_token, "tok");
        }
        _ => panic!("expected a request to go out"),
    }
}

#[test]
fn request_with_odd_remote_is_not_sent() {
    let (ui, _) = new_ui(Some("tok"), state_with("/repo", "not a remote"));
    assert!(matches!(ui.plan_request(RequestType::Issues), RequestPlan::UnrecognisedRemote));
}

#[test]
fn remote_change_saves_once_and_fetches_all_three() {
    let (mut ui, _) = new_ui(Some("tok"), State::new());
    let commands = ui.tick(vec![RepoData::ActiveRemote("git@github.com:a/b.git".to_string())]);
    assert_eq!(
        commands,
        vec![
            UiCommand::SaveState,
            UiCommand::Request(RequestType::Issues),
            UiCommand::Request(RequestType::PullRequests),
            UiCommand::Request(RequestType::Projects),
        ]
    );
    assert_eq!(ui.state().get_repository_data("/repo"), Some("git@github.com:a/b.git".to_string()));
    assert!(matches!(ui.plan_request(RequestType::Issues), RequestPlan::Send(_)));
}

#[test]
fn tick_without_results_does_nothing() {
    let (mut ui, _) = new_ui(Some("tok"), State::new());
    let before = names(&ui);
    assert!(ui.tick(vec![]).is_empty());
    assert_eq!(names(&ui), before);
}

#[test]
fn list_data_updates_the_open_view() {
    let (mut ui, _) = new_ui(Some("tok"), State::new());
    let commands = ui.tick(vec![RepoData::Issues(Some(77)), RepoData::Projects(None)]);
    assert!(commands.is_empty());
    let i = names(&ui).iter().position(|n| n == "issues_view").unwrap();
    assert_eq!(ui.panel_mut_at(i).data, 77);
    assert_eq!(ui.panel_mut_at(i).updates, 1);
}

#[test]
fn list_data_for_a_closed_view_opens_it_on_top() {
    let (mut ui, _) = new_ui(Some("tok"), State::new());
    let i = names(&ui).iter().position(|n| n == "projects_view").unwrap();
    ui.panel_mut_at(i).quit = true;
    ui.tick(vec![]);
    assert!(!names(&ui).contains(&"projects_view".to_string()));
    ui.tick(vec![RepoData::Projects(Some(5))]);
    assert_eq!(names(&ui).last().unwrap(), "projects_view");
    let top = ui.panel_count() - 1;
    assert_eq!(ui.panel_mut_at(top).data, 5);
}

#[test]
fn quitting_picker_is_reaped_on_tick() {
    let (mut ui, _) = new_ui(Some("tok"), State::new());
    let mut picker = Pane::new(9);
    picker.quit = true;
    ui.add_remote_picker(picker);
    assert_eq!(ui.panel_count(), 4);
    ui.tick(vec![]);
    assert_eq!(ui.panel_count(), 3);
    assert!(!names(&ui).contains(&REMOTE_EXPLORER_NAME.to_string()));
    assert!(ui.add_remote_picker(Pane::new(10)));
    assert_eq!(names(&ui).last().unwrap(), REMOTE_EXPLORER_NAME);
}

#[test]
fn q_quits() {
    let (mut ui, _) = new_ui(Some("tok"), State::new());
    let (handled, commands) = ui.handle_input(plain('q'));
    assert!(!handled);
    assert!(commands.is_empty());
    assert!(ui.wants_to_quit());
}

#[test]
fn tab_goes_to_next_view_and_fetches_it() {
    let (mut ui, _) = new_ui(Some("tok"), State::new());
    let (_, commands) = ui.handle_input(KeyInput { code: KeyCode::Tab, modifiers: KeyModifiers::none() });
    assert_eq!(ui.active_menu_item(), MenuItem::PullRequests);
    assert_eq!(commands, vec![UiCommand::Request(RequestType::PullRequests)]);
    assert_eq!(names(&ui).last().unwrap(), "pull_requests_view");
    let (_, commands) = ui.handle_input(shifted(KeyCode::BackTab));
    assert_eq!(ui.active_menu_item(), MenuItem::Issues);
    assert_eq!(commands, vec![UiCommand::Request(RequestType::Issues)]);
}

#[test]
fn shift_letters_pick_views() {
    let (mut ui, _) = new_ui(Some("tok"), State::new());
    ui.handle_input(shifted(KeyCode::Char('R')));
    assert_eq!(ui.active_menu_item(), MenuItem::Projects);
    assert_eq!(names(&ui).last().unwrap(), "projects_view");
    ui.handle_input(shifted(KeyCode::Char('P')));
    assert_eq!(ui.active_menu_item(), MenuItem::PullRequests);
    ui.handle_input(shifted(KeyCode::Char('I')));
    assert_eq!(ui.active_menu_item(), MenuItem::Issues);
}

#[test]
fn control_n_asks_for_the_picker() {
    let (mut ui, _) = new_ui(Some("tok"), State::new());
    let (_, commands) = ui.handle_input(KeyInput { code: KeyCode::Char('n'), modifiers: KeyModifiers::control_only() });
    assert_eq!(commands, vec![UiCommand::OpenRemotePicker]);
}

#[test]
fn consumed_key_fires_no_global_command() {
    let (mut ui, _) = new_ui(Some("tok"), State::new());
    let mut picker = Pane::new(9);
    picker.consumes = true;
    ui.add_remote_picker(picker);
    let (handled, commands) = ui.handle_input(plain('q'));
    assert!(handled);
    assert!(commands.is_empty());
    assert!(!ui.wants_to_quit());
}

#[test]
fn global_commands_by_key() {
    assert_eq!(global_command(plain('q')), GlobalCommand::Quit);
    assert_eq!(global_command(plain('x')), GlobalCommand::Nothing);
    assert_eq!(global_command(shifted(KeyCode::Char('q'))), GlobalCommand::Nothing);
    assert_eq!(global_command(shifted(KeyCode::BackTab)), GlobalCommand::PreviousView);
    assert_eq!(global_command(shifted(KeyCode::Char('I'))), GlobalCommand::ShowView(MenuItem::Issues));
}

#[test]
fn item_details_open_the_detail_view_on_top() {
    let (mut ui, _) = new_ui(Some("tok"), State::new());
    let commands = ui.tick(vec![RepoData::IssueInspect(41)]);
    assert!(commands.is_empty());
    assert_eq!(names(&ui).last().unwrap(), "detail_view");
    let top = ui.panel_count() - 1;
    assert_eq!(ui.panel_mut_at(top).data, 41);
    ui.tick(vec![RepoData::PullRequestInspect(42)]);
    assert_eq!(ui.panel_count(), 4);
    assert_eq!(ui.panel_mut_at(top).data, 42);
    assert_eq!(ui.panel_mut_at(top).updates, 1);
}

#[test]
fn new_view_goes_one_above_the_highest() {
    let (mut ui, _) = new_ui(Some("tok"), State::new());
    let i = names(&ui).iter().position(|n| n == "pull_requests_view").unwrap();
    ui.panel_mut_at(i).quit = true;
    ui.tick(vec![]);
    ui.tick(vec![RepoData::PullRequests(Some(3))]);
    assert_eq!(names(&ui), vec!["projects_view", "issues_view", "pull_requests_view"]);
}
