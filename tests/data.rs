use lazyissues::issues_view::{IssuesView, ListCollection, ListItem};
use lazyissues::list_view::{create_issues_view, create_projects_view, create_pull_requests_view, ListView};
use lazyissues::menu::{MenuItem, RequestType};
use lazyissues::panel::{KeyCode, KeyInput, KeyModifiers, PanelElement};
use lazyissues::requests::{plan_with_variables, DateTime, RequestPlan, User, VariableStore};
use lazyissues::state::State;
use lazyissues::text::str_equal;

struct Item(i64);

impl ListItem for Item {
    fn get_title(&self) -> String {
        format!("item {}", self.0)
    }
    fn get_number(&self) -> i64 {
        self.0
    }
    fn is_closed(&self) -> bool {
        false
    }
    fn get_author_login(&self) -> Option<String> {
        None
    }
    fn get_created_at(&self) -> String {
        String::new()
    }
    fn get_labels(&self) -> Vec<String> {
        vec![]
    }
}

struct Items(usize);

impl ListCollection for Items {
    type Item = Item;
    fn item_count(&self) -> usize {
        self.0
    }
    fn get_items(&self) -> Vec<Item> {
        (0..self.0).map(|i| Item(i as i64)).collect()
    }
}

#[test]
fn state_remembers_the_last_remote() {
    let mut state = State::new();
    assert_eq!(state.get_repository_data("/a"), None);
    state.set_repository_data("/a".to_string(), "r1".to_string());
    state.set_repository_data("/b".to_string(), "r2".to_string());
    state.set_repository_data("/a".to_string(), "r3".to_string());
    assert_eq!(state.get_repository_data("/a"), Some("r3".to_string()));
    assert_eq!(state.get_repository_data("/b"), Some("r2".to_string()));
    assert_eq!(state.records().len(), 2);
}

#[test]
fn state_from_records() {
    let records = vec![
        ("repo".to_string(), vec!["/a".to_string(), "r1".to_string()]),
        ("repo".to_string(), vec!["/b".to_string()]),
        ("other".to_string(), vec!["/c".to_string(), "r9".to_string()]),
        ("repo".to_string(), vec!["/a".to_string(), "r2".to_string(), "extra".to_string()]),
    ];
    let state = State::from_repo_records(&records);
    assert_eq!(state.get_repository_data("/a"), Some("r2".to_string()));
    assert_eq!(state.get_repository_data("/b"), None);
    assert_eq!(state.get_repository_data("/c"), None);
}

#[test]
fn menu_rotation_and_names() {
    assert_eq!(MenuItem::Issues.next(), MenuItem::PullRequests);
    assert_eq!(MenuItem::Projects.next(), MenuItem::Issues);
    assert_eq!(MenuItem::Issues.previous(), MenuItem::Projects);
    assert_eq!(MenuItem::PullRequests.title(), "Pull requests");
    assert_eq!(MenuItem::Projects.to_index(), 2);
    assert_eq!(MenuItem::to_main_menu_points_str(), ["Issues", "Pull requests", "Projects"]);
    assert_eq!(MenuItem::to_main_menu_points(), [MenuItem::Issues, MenuItem::PullRequests, MenuItem::Projects]);
    assert_eq!(RequestType::iter(), vec![RequestType::Issues, RequestType::PullRequests, RequestType::Projects]);
    assert_eq!(RequestType::Projects.to_str(), "ProjectsRequest");
    assert_eq!(RequestType::Issues.view_name(), "issues_view");
    assert_eq!(MenuItem::PullRequests.view_name(), "pull_requests_view");
}

#[test]
fn variables_from_remote() {
    let v = VariableStore::default_with_repo_info("git@github.com:octo/cat.git").expect("shape");
    assert_eq!((v.repo_owner.as_str(), v.repo_name.as_str(), v.issue_number), ("octo", "cat", 0));
    assert!(VariableStore::default_with_repo_info("https://example.com/x").is_none());
    let v = VariableStore::default().repo_name("n".to_string()).repo_owner("o".to_string()).issue_number(12);
    assert_eq!((v.repo_owner.as_str(), v.repo_name.as_str(), v.issue_number), ("o", "n", 12));
    assert!(VariableStore::from_captures(Some("o".to_string()), None).is_none());
}

#[test]
fn plan_with_missing_variables() {
    let token = "t".to_string();
    assert!(matches!(plan_with_variables(RequestType::Issues, &token, None), RequestPlan::UnrecognisedRemote));
    let plan = plan_with_variables(RequestType::Issues, &token, Some(VariableStore::default()));
    assert!(matches!(plan, RequestPlan::Send(_)));
}

#[test]
fn list_selection_wraps() {
    let mut view = IssuesView::new(0, Items(3));
    assert_eq!(view.selected_item(), 0);
    view.select_previous_item();
    assert_eq!(view.selected_item(), 2);
    view.select_next_item();
    assert_eq!(view.selected_item(), 0);
    view.select_next_item();
    view.select_next_item();
    assert_eq!(view.selected_item(), 2);
    assert!(view.update(Items(1)));
    assert_eq!(view.selected_item(), 0);
    assert_eq!(view.item_amount(), 1);
}

#[test]
fn empty_list_selection_stays_put() {
    let mut view = IssuesView::new(1, Items(0));
    view.select_previous_item();
    assert_eq!(view.selected_item(), 0);
    view.select_next_item();
    assert_eq!(view.selected_item(), 0);
}

#[test]
fn list_view_keys_and_focus() {
    let mut view = IssuesView::new(0, Items(2));
    let consumed = view.handle_input(KeyInput { code: KeyCode::Tab, modifiers: KeyModifiers::none() });
    assert!(!consumed);
    assert_eq!(view.selected_item(), 1);
    view.handle_input(KeyInput { code: KeyCode::BackTab, modifiers: KeyModifiers::shift_only() });
    assert_eq!(view.selected_item(), 0);
    assert!(view.set_focus(true));
    assert!(view.has_focus());
    assert!(!view.wants_to_quit());
    let created = IssuesView::create_list_view(RequestType::Projects, Items(4));
    assert_eq!(created.layout_position(), 2);
    assert_eq!(created.item_amount(), 4);
}

#[test]
fn string_equality() {
    assert!(str_equal("abc", "abc"));
    assert!(!str_equal("abc", "abd"));
    assert!(!str_equal("ab", "abc"));
}

#[test]
fn timestamps_in_the_configured_format() {
    let time = DateTime("2024-03-05T14:07:00Z".to_string());
    assert_eq!(time.to_str("%H:%M %d.%m.%Y"), "14:07 05.03.2024");
    assert_eq!(time.to_str("%Y"), "2024");
    let shifted = DateTime("2024-03-05T23:30:00-02:00".to_string());
    assert_eq!(shifted.to_str("%d %H:%M"), "06 01:30");
}

#[test]
fn unreadable_timestamps_stay_as_they_came() {
    let odd = DateTime("yesterday".to_string());
    assert_eq!(odd.to_str("%Y"), "yesterday");
    let time = DateTime("2024-03-05T14:07:00Z".to_string());
    assert_eq!(time.to_str("%Q"), "2024-03-05T14:07:00Z");
    let user = User("octocat".to_string());
    assert_eq!(user.0, "octocat");
}

#[test]
fn list_view_moves_with_j_and_k() {
    let mut view = create_issues_view(Items(3));
    let j = KeyInput { code: KeyCode::Char('j'), modifiers: KeyModifiers::none() };
    let k = KeyInput { code: KeyCode::Char('k'), modifiers: KeyModifiers::none() };
    assert!(!view.take_selection_change());
    assert!(view.handle_input(k));
    assert_eq!(view.selected_item(), 2);
    assert!(view.handle_input(j));
    assert_eq!(view.selected_item(), 0);
    assert!(view.take_selection_change());
    assert!(!view.take_selection_change());
    assert!(!view.handle_input(KeyInput { code: KeyCode::Char('j'), modifiers: KeyModifiers::control_only() }));
}

#[test]
fn list_view_update_keeps_selection_in_range() {
    let mut view: ListView<Items> = create_pull_requests_view(Items(5));
    view.select_previous_item();
    assert_eq!(view.selected_item(), 4);
    assert!(view.update(Items(2)));
    assert_eq!(view.selected_item(), 1);
    assert!(view.update(Items(0)));
    assert_eq!(view.selected_item(), 0);
    let other = create_projects_view(Items(1));
    assert_eq!(other.item_amount(), 1);
    assert!(!other.has_focus());
}

#[test]
fn list_view_asks_for_details_of_a_new_selection() {
    let mut view = create_issues_view(Items(3));
    view.tick();
    assert_eq!(view.take_detail_request(), None);
    view.select_next_item();
    view.tick();
    assert_eq!(view.take_detail_request(), Some(1));
    assert_eq!(view.take_detail_request(), None);
}
