use lazyissues::panel::{KeyCode, KeyInput, KeyModifiers, PanelElement};
use lazyissues::dashboard_panel::DashboardPanel;
use lazyissues::remote_explorer::RemoteExplorer;
use lazyissues::text::str_contains;

fn remotes() -> Vec<(String, String)> {
    vec![
        ("fork".to_string(), "git@github.com:me/tool.git".to_string()),
        ("origin".to_string(), "git@github.com:team/tool.git".to_string()),
        ("upstream".to_string(), "git@github.com:org/tool.git".to_string()),
    ]
}

fn press(picker: &mut RemoteExplorer, code: KeyCode) -> bool {
    picker.handle_input(KeyInput { code, modifiers: KeyModifiers::none() })
}

#[test]
fn picker_shows_all_remotes_first() {
    let picker = RemoteExplorer::new(remotes());
    assert_eq!(picker.item_names(), vec!["fork", "origin", "upstream"]);
    assert_eq!(picker.selected_index(), Some(0));
    assert!(!picker.wants_to_quit());
}

#[test]
fn typing_filters_by_name() {
    let mut picker = RemoteExplorer::new(remotes());
    press(&mut picker, KeyCode::Char('r'));
    assert_eq!(picker.item_names(), vec!["fork", "origin", "upstream"]);
    press(&mut picker, KeyCode::Char('i'));
    assert_eq!(picker.item_names(), vec!["origin"]);
    assert_eq!(picker.remote_mask(), "ri");
    press(&mut picker, KeyCode::Backspace);
    assert_eq!(picker.remote_mask(), "r");
    assert_eq!(picker.item_names().len(), 3);
}

#[test]
fn selection_wraps_both_ways() {
    let mut picker = RemoteExplorer::new(remotes());
    picker.previous_entry();
    assert_eq!(picker.selected_index(), Some(2));
    picker.next_entry();
    assert_eq!(picker.selected_index(), Some(0));
    press(&mut picker, KeyCode::Tab);
    assert_eq!(picker.selected_index(), Some(1));
}

#[test]
fn enter_picks_the_url_and_closes() {
    let mut picker = RemoteExplorer::new(remotes());
    picker.next_entry();
    assert!(press(&mut picker, KeyCode::Enter));
    assert!(picker.wants_to_quit());
    assert_eq!(picker.take_chosen_remote(), Some("git@github.com:team/tool.git".to_string()));
    assert_eq!(picker.take_chosen_remote(), None);
}

#[test]
fn escape_closes_without_a_pick() {
    let mut picker = RemoteExplorer::new(remotes());
    assert!(press(&mut picker, KeyCode::Esc));
    assert!(picker.wants_to_quit());
    assert_eq!(picker.take_chosen_remote(), None);
}

#[test]
fn enter_on_an_empty_list_does_nothing() {
    let mut picker = RemoteExplorer::new(remotes());
    press(&mut picker, KeyCode::Char('z'));
    assert!(picker.item_names().is_empty());
    press(&mut picker, KeyCode::Enter);
    assert!(!picker.wants_to_quit());
    picker.next_entry();
    picker.previous_entry();
    assert_eq!(picker.selected_index(), Some(0));
}

#[test]
fn substring_search() {
    assert!(str_contains("upstream", "str"));
    assert!(str_contains("abc", ""));
    assert!(!str_contains("ab", "abc"));
    assert!(!str_contains("origin", "x"));
}

struct NoItems;

impl lazyissues::issues_view::ListCollection for NoItems {
    type Item = Never;
    fn item_count(&self) -> usize {
        0
    }
    fn get_items(&self) -> Vec<Never> {
        Vec::new()
    }
}

struct Never;

impl lazyissues::issues_view::ListItem for Never {
    fn get_title(&self) -> String {
        String::new()
    }
    fn get_number(&self) -> i64 {
        0
    }
    fn is_closed(&self) -> bool {
        false
    }
    fn get_author_login(&self) -> Option<String> {
        None
    }
    fn get_created_at(&self) -> String {
        String::new()
    }
    fn get_labels(&self) -> Vec<String> {
        Vec::new()
    }
}

#[test]
fn dashboard_picker_takes_keys_and_hands_out_the_pick() {
    let mut panel: DashboardPanel<NoItems> = DashboardPanel::picker(remotes());
    assert!(panel.handle_input(KeyInput { code: KeyCode::Enter, modifiers: KeyModifiers::none() }));
    assert!(panel.wants_to_quit());
    assert_eq!(panel.take_picked_remote(), Some("git@github.com:me/tool.git".to_string()));
    assert_eq!(panel.take_picked_remote(), None);
    assert!(!panel.update(NoItems));
}

#[test]
fn dashboard_list_ignores_picker_keys() {
    let mut panel: DashboardPanel<NoItems> = DashboardPanel::create_list_view(lazyissues::menu::RequestType::Issues, NoItems);
    assert!(!panel.handle_input(KeyInput { code: KeyCode::Esc, modifiers: KeyModifiers::none() }));
    assert!(!panel.wants_to_quit());
    assert_eq!(panel.take_picked_remote(), None);
    assert!(panel.update(NoItems));
}
