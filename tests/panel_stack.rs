use lazyissues::menu::RequestType;
use lazyissues::panel::{KeyCode, KeyInput, KeyModifiers, PanelElement};
use lazyissues::panel_stack::UiStack;

#[derive(Debug, Clone, PartialEq)]
struct TestPanel {
    id: u32,
    accepts_focus: bool,
    focused: bool,
    quit: bool,
    consumes: bool,
    seen_keys: u32,
}

impl TestPanel {
    fn new(id: u32) -> Self {
        TestPanel { id, accepts_focus: true, focused: false, quit: false, consumes: false, seen_keys: 0 }
    }
}

impl PanelElement for TestPanel {
    type Payload = u32;

    fn takes_key(&self, _key_event: KeyInput) -> bool {
        self.consumes
    }

    fn accepts_data(&self, _data: u32) -> bool {
        true
    }

    fn shows(&self, data: u32) -> bool {
        self.id == data
    }

    fn accepts_focus(&self) -> bool {
        self.accepts_focus
    }

    fn in_focus(&self) -> bool {
        self.focused
    }

    fn handle_input(&mut self, _key_event: KeyInput) -> bool {
        self.seen_keys += 1;
        self.consumes
    }

    fn tick(&mut self) {}

    fn update(&mut self, data: u32) -> bool {
        self.id = data;
        true
    }

    fn quitting(&self) -> bool {
        self.quit
    }

    fn wants_to_quit(&self) -> bool {
        self.quit
    }

    fn set_focus(&mut self, state: bool) -> bool {
        if !state || self.accepts_focus {
            self.focused = state;
            return true;
        }
        false
    }

    fn create_list_view(_request_type: RequestType, data: u32) -> Self {
        TestPanel::new(data)
    }

    fn create_detail_view(data: u32) -> Self {
        TestPanel::new(data)
    }
}

fn layout(stack: &UiStack<TestPanel>) -> Vec<(u8, String, u32)> {
    stack.iter_with_priority().iter().enumerate().map(|(i, (p, panel))| (*p, stack.name_at(i).clone(), panel.id)).collect()
}

fn key(c: char) -> KeyInput {
    KeyInput { code: KeyCode::Char(c), modifiers: KeyModifiers::none() }
}

#[test]
fn new_stack_is_empty() {
    let stack: UiStack<TestPanel> = UiStack::new();
    assert_eq!(stack.len(), 0);
    assert_eq!(stack.get_highest_priority(), 0);
    assert!(stack.get_panel_names().is_empty());
}

#[test]
fn add_panel_keeps_priority_order() {
    let mut stack = UiStack::new();
    stack.add_panel(TestPanel::new(1), 5, "a");
    stack.add_panel(TestPanel::new(2), 1, "b");
    stack.add_panel(TestPanel::new(3), 9, "c");
    assert_eq!(
        layout(&stack),
        vec![(1, "b".to_string(), 2), (5, "a".to_string(), 1), (9, "c".to_string(), 3)]
    );
    assert_eq!(stack.get_highest_priority(), 9);
    assert_eq!(stack.get_priority_by_name("a"), Some(5));
    assert_eq!(stack.get_priority_by_name("zzz"), None);
}

#[test]
fn add_panel_with_taken_name_replaces_it() {
    let mut stack = UiStack::new();
    stack.add_panel(TestPanel::new(1), 3, "list");
    stack.add_panel(TestPanel::new(2), 7, "list");
    assert_eq!(layout(&stack), vec![(7, "list".to_string(), 2)]);
    assert_eq!(stack.get_priority_by_name("list"), Some(7));
}

#[test]
fn add_panel_with_taken_priority_replaces_it() {
    let mut stack = UiStack::new();
    stack.add_panel(TestPanel::new(1), 3, "old");
    stack.add_panel(TestPanel::new(2), 3, "new");
    assert_eq!(layout(&stack), vec![(3, "new".to_string(), 2)]);
    assert_eq!(stack.get_priority_by_name("old"), None);
}

#[test]
fn priorities_stay_unique_over_a_sequence_of_operations() {
    let mut stack = UiStack::new();
    stack.add_panel(TestPanel::new(1), 4, "a");
    stack.add_panel(TestPanel::new(2), 2, "b");
    stack.add_panel(TestPanel::new(3), 4, "c");
    stack.add_panel(TestPanel::new(4), 0, "b");
    assert!(stack.select_panel("a") == false);
    stack.add_panel(TestPanel::new(5), 8, "d");
    assert!(stack.select_panel("b"));
    stack.remove_panel(0);
    stack.add_panel(TestPanel::new(6), 1, "e");
    let l = layout(&stack);
    for i in 0..l.len() {
        for j in 0..l.len() {
            if i != j {
                assert_ne!(l[i].0, l[j].0);
                assert_ne!(l[i].1, l[j].1);
            }
        }
        assert_eq!(stack.get_priority_by_name(&l[i].1), Some(l[i].0));
    }
}

#[test]
fn normalizing_keeps_order() {
    let mut stack = UiStack::new();
    stack.add_panel(TestPanel::new(10), 5, "five");
    stack.add_panel(TestPanel::new(20), 1, "one");
    stack.add_panel(TestPanel::new(30), 9, "nine");
    stack.normalize_priorities();
    assert_eq!(
        layout(&stack),
        vec![(0, "one".to_string(), 20), (1, "five".to_string(), 10), (2, "nine".to_string(), 30)]
    );
    assert_eq!(stack.get_priority_by_name("one"), Some(0));
    assert_eq!(stack.get_priority_by_name("five"), Some(1));
    assert_eq!(stack.get_priority_by_name("nine"), Some(2));
}

#[test]
fn remove_panel_by_priority() {
    let mut stack = UiStack::new();
    stack.add_panel(TestPanel::new(1), 2, "a");
    stack.add_panel(TestPanel::new(2), 6, "b");
    let removed = stack.remove_panel(6).expect("present");
    assert_eq!(removed.0.id, 2);
    assert_eq!(removed.1, "b");
    assert!(stack.remove_panel(6).is_none());
    assert_eq!(stack.get_priority_by_name("b"), None);
    assert_eq!(stack.len(), 1);
}

#[test]
fn remove_panel_by_name_frees_the_name() {
    let mut stack = UiStack::new();
    stack.add_panel(TestPanel::new(1), 2, "a");
    stack.add_panel(TestPanel::new(2), 6, "b");
    let removed = stack.remove_panel_by_name("a").expect("present");
    assert_eq!((removed.0.id, removed.1.as_str()), (1, "a"));
    assert!(stack.remove_panel_by_name("a").is_none());
    assert_eq!(layout(&stack), vec![(6, "b".to_string(), 2)]);
}

#[test]
fn remove_highest_and_lowest() {
    let mut stack = UiStack::new();
    assert!(stack.remove_highest_priority_panel().is_none());
    assert!(stack.remove_lowest_priority_panel().is_none());
    stack.add_panel(TestPanel::new(1), 2, "a");
    stack.add_panel(TestPanel::new(2), 6, "b");
    stack.add_panel(TestPanel::new(3), 4, "c");
    assert_eq!(stack.remove_highest_priority_panel().map(|p| p.1), Some("b".to_string()));
    assert_eq!(stack.remove_lowest_priority_panel().map(|p| p.1), Some("a".to_string()));
    assert_eq!(layout(&stack), vec![(4, "c".to_string(), 3)]);
}

#[test]
fn clear_empties_the_stack() {
    let mut stack = UiStack::new();
    stack.add_panel(TestPanel::new(1), 2, "a");
    stack.clear();
    assert_eq!(stack.len(), 0);
    assert_eq!(stack.get_priority_by_name("a"), None);
}

#[test]
fn select_panel_brings_it_on_top_and_moves_focus() {
    let mut stack = UiStack::new();
    stack.add_panel(TestPanel::new(1), 2, "a");
    stack.add_panel(TestPanel::new(2), 0, "b");
    stack.add_panel(TestPanel::new(3), 1, "c");
    assert!(stack.select_panel("a"));
    assert!(stack.select_panel("b"));
    assert_eq!(
        layout(&stack),
        vec![(0, "c".to_string(), 3), (1, "a".to_string(), 1), (2, "b".to_string(), 2)]
    );
    assert!(stack.get_panel_ref_by_name("b").unwrap().focused);
    assert!(!stack.get_panel_ref_by_name("a").unwrap().focused);
}

#[test]
fn select_panel_refused_changes_nothing() {
    let mut stack = UiStack::new();
    let mut stubborn = TestPanel::new(1);
    stubborn.accepts_focus = false;
    stack.add_panel(stubborn, 0, "stubborn");
    stack.add_panel(TestPanel::new(2), 5, "top");
    assert!(!stack.select_panel("stubborn"));
    assert!(!stack.select_panel("missing"));
    assert_eq!(layout(&stack), vec![(0, "stubborn".to_string(), 1), (5, "top".to_string(), 2)]);
}

#[test]
fn selecting_the_top_panel_twice_is_like_once() {
    let mut stack = UiStack::new();
    stack.add_panel(TestPanel::new(1), 3, "a");
    stack.add_panel(TestPanel::new(2), 8, "b");
    assert!(stack.select_panel("b"));
    let once = layout(&stack);
    assert!(stack.select_panel("b"));
    assert_eq!(layout(&stack), once);
    assert_eq!(once, vec![(0, "a".to_string(), 1), (1, "b".to_string(), 2)]);
}

#[test]
fn set_panel_priority_by_name_moves_only_to_free_priorities() {
    let mut stack = UiStack::new();
    stack.add_panel(TestPanel::new(1), 1, "a");
    stack.add_panel(TestPanel::new(2), 2, "b");
    stack.set_panel_priority_by_name(2, "a");
    assert_eq!(layout(&stack), vec![(1, "a".to_string(), 1), (2, "b".to_string(), 2)]);
    stack.set_panel_priority_by_name(9, "a");
    assert_eq!(layout(&stack), vec![(2, "b".to_string(), 2), (9, "a".to_string(), 1)]);
    stack.set_panel_priority_by_name(4, "missing");
    assert_eq!(stack.len(), 2);
}

#[test]
fn add_panel_on_top_goes_above_all() {
    let mut stack = UiStack::new();
    assert!(stack.add_panel_on_top(TestPanel::new(9), "first"));
    assert_eq!(layout(&stack), vec![(1, "first".to_string(), 9)]);
    stack.clear();
    stack.add_panel(TestPanel::new(1), 7, "a");
    stack.add_panel(TestPanel::new(2), 3, "b");
    assert!(stack.add_panel_on_top(TestPanel::new(3), "c"));
    assert_eq!(
        layout(&stack),
        vec![(3, "b".to_string(), 2), (7, "a".to_string(), 1), (8, "c".to_string(), 3)]
    );
    assert!(stack.add_panel_on_top(TestPanel::new(4), "b"));
    assert_eq!(
        layout(&stack),
        vec![(7, "a".to_string(), 1), (8, "c".to_string(), 3), (9, "b".to_string(), 4)]
    );
}

#[test]
fn add_panel_on_top_at_255_renumbers_first() {
    let mut stack = UiStack::new();
    stack.add_panel(TestPanel::new(1), 10, "a");
    stack.add_panel(TestPanel::new(2), 255, "b");
    assert!(stack.add_panel_on_top(TestPanel::new(3), "c"));
    assert_eq!(
        layout(&stack),
        vec![(0, "a".to_string(), 1), (1, "b".to_string(), 2), (2, "c".to_string(), 3)]
    );
}

#[test]
fn select_panel_at_highest_priority_255() {
    let mut stack = UiStack::new();
    stack.add_panel(TestPanel::new(1), 40, "a");
    stack.add_panel(TestPanel::new(2), 255, "b");
    assert!(stack.select_panel("a"));
    assert_eq!(layout(&stack), vec![(0, "b".to_string(), 2), (1, "a".to_string(), 1)]);
    assert!(stack.get_panel_ref_by_name("a").unwrap().focused);
}

#[test]
fn add_panel_on_top_of_a_full_stack_is_refused() {
    let mut stack = UiStack::new();
    for p in 0..=255u8 {
        stack.add_panel(TestPanel::new(p as u32), p, &format!("panel{p}"));
    }
    assert_eq!(stack.len(), 256);
    assert!(!stack.add_panel_on_top(TestPanel::new(999), "extra"));
    assert_eq!(stack.len(), 256);
    assert!(stack.add_panel_on_top(TestPanel::new(999), "panel0"));
    assert_eq!(stack.get_priority_by_name("panel0"), Some(255));
}

#[test]
fn quitting_panel_is_reaped_and_its_name_reusable() {
    let mut stack = UiStack::new();
    let mut picker = TestPanel::new(1);
    picker.quit = true;
    stack.add_panel(TestPanel::new(2), 0, "list");
    stack.add_panel(picker, 1, "picker");
    let removed = stack.remove_quitting_panels();
    assert_eq!(removed.len(), 1);
    assert_eq!(removed[0].1, "picker");
    assert_eq!(layout(&stack), vec![(0, "list".to_string(), 2)]);
    stack.add_panel(TestPanel::new(3), 1, "picker");
    assert_eq!(stack.get_priority_by_name("picker"), Some(1));
}

#[test]
fn input_goes_top_down_until_consumed() {
    let mut stack = UiStack::new();
    let mut middle = TestPanel::new(2);
    middle.consumes = true;
    stack.add_panel(TestPanel::new(1), 0, "bottom");
    stack.add_panel(middle, 1, "middle");
    stack.add_panel(TestPanel::new(3), 2, "top");
    assert!(stack.dispatch_input(key('x')));
    assert_eq!(stack.get_panel_ref_by_name("top").unwrap().seen_keys, 1);
    let mut empty: UiStack<TestPanel> = UiStack::new();
    assert!(!empty.dispatch_input(key('x')));
    assert_eq!(stack.get_panel_ref_by_name("middle").unwrap().seen_keys, 1);
    assert_eq!(stack.get_panel_ref_by_name("bottom").unwrap().seen_keys, 0);
}

#[test]
fn update_panel_by_name_reaches_only_that_panel() {
    let mut stack = UiStack::new();
    stack.add_panel(TestPanel::new(1), 0, "a");
    stack.add_panel(TestPanel::new(2), 1, "b");
    assert_eq!(stack.update_panel_by_name("b", 42), Some(true));
    assert_eq!(stack.update_panel_by_name("zz", 42), None);
    assert_eq!(layout(&stack), vec![(0, "a".to_string(), 1), (1, "b".to_string(), 42)]);
}

#[test]
fn iteration_orders() {
    let mut stack = UiStack::new();
    stack.add_panel(TestPanel::new(1), 4, "a");
    stack.add_panel(TestPanel::new(2), 2, "b");
    let up: Vec<u32> = stack.iter().iter().map(|p| p.id).collect();
    let down: Vec<u32> = stack.iter_rev().iter().map(|p| p.id).collect();
    assert_eq!(up, vec![2, 1]);
    assert_eq!(down, vec![1, 2]);
    assert_eq!(stack.get_panel_names(), vec!["b".to_string(), "a".to_string()]);
    stack.panel_mut_at(0).id = 7;
    assert_eq!(stack.panel_at(0).id, 7);
    assert_eq!(stack.priority_at(1), 4);
}
