use vstd::prelude::*;

use crate::menu::RequestType;
use crate::panel::{KeyCode, KeyInput, KeyModifiers, PanelElement};

verus! {

/// An item (issue, pull request or project) shown in a list.
pub trait ListItem {
    fn get_title(&self) -> String;

    fn get_number(&self) -> i64;

    fn is_closed(&self) -> bool;

    fn get_author_login(&self) -> Option<String>;

    fn get_created_at(&self) -> String;

    fn get_labels(&self) -> Vec<String>;
}

/// Data from the forge seen as a list of items.
pub trait ListCollection {
    type Item: ListItem;

    /// The number of items in the collection.
    spec fn item_count(&self) -> usize;

    /// The items, in the order the forge returned them.
    fn get_items(&self) -> (r: Vec<Self::Item>)
        ensures
            r@.len() == self.item_count(),
    ;
}

/// An item with its comments.
pub trait DetailItem {
    /// The number of comments fetched.
    fn get_num_comments(&self) -> usize;
}

/// One comment on an item.
pub trait Comment {
    fn get_comment_author(&self) -> Option<String>;

    fn get_comment_created_at(&self) -> String;

    fn get_body(&self) -> String;
}

/// An item shown in detail: a list item with its comments.
pub trait DetailListItem: DetailItem + ListItem + Comment {

}

/// The selection after `selected` moves down a list of `amount` items,
/// wrapping to the first.
pub open spec fn next_selection(selected: usize, amount: usize) -> usize {
    if selected + 1 >= amount {
        0
    } else {
        (selected + 1) as usize
    }
}

/// The selection after `selected` moves up a list of `amount` items,
/// wrapping to the last.
pub open spec fn previous_selection(selected: usize, amount: usize) -> usize {
    if selected == 0 {
        if amount == 0 {
            0
        } else {
            (amount - 1) as usize
        }
    } else {
        (selected - 1) as usize
    }
}

/// The selection kept when a list of `amount` items replaces the list.
pub open spec fn kept_selection(selected: usize, amount: usize) -> usize {
    if selected < amount {
        selected
    } else if amount > 0 {
        (amount - 1) as usize
    } else {
        0
    }
}

/// A list of items with one of them selected.
pub struct IssuesView<C> {
    layout_position: usize,
    issue_data: C,
    issue_amount: usize,
    selected_issue: usize,
    is_focused: bool,
}

impl<C: ListCollection> IssuesView<C> {
    pub closed spec fn amount(&self) -> usize {
        self.issue_amount
    }

    pub closed spec fn selected(&self) -> usize {
        self.selected_issue
    }

    pub closed spec fn focused(&self) -> bool {
        self.is_focused
    }

    pub closed spec fn data(&self) -> C {
        self.issue_data
    }

    pub closed spec fn position(&self) -> usize {
        self.layout_position
    }

    /// A view of `data` drawn at `layout_position`, with the first item selected.
    pub fn new(layout_position: usize, data: C) -> (r: Self)
        ensures
            r.selected() == 0,
            r.amount() == data.item_count(),
            r.position() == layout_position,
            r.data() == data,
            !r.focused(),
    {
        let issue_amount = data.get_items().len();
        IssuesView { layout_position, issue_data: data, issue_amount, selected_issue: 0, is_focused: false }
    }

    /// Selects the next item, wrapping to the first.
    pub fn select_next_item(&mut self)
        ensures
            final(self).selected() == next_selection(old(self).selected(), old(self).amount()),
            final(self).amount() == old(self).amount(),
            final(self).data() == old(self).data(),
            final(self).focused() == old(self).focused(),
            final(self).position() == old(self).position(),
    {
        if self.selected_issue >= self.issue_amount || self.issue_amount - self.selected_issue <= 1 {
            self.selected_issue = 0;
        } else {
            self.selected_issue = self.selected_issue + 1;
        }
    }

    /// Selects the previous item, wrapping to the last.
    pub fn select_previous_item(&mut self)
        ensures
            final(self).selected() == previous_selection(old(self).selected(), old(self).amount()),
            final(self).amount() == old(self).amount(),
            final(self).data() == old(self).data(),
            final(self).focused() == old(self).focused(),
            final(self).position() == old(self).position(),
    {
        if self.selected_issue == 0 {
            self.selected_issue = if self.issue_amount == 0 {
                0
            } else {
                self.issue_amount - 1
            };
        } else {
            self.selected_issue = self.selected_issue - 1;
        }
    }

    /// Replaces the list, keeping the selection where the new list allows.
    pub fn replace_data(&mut self, data: C)
        ensures
            final(self).data() == data,
            final(self).amount() == data.item_count(),
            final(self).selected() == kept_selection(old(self).selected(), final(self).amount()),
            final(self).focused() == old(self).focused(),
            final(self).position() == old(self).position(),
    {
        self.issue_amount = data.get_items().len();
        self.issue_data = data;
        self.selected_issue = if self.selected_issue < self.issue_amount {
            self.selected_issue
        } else if self.issue_amount > 0 {
            self.issue_amount - 1
        } else {
            0
        };
    }

    /// Tab moves down and shift-BackTab up; other keys change nothing. The
    /// key is never consumed, so it also reaches the panels below.
    pub fn handle_key(&mut self, key_event: KeyInput) -> (r: bool)
        ensures
            !r,
            final(self).selected() == if key_event == (KeyInput {
                code: KeyCode::Tab,
                modifiers: KeyModifiers::none_spec(),
            }) {
                next_selection(old(self).selected(), old(self).amount())
            } else if key_event == (KeyInput {
                code: KeyCode::BackTab,
                modifiers: KeyModifiers { shift: true, ..KeyModifiers::none_spec() },
            }) {
                previous_selection(old(self).selected(), old(self).amount())
            } else {
                old(self).selected()
            },
            final(self).amount() == old(self).amount(),
            final(self).data() == old(self).data(),
            final(self).focused() == old(self).focused(),
            final(self).position() == old(self).position(),
    {
        if key_event.modifiers == KeyModifiers::none() {
            if key_event.code == KeyCode::Tab {
                self.select_next_item();
            }
        } else if key_event.modifiers == KeyModifiers::shift_only() {
            if key_event.code == KeyCode::BackTab {
                self.select_previous_item();
            }
        }
        false
    }

    /// Sets whether the view has the focus; it always accepts.
    pub fn set_focused(&mut self, state: bool)
        ensures
            final(self).focused() == state,
            final(self).selected() == old(self).selected(),
            final(self).amount() == old(self).amount(),
            final(self).data() == old(self).data(),
            final(self).position() == old(self).position(),
    {
        self.is_focused = state;
    }

    /// The index of the selected item.
    pub fn selected_item(&self) -> (r: usize)
        ensures
            r == self.selected(),
    {
        self.selected_issue
    }

    /// The number of items.
    pub fn item_amount(&self) -> (r: usize)
        ensures
            r == self.amount(),
    {
        self.issue_amount
    }

    /// The data shown.
    pub fn collection(&self) -> (r: &C)
        ensures
            *r == self.data(),
    {
        &self.issue_data
    }

    /// Whether the view has the focus.
    pub fn has_focus(&self) -> (r: bool)
        ensures
            r == self.focused(),
    {
        self.is_focused
    }

    /// Where the view is drawn.
    pub fn layout_position(&self) -> (r: usize)
        ensures
            r == self.position(),
    {
        self.layout_position
    }
}

impl<C: ListCollection> PanelElement for IssuesView<C> {
    type Payload = C;

    /// The view moves its selection on Tab and shift-BackTab but never
    /// consumes a key.
    open spec fn takes_key(&self, key_event: KeyInput) -> bool {
        false
    }

    fn handle_input(&mut self, key_event: KeyInput) -> (r: bool) {
        self.handle_key(key_event)
    }

    fn tick(&mut self) {
    }

    open spec fn accepts_data(&self, data: C) -> bool {
        true
    }

    open spec fn shows(&self, data: C) -> bool {
        self.data() == data
    }

    fn update(&mut self, data: C) -> (r: bool)
        ensures
            r,
            final(self).data() == data,
            final(self).amount() == data.item_count(),
            final(self).selected() == kept_selection(old(self).selected(), final(self).amount()),
            final(self).focused() == old(self).focused(),
            final(self).position() == old(self).position(),
    {
        self.replace_data(data);
        true
    }

    /// A list view stays open.
    open spec fn quitting(&self) -> bool {
        false
    }

    fn wants_to_quit(&self) -> (r: bool) {
        false
    }

    open spec fn accepts_focus(&self) -> bool {
        true
    }

    open spec fn in_focus(&self) -> bool {
        self.focused()
    }

    fn set_focus(&mut self, state: bool) -> (r: bool) {
        self.set_focused(state);
        true
    }

    fn create_list_view(request_type: RequestType, data: C) -> (r: Self) {
        let position = match request_type {
            RequestType::Issues => 0,
            RequestType::PullRequests => 1,
            RequestType::Projects => 2,
        };
        IssuesView::new(position, data)
    }

    fn create_detail_view(data: C) -> (r: Self) {
        IssuesView::new(0, data)
    }
}

} // verus!
