use vstd::prelude::*;

use crate::issues_view::{kept_selection, next_selection, previous_selection, ListCollection, ListItem};
use crate::menu::RequestType;
use crate::panel::{KeyCode, KeyInput, KeyModifiers, PanelElement};

verus! {

/// A focusable list of items: `j` and `k` move the selection, wrapping at
/// the ends, and new data keeps the selection where it can.
pub struct ListView<C> {
    collection: C,
    item_amount: usize,
    selected_item: usize,
    is_focused: bool,
    changed_selected_item: bool,
    detail_request: Option<i64>,
}

impl<C: ListCollection> ListView<C> {
    pub closed spec fn amount(&self) -> usize {
        self.item_amount
    }

    pub closed spec fn selected(&self) -> usize {
        self.selected_item
    }

    pub closed spec fn focused(&self) -> bool {
        self.is_focused
    }

    pub closed spec fn data(&self) -> C {
        self.collection
    }

    /// The number of the item whose details were asked for and not yet taken.
    pub closed spec fn pending_detail(&self) -> Option<i64> {
        self.detail_request
    }

    /// Whether the selection moved since the view last reported it.
    pub closed spec fn moved(&self) -> bool {
        self.changed_selected_item
    }

    /// A view of `collection` with the first item selected, not in focus.
    pub fn new(collection: C) -> (r: Self)
        ensures
            r.selected() == 0,
            r.amount() == collection.item_count(),
            r.data() == collection,
            !r.focused(),
            !r.moved(),
            r.pending_detail() is None,
    {
        let item_amount = collection.get_items().len();
        ListView {
            collection,
            item_amount,
            selected_item: 0,
            is_focused: false,
            changed_selected_item: false,
            detail_request: None,
        }
    }

    /// Selects the next item, wrapping to the first.
    pub fn select_next_item(&mut self)
        ensures
            final(self).selected() == next_selection(old(self).selected(), old(self).amount()),
            final(self).amount() == old(self).amount(),
            final(self).data() == old(self).data(),
            final(self).focused() == old(self).focused(),
            final(self).pending_detail() == old(self).pending_detail(),
            final(self).moved(),
    {
        if self.selected_item >= self.item_amount || self.item_amount - self.selected_item <= 1 {
            self.selected_item = 0;
        } else {
            self.selected_item = self.selected_item + 1;
        }
        self.changed_selected_item = true;
    }

    /// Selects the previous item, wrapping to the last.
    pub fn select_previous_item(&mut self)
        ensures
            final(self).selected() == previous_selection(old(self).selected(), old(self).amount()),
            final(self).amount() == old(self).amount(),
            final(self).data() == old(self).data(),
            final(self).focused() == old(self).focused(),
            final(self).pending_detail() == old(self).pending_detail(),
            final(self).moved(),
    {
        if self.selected_item == 0 {
            self.selected_item = if self.item_amount == 0 {
                0
            } else {
                self.item_amount - 1
            };
        } else {
            self.selected_item = self.selected_item - 1;
        }
        self.changed_selected_item = true;
    }

    /// Reports whether the selection moved since the last report.
    pub fn take_selection_change(&mut self) -> (r: bool)
        ensures
            r == old(self).moved(),
            !final(self).moved(),
            final(self).selected() == old(self).selected(),
            final(self).amount() == old(self).amount(),
            final(self).data() == old(self).data(),
            final(self).focused() == old(self).focused(),
            final(self).pending_detail() == old(self).pending_detail(),
    {
        let r = self.changed_selected_item;
        self.changed_selected_item = false;
        r
    }

    /// Replaces the list, keeping the selection where the new list allows;
    /// the selection counts as moved.
    pub fn replace_data(&mut self, data: C)
        ensures
            final(self).data() == data,
            final(self).amount() == data.item_count(),
            final(self).selected() == kept_selection(old(self).selected(), final(self).amount()),
            final(self).focused() == old(self).focused(),
            final(self).pending_detail() == old(self).pending_detail(),
            final(self).moved(),
    {
        self.item_amount = data.get_items().len();
        self.collection = data;
        self.selected_item = if self.selected_item < self.item_amount {
            self.selected_item
        } else if self.item_amount > 0 {
            self.item_amount - 1
        } else {
            0
        };
        self.changed_selected_item = true;
    }

    /// `j` and `k` without modifiers move the selection down and up and are
    /// consumed; other keys change nothing and are not.
    pub fn handle_key(&mut self, key_event: KeyInput) -> (r: bool)
        ensures
            r == list_takes_key(key_event),
            final(self).selected() == if key_event == (KeyInput {
                code: KeyCode::Char('j'),
                modifiers: KeyModifiers::none_spec(),
            }) {
                next_selection(old(self).selected(), old(self).amount())
            } else if key_event == (KeyInput {
                code: KeyCode::Char('k'),
                modifiers: KeyModifiers::none_spec(),
            }) {
                previous_selection(old(self).selected(), old(self).amount())
            } else {
                old(self).selected()
            },
            final(self).moved() == (r || old(self).moved()),
            final(self).amount() == old(self).amount(),
            final(self).data() == old(self).data(),
            final(self).focused() == old(self).focused(),
            final(self).pending_detail() == old(self).pending_detail(),
    {
        if key_event.modifiers == KeyModifiers::none() {
            if key_event.code == KeyCode::Char('j') {
                self.select_next_item();
                return true;
            } else if key_event.code == KeyCode::Char('k') {
                self.select_previous_item();
                return true;
            }
        }
        false
    }

    /// When the selection moved, asks for the details of the selected item
    /// (by its number) and clears the mark.
    pub fn request_details(&mut self)
        ensures
            !final(self).moved(),
            old(self).moved() && old(self).selected() < old(self).data().item_count()
                ==> final(self).pending_detail() is Some,
            !(old(self).moved() && old(self).selected() < old(self).data().item_count())
                ==> final(self).pending_detail() == old(self).pending_detail(),
            final(self).selected() == old(self).selected(),
            final(self).amount() == old(self).amount(),
            final(self).data() == old(self).data(),
            final(self).focused() == old(self).focused(),
    {
        if self.changed_selected_item {
            let items = self.collection.get_items();
            if self.selected_item < items.len() {
                self.detail_request = Some(items[self.selected_item].get_number());
            }
            self.changed_selected_item = false;
        }
    }

    /// Hands out the pending detail request, once.
    pub fn take_detail_request(&mut self) -> (r: Option<i64>)
        ensures
            r == old(self).pending_detail(),
            final(self).pending_detail() is None,
            final(self).selected() == old(self).selected(),
            final(self).amount() == old(self).amount(),
            final(self).data() == old(self).data(),
            final(self).focused() == old(self).focused(),
            final(self).moved() == old(self).moved(),
    {
        self.detail_request.take()
    }

    /// Sets whether the view has the focus; it always accepts.
    pub fn set_focused(&mut self, state: bool)
        ensures
            final(self).focused() == state,
            final(self).selected() == old(self).selected(),
            final(self).amount() == old(self).amount(),
            final(self).data() == old(self).data(),
            final(self).moved() == old(self).moved(),
            final(self).pending_detail() == old(self).pending_detail(),
    {
        self.is_focused = state;
    }

    /// The index of the selected item.
    pub fn selected_item(&self) -> (r: usize)
        ensures
            r == self.selected(),
    {
        self.selected_item
    }

    /// The number of items.
    pub fn item_amount(&self) -> (r: usize)
        ensures
            r == self.amount(),
    {
        self.item_amount
    }

    /// The data shown.
    pub fn collection(&self) -> (r: &C)
        ensures
            *r == self.data(),
    {
        &self.collection
    }

    /// Whether the view has the focus.
    pub fn has_focus(&self) -> (r: bool)
        ensures
            r == self.focused(),
    {
        self.is_focused
    }
}

/// The keys a list view consumes: `j` and `k` without modifiers.
pub open spec fn list_takes_key(key_event: KeyInput) -> bool {
    key_event.modifiers == KeyModifiers::none_spec() && (key_event.code == KeyCode::Char('j')
        || key_event.code == KeyCode::Char('k'))
}

impl<C: ListCollection> PanelElement for ListView<C> {
    type Payload = C;

    open spec fn takes_key(&self, key_event: KeyInput) -> bool {
        list_takes_key(key_event)
    }

    fn handle_input(&mut self, key_event: KeyInput) -> (r: bool)
        ensures
            final(self).selected() == if key_event == (KeyInput {
                code: KeyCode::Char('j'),
                modifiers: KeyModifiers::none_spec(),
            }) {
                next_selection(old(self).selected(), old(self).amount())
            } else if key_event == (KeyInput {
                code: KeyCode::Char('k'),
                modifiers: KeyModifiers::none_spec(),
            }) {
                previous_selection(old(self).selected(), old(self).amount())
            } else {
                old(self).selected()
            },
            final(self).moved() == (r || old(self).moved()),
            final(self).amount() == old(self).amount(),
            final(self).data() == old(self).data(),
            final(self).focused() == old(self).focused(),
            final(self).pending_detail() == old(self).pending_detail(),
    {
        self.handle_key(key_event)
    }

    fn tick(&mut self)
        ensures
            !final(self).moved(),
            old(self).moved() && old(self).selected() < old(self).data().item_count()
                ==> final(self).pending_detail() is Some,
            !(old(self).moved() && old(self).selected() < old(self).data().item_count())
                ==> final(self).pending_detail() == old(self).pending_detail(),
            final(self).selected() == old(self).selected(),
            final(self).amount() == old(self).amount(),
            final(self).data() == old(self).data(),
            final(self).focused() == old(self).focused(),
    {
        self.request_details();
    }

    open spec fn accepts_data(&self, data: C) -> bool {
        true
    }

    open spec fn shows(&self, data: C) -> bool {
        self.data() == data
    }

    fn update(&mut self, data: C) -> (r: bool)
        ensures
            r,
            final(self).data() == data,
            final(self).amount() == data.item_count(),
            final(self).selected() == kept_selection(old(self).selected(), final(self).amount()),
            final(self).focused() == old(self).focused(),
            final(self).pending_detail() == old(self).pending_detail(),
            final(self).moved(),
    {
        self.replace_data(data);
        true
    }

    /// A list view stays open.
    open spec fn quitting(&self) -> bool {
        false
    }

    fn wants_to_quit(&self) -> (r: bool) {
        false
    }

    open spec fn accepts_focus(&self) -> bool {
        true
    }

    open spec fn in_focus(&self) -> bool {
        self.focused()
    }

    fn set_focus(&mut self, state: bool) -> (r: bool) {
        self.set_focused(state);
        true
    }

    fn create_list_view(request_type: RequestType, data: C) -> (r: Self) {
        ListView::new(data)
    }

    fn create_detail_view(data: C) -> (r: Self) {
        ListView::new(data)
    }
}

/// The list view for issues.
pub fn create_issues_view<C: ListCollection>(data: C) -> (r: ListView<C>)
    ensures
        r.data() == data,
        r.selected() == 0,
{
    ListView::new(data)
}

/// The list view for pull requests.
pub fn create_pull_requests_view<C: ListCollection>(data: C) -> (r: ListView<C>)
    ensures
        r.data() == data,
        r.selected() == 0,
{
    ListView::new(data)
}

/// The list view for projects.
pub fn create_projects_view<C: ListCollection>(data: C) -> (r: ListView<C>)
    ensures
        r.data() == data,
        r.selected() == 0,
{
    ListView::new(data)
}

} // verus!
