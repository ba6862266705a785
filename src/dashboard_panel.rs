use vstd::prelude::*;

use crate::issues_view::ListCollection;
use crate::list_view::{list_takes_key, ListView};
use crate::menu::RequestType;
use crate::panel::{KeyInput, PanelElement};
use crate::remote_explorer::RemoteExplorer;

verus! {

/// The panels of the dashboard: a list view of some kind of data, the
/// details of one item, or the remote picker.
pub enum DashboardPanel<C> {
    List(ListView<C>),
    Detail(ListView<C>),
    Picker(RemoteExplorer),
}

impl<C: ListCollection> DashboardPanel<C> {
    /// A picker over `remotes` (name and url, in the order to show).
    pub fn picker(remotes: Vec<(String, String)>) -> (r: DashboardPanel<C>)
        ensures
            r is Picker,
            r->Picker_0.all_remotes() == crate::remote_explorer::remote_views(remotes@),
            !r->Picker_0.closing(),
            r->Picker_0.wf(),
    {
        DashboardPanel::Picker(RemoteExplorer::new(remotes))
    }

    /// The url picked in a picker, handed out once; `None` for a list view.
    pub fn take_picked_remote(&mut self) -> (r: Option<String>)
        ensures
            match *old(self) {
                DashboardPanel::List(v) => r is None && *final(self) == *old(self),
                DashboardPanel::Detail(v) => r is None && *final(self) == *old(self),
                DashboardPanel::Picker(p) => match *final(self) {
                    DashboardPanel::Picker(q) => {
                        &&& match r {
                            Some(u) => p.picked() == Some(u@),
                            None => p.picked() is None,
                        }
                        &&& q.picked() is None
                        &&& q.closing() == p.closing()
                    },
                    _ => false,
                },
            },
    {
        match self {
            DashboardPanel::Picker(p) => p.take_chosen_remote(),
            _ => None,
        }
    }
}

impl<C: ListCollection> PanelElement for DashboardPanel<C> {
    type Payload = C;

    open spec fn takes_key(&self, key_event: KeyInput) -> bool {
        match self {
            DashboardPanel::List(_) => list_takes_key(key_event),
            DashboardPanel::Detail(_) => list_takes_key(key_event),
            DashboardPanel::Picker(_) => true,
        }
    }

    fn handle_input(&mut self, key_event: KeyInput) -> (r: bool) {
        match self {
            DashboardPanel::List(v) => v.handle_input(key_event),
            DashboardPanel::Detail(v) => v.handle_input(key_event),
            DashboardPanel::Picker(p) => p.handle_input(key_event),
        }
    }

    fn tick(&mut self) {
        match self {
            DashboardPanel::List(v) => v.tick(),
            DashboardPanel::Detail(v) => v.tick(),
            DashboardPanel::Picker(p) => p.tick(),
        }
    }

    /// List views take list data; the picker takes none.
    open spec fn accepts_data(&self, data: C) -> bool {
        !(self is Picker)
    }

    open spec fn shows(&self, data: C) -> bool {
        match self {
            DashboardPanel::List(v) => v.data() == data,
            DashboardPanel::Detail(v) => v.data() == data,
            DashboardPanel::Picker(_) => false,
        }
    }

    fn update(&mut self, data: C) -> (r: bool) {
        match self {
            DashboardPanel::List(v) => v.update(data),
            DashboardPanel::Detail(v) => v.update(data),
            DashboardPanel::Picker(_) => false,
        }
    }

    open spec fn quitting(&self) -> bool {
        match self {
            DashboardPanel::Picker(p) => p.closing(),
            _ => false,
        }
    }

    fn wants_to_quit(&self) -> (r: bool) {
        match self {
            DashboardPanel::List(v) => v.wants_to_quit(),
            DashboardPanel::Detail(v) => v.wants_to_quit(),
            DashboardPanel::Picker(p) => p.wants_to_quit(),
        }
    }

    open spec fn accepts_focus(&self) -> bool {
        true
    }

    open spec fn in_focus(&self) -> bool {
        match self {
            DashboardPanel::List(v) => v.focused(),
            DashboardPanel::Detail(v) => v.focused(),
            DashboardPanel::Picker(p) => p.focused(),
        }
    }

    fn set_focus(&mut self, state: bool) -> (r: bool) {
        match self {
            DashboardPanel::List(v) => v.set_focus(state),
            DashboardPanel::Detail(v) => v.set_focus(state),
            DashboardPanel::Picker(p) => p.set_focus(state),
        }
    }

    fn create_list_view(request_type: RequestType, data: C) -> (r: Self) {
        DashboardPanel::List(ListView::create_list_view(request_type, data))
    }

    fn create_detail_view(data: C) -> (r: Self) {
        DashboardPanel::Detail(ListView::create_detail_view(data))
    }
}

} // verus!
