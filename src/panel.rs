use vstd::prelude::*;

use crate::menu::RequestType;

verus! {

/// The key that was pressed, independent of any terminal library.
#[derive(PartialEq, Eq, Structural, Clone, Copy, Debug)]
pub enum KeyCode {
    Char(char),
    Tab,
    BackTab,
    Enter,
    Esc,
    Backspace,
    Up,
    Down,
    Left,
    Right,
    Other,
}

/// The modifier keys held while a key was pressed.
#[derive(PartialEq, Eq, Structural, Clone, Copy, Debug)]
pub struct KeyModifiers {
    pub shift: bool,
    pub control: bool,
    pub alt: bool,
    pub super_key: bool,
    pub hyper: bool,
    pub meta: bool,
}

impl KeyModifiers {
    /// No modifier held.
    pub fn none() -> (r: KeyModifiers)
        ensures
            r == (KeyModifiers {
                shift: false,
                control: false,
                alt: false,
                super_key: false,
                hyper: false,
                meta: false,
            }),
    {
        KeyModifiers {
            shift: false,
            control: false,
            alt: false,
            super_key: false,
            hyper: false,
            meta: false,
        }
    }

    /// Only the shift key held.
    pub fn shift_only() -> (r: KeyModifiers)
        ensures
            r == (KeyModifiers { shift: true, ..KeyModifiers::none_spec() }),
    {
        KeyModifiers { shift: true, ..KeyModifiers::none() }
    }

    /// Only the control key held.
    pub fn control_only() -> (r: KeyModifiers)
        ensures
            r == (KeyModifiers { control: true, ..KeyModifiers::none_spec() }),
    {
        KeyModifiers { control: true, ..KeyModifiers::none() }
    }

    pub open spec fn none_spec() -> KeyModifiers {
        KeyModifiers {
            shift: false,
            control: false,
            alt: false,
            super_key: false,
            hyper: false,
            meta: false,
        }
    }
}

/// A key press delivered to the panels.
#[derive(PartialEq, Eq, Structural, Clone, Copy, Debug)]
pub struct KeyInput {
    pub code: KeyCode,
    pub modifiers: KeyModifiers,
}

/// A self-contained piece of the user interface: it takes key presses, is
/// ticked, receives data, can hold the focus and can ask to be closed.
/// Drawing is left to the surrounding application.
pub trait PanelElement: Sized {
    /// The data that a panel of this kind can be updated with.
    type Payload;

    /// Whether the panel, as it stands, consumes `key_event`.
    spec fn takes_key(&self, key_event: KeyInput) -> bool;

    /// Offers a key press to the panel; `true` when the panel consumed it.
    fn handle_input(&mut self, key_event: KeyInput) -> (r: bool)
        ensures
            r == old(self).takes_key(key_event),
    ;

    /// Gives the panel a chance to do periodic work.
    fn tick(&mut self);

    /// Whether the panel, as it stands, takes `data`.
    spec fn accepts_data(&self, data: Self::Payload) -> bool;

    /// Whether the panel shows `data`.
    spec fn shows(&self, data: Self::Payload) -> bool;

    /// Updates the panel with new data; `true` when the panel took it, and
    /// then it shows that data.
    fn update(&mut self, data: Self::Payload) -> (r: bool)
        ensures
            r == old(self).accepts_data(data),
            r ==> final(self).shows(data),
    ;

    /// Whether the panel, as it stands, asks to be removed.
    spec fn quitting(&self) -> bool;

    /// `true` when the panel asks to be removed.
    fn wants_to_quit(&self) -> (r: bool)
        ensures
            r == self.quitting(),
    ;

    /// Whether the panel, as it stands, accepts the focus when offered it.
    spec fn accepts_focus(&self) -> bool;

    /// Whether the panel holds the focus.
    spec fn in_focus(&self) -> bool;

    /// Tells the panel whether it has the focus. Losing the focus is always
    /// accepted; taking it, when the panel accepts it. When accepted, the
    /// panel's focus is `state`.
    fn set_focus(&mut self, state: bool) -> (r: bool)
        ensures
            r == (!state || old(self).accepts_focus()),
            r ==> final(self).in_focus() == state,
    ;

    /// Builds the list view that shows `data`, for results that arrive while
    /// no such view is open.
    fn create_list_view(request_type: RequestType, data: Self::Payload) -> (r: Self)
        ensures
            r.shows(data),
    ;

    /// Builds the detail view that shows `data`, for item details that
    /// arrive while no detail view is open.
    fn create_detail_view(data: Self::Payload) -> (r: Self)
        ensures
            r.shows(data),
    ;
}

} // verus!
