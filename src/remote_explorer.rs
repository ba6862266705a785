use vstd::prelude::*;

use crate::menu::RequestType;
use crate::panel::{KeyCode, KeyInput, KeyModifiers, PanelElement};
use crate::text::{contains_text, str_contains};

verus! {

/// Name and url of each remote.
pub open spec fn remote_views(remotes: Seq<(String, String)>) -> Seq<(Seq<char>, Seq<char>)> {
    remotes.map_values(|r: (String, String)| (r.0@, r.1@))
}

/// The remotes whose name contains `mask`, in the order given.
pub open spec fn visible_remotes(remotes: Seq<(Seq<char>, Seq<char>)>, mask: Seq<char>) -> Seq<
    (Seq<char>, Seq<char>),
>
    decreases remotes.len(),
{
    if remotes.len() == 0 {
        Seq::empty()
    } else {
        let rest = visible_remotes(remotes.drop_last(), mask);
        if contains_text(remotes.last().0, mask) {
            rest.push(remotes.last())
        } else {
            rest
        }
    }
}

/// The selection after moving down a list of `len` entries, wrapping.
pub open spec fn entry_after(selected: Option<usize>, len: nat) -> Option<usize> {
    if len == 0 {
        selected
    } else {
        match selected {
            Some(i) => if i + 1 >= len {
                Some(0usize)
            } else {
                Some((i + 1) as usize)
            },
            None => Some(0usize),
        }
    }
}

/// The selection after moving up a list of `len` entries, wrapping.
pub open spec fn entry_before(selected: Option<usize>, len: nat) -> Option<usize> {
    if len == 0 {
        selected
    } else {
        match selected {
            Some(i) => if i == 0 || i >= len {
                Some((len - 1) as usize)
            } else {
                Some((i - 1) as usize)
            },
            None => Some((len - 1) as usize),
        }
    }
}

/// A modal list of the repository's remotes, filtered by a typed mask. Enter
/// picks the selected remote and closes the picker; Escape closes it.
pub struct RemoteExplorer {
    remote_mask: String,
    remotes: Vec<(String, String)>,
    items: Vec<(String, String)>,
    selected: Option<usize>,
    chosen: Option<String>,
    quit: bool,
    is_focused: bool,
}

impl RemoteExplorer {
    pub closed spec fn mask(&self) -> Seq<char> {
        self.remote_mask@
    }

    /// The remotes on offer: name and url.
    pub closed spec fn all_remotes(&self) -> Seq<(Seq<char>, Seq<char>)> {
        remote_views(self.remotes@)
    }

    /// The remotes shown.
    pub closed spec fn shown(&self) -> Seq<(Seq<char>, Seq<char>)> {
        remote_views(self.items@)
    }

    pub closed spec fn selection(&self) -> Option<usize> {
        self.selected
    }

    /// The url of the remote picked, once Enter was pressed on one.
    pub closed spec fn picked(&self) -> Option<Seq<char>> {
        match self.chosen {
            Some(c) => Some(c@),
            None => None,
        }
    }

    pub closed spec fn closing(&self) -> bool {
        self.quit
    }

    pub closed spec fn focused(&self) -> bool {
        self.is_focused
    }

    /// The shown remotes are those that match the mask.
    pub closed spec fn wf(&self) -> bool {
        self.shown() == visible_remotes(self.all_remotes(), self.mask())
    }

    /// A picker over `remotes` (name and url, in the order to show), with an
    /// empty mask and the first remote selected.
    pub fn new(remotes: Vec<(String, String)>) -> (r: RemoteExplorer)
        ensures
            r.wf(),
            r.mask() == Seq::<char>::empty(),
            r.all_remotes() == remote_views(remotes@),
            r.selection() == Some(0usize),
            r.picked() is None,
            !r.closing(),
    {
        let mut explorer = RemoteExplorer {
            remote_mask: String::new(),
            remotes,
            items: Vec::new(),
            selected: None,
            chosen: None,
            quit: false,
            is_focused: false,
        };
        explorer.update_items();
        explorer
    }

    fn update_items(&mut self)
        ensures
            final(self).wf(),
            final(self).selection() == Some(0usize),
            final(self).mask() == old(self).mask(),
            final(self).all_remotes() == old(self).all_remotes(),
            final(self).focused() == old(self).focused(),
            final(self).picked() == old(self).picked(),
            final(self).closing() == old(self).closing(),
    {
        let mut items: Vec<(String, String)> = Vec::new();
        let mut i: usize = 0;
        while i < self.remotes.len()
            invariant
                i <= self.remotes@.len(),
                remote_views(items@) == visible_remotes(
                    remote_views(self.remotes@.subrange(0, i as int)),
                    self.remote_mask@,
                ),
            decreases self.remotes@.len() - i,
        {
            let ghost before = items@;
            proof {
                let pre = remote_views(self.remotes@.subrange(0, i + 1));
                assert(pre.drop_last() =~= remote_views(self.remotes@.subrange(0, i as int)));
                assert(pre.last() == (self.remotes@[i as int].0@, self.remotes@[i as int].1@));
            }
            if str_contains(self.remotes[i].0.as_str(), self.remote_mask.as_str()) {
                let entry = (self.remotes[i].0.clone(), self.remotes[i].1.clone());
                items.push(entry);
                proof {
                    assert(remote_views(items@) =~= remote_views(before).push(
                        (self.remotes@[i as int].0@, self.remotes@[i as int].1@),
                    ));
                }
            }
            i += 1;
        }
        proof {
            assert(self.remotes@.subrange(0, self.remotes@.len() as int) =~= self.remotes@);
        }
        self.items = items;
        self.selected = Some(0);
    }

    /// Selects the next remote shown, wrapping to the first.
    pub fn next_entry(&mut self)
        ensures
            final(self).selection() == entry_after(old(self).selection(), old(self).shown().len()),
            final(self).shown() == old(self).shown(),
            final(self).mask() == old(self).mask(),
            final(self).all_remotes() == old(self).all_remotes(),
            final(self).focused() == old(self).focused(),
            final(self).picked() == old(self).picked(),
            final(self).closing() == old(self).closing(),
            old(self).wf() ==> final(self).wf(),
    {
        let len = self.items.len();
        if len == 0 {
            return ;
        }
        self.selected = match self.selected {
            Some(i) => if i >= len - 1 {
                Some(0)
            } else {
                Some(i + 1)
            },
            None => Some(0),
        };
    }

    /// Selects the previous remote shown, wrapping to the last.
    pub fn previous_entry(&mut self)
        ensures
            final(self).selection() == entry_before(old(self).selection(), old(self).shown().len()),
            final(self).shown() == old(self).shown(),
            final(self).mask() == old(self).mask(),
            final(self).all_remotes() == old(self).all_remotes(),
            final(self).focused() == old(self).focused(),
            final(self).picked() == old(self).picked(),
            final(self).closing() == old(self).closing(),
            old(self).wf() ==> final(self).wf(),
    {
        let len = self.items.len();
        if len == 0 {
            return ;
        }
        self.selected = match self.selected {
            Some(i) => if i == 0 || i >= len {
                Some(len - 1)
            } else {
                Some(i - 1)
            },
            None => Some(len - 1),
        };
    }

    /// Types a character into the mask and filters again.
    pub fn add_to_mask(&mut self, c: char)
        ensures
            final(self).wf(),
            final(self).mask() == old(self).mask().push(c),
            final(self).selection() == Some(0usize),
            final(self).all_remotes() == old(self).all_remotes(),
            final(self).focused() == old(self).focused(),
            final(self).picked() == old(self).picked(),
            final(self).closing() == old(self).closing(),
    {
        let typed = char_to_string(c);
        self.remote_mask.append(typed.as_str());
        proof {
            assert(typed@ =~= seq![c]);
            assert(self.remote_mask@ =~= old(self).mask().push(c));
        }
        self.update_items();
    }

    /// Erases the last character of the mask, if any, and filters again.
    pub fn remove_from_mask(&mut self)
        ensures
            old(self).mask().len() == 0 ==> final(self).mask() == old(self).mask()
                && final(self).selection() == old(self).selection() && final(self).shown()
                == old(self).shown(),
            old(self).mask().len() > 0 ==> final(self).mask() == old(self).mask().drop_last()
                && final(self).selection() == Some(0usize),
            old(self).wf() ==> final(self).wf(),
            old(self).mask().len() > 0 ==> final(self).wf(),
            final(self).all_remotes() == old(self).all_remotes(),
            final(self).focused() == old(self).focused(),
            final(self).picked() == old(self).picked(),
            final(self).closing() == old(self).closing(),
    {
        let n = self.remote_mask.as_str().unicode_len();
        if n == 0 {
            return ;
        }
        let shorter = crate::text::owned(self.remote_mask.as_str().substring_char(0, n - 1));
        self.remote_mask = shorter;
        proof {
            assert(self.remote_mask@ =~= old(self).mask().drop_last());
        }
        self.update_items();
    }

    /// Picks the selected remote and closes the picker; with nothing
    /// selected, nothing happens.
    pub fn select_remote(&mut self)
        ensures
            old(self).selection() is Some && old(self).selection().unwrap() < old(self).shown().len()
                ==> final(self).picked() == Some(old(self).shown()[old(self).selection().unwrap() as int].1)
                && final(self).closing(),
            !(old(self).selection() is Some && old(self).selection().unwrap() < old(self).shown().len())
                ==> final(self).picked() == old(self).picked() && final(self).closing() == old(self).closing(),
            final(self).shown() == old(self).shown(),
            final(self).mask() == old(self).mask(),
            final(self).selection() == old(self).selection(),
            final(self).all_remotes() == old(self).all_remotes(),
            final(self).focused() == old(self).focused(),
            old(self).wf() ==> final(self).wf(),
    {
        if let Some(i) = self.selected {
            if i < self.items.len() {
                self.chosen = Some(self.items[i].1.clone());
                self.quit = true;
            }
        }
    }

    /// Hands out the url picked, once.
    pub fn take_chosen_remote(&mut self) -> (r: Option<String>)
        ensures
            match r {
                Some(u) => old(self).picked() == Some(u@),
                None => old(self).picked() is None,
            },
            final(self).picked() is None,
            final(self).shown() == old(self).shown(),
            final(self).mask() == old(self).mask(),
            final(self).selection() == old(self).selection(),
            final(self).all_remotes() == old(self).all_remotes(),
            final(self).focused() == old(self).focused(),
            final(self).closing() == old(self).closing(),
            old(self).wf() ==> final(self).wf(),
    {
        let r = self.chosen.take();
        r
    }

    /// The mask typed so far.
    pub fn remote_mask(&self) -> (r: &str)
        ensures
            r@ == self.mask(),
    {
        self.remote_mask.as_str()
    }

    /// The remote names shown, in order.
    pub fn item_names(&self) -> (r: Vec<String>)
        ensures
            r@.len() == self.shown().len(),
            forall|k: int| 0 <= k < r@.len() ==> r@[k]@ == self.shown()[k].0,
    {
        let mut out: Vec<String> = Vec::new();
        let mut i: usize = 0;
        while i < self.items.len()
            invariant
                i <= self.items@.len(),
                out@.len() == i,
                forall|k: int| 0 <= k < i ==> out@[k]@ == self.shown()[k].0,
            decreases self.items@.len() - i,
        {
            out.push(self.items[i].0.clone());
            i += 1;
        }
        out
    }

    /// The index of the selected remote.
    pub fn selected_index(&self) -> (r: Option<usize>)
        ensures
            r == self.selection(),
    {
        self.selected
    }
}

/// Relies on `char::to_string`: the one-character string.
#[verifier::external_body]
fn char_to_string(c: char) -> (r: String)
    ensures
        r@ == seq![c],
{
    c.to_string()
}

/// `key_event` is `code` with no modifier held.
pub open spec fn plain_key(key_event: KeyInput, code: KeyCode) -> bool {
    key_event.modifiers == KeyModifiers::none_spec() && key_event.code == code
}

/// `key_event` is `code` with only shift held.
pub open spec fn shifted_key(key_event: KeyInput, code: KeyCode) -> bool {
    key_event.modifiers == (KeyModifiers { shift: true, ..KeyModifiers::none_spec() })
        && key_event.code == code
}

/// The character that a key types into the mask: a character with no
/// modifier or with shift only.
pub open spec fn typed_char(key_event: KeyInput) -> Option<char> {
    match key_event.code {
        KeyCode::Char(c) => if key_event.modifiers == KeyModifiers::none_spec()
            || key_event.modifiers == (KeyModifiers { shift: true, ..KeyModifiers::none_spec() }) {
            Some(c)
        } else {
            None
        },
        _ => None,
    }
}

/// What a key does to the picker: Tab and shift-BackTab move the
/// selection, Enter picks the selected remote and closes, Escape closes,
/// Backspace erases, characters are typed into the mask, and other keys
/// change nothing.
pub open spec fn picker_key_outcome(
    old: RemoteExplorer,
    key_event: KeyInput,
    new: RemoteExplorer,
) -> bool {
    let unchanged_list = new.shown() == old.shown() && new.mask() == old.mask();
    let unchanged_pick = new.picked() == old.picked() && new.closing() == old.closing();
    &&& old.wf() ==> new.wf()
    &&& new.all_remotes() == old.all_remotes()
    &&& new.focused() == old.focused()
    &&& plain_key(key_event, KeyCode::Esc) ==> new.closing() && unchanged_list && new.selection()
        == old.selection() && new.picked() == old.picked()
    &&& plain_key(key_event, KeyCode::Tab) ==> new.selection() == entry_after(
        old.selection(),
        old.shown().len(),
    ) && unchanged_list && unchanged_pick
    &&& shifted_key(key_event, KeyCode::BackTab) ==> new.selection() == entry_before(
        old.selection(),
        old.shown().len(),
    ) && unchanged_list && unchanged_pick
    &&& plain_key(key_event, KeyCode::Enter) ==> unchanged_list && new.selection()
        == old.selection() && if old.selection() is Some && old.selection().unwrap()
        < old.shown().len() {
        new.picked() == Some(old.shown()[old.selection().unwrap() as int].1) && new.closing()
    } else {
        unchanged_pick
    }
    &&& plain_key(key_event, KeyCode::Backspace) ==> new.picked() == old.picked() && new.closing()
        == old.closing() && if old.mask().len() == 0 {
        unchanged_list && new.selection() == old.selection()
    } else {
        new.mask() == old.mask().drop_last() && new.selection() == Some(0usize)
    }
    &&& typed_char(key_event) is Some ==> new.mask() == old.mask().push(
        typed_char(key_event).unwrap(),
    ) && new.selection() == Some(0usize) && unchanged_pick
    &&& !plain_key(key_event, KeyCode::Esc) && !plain_key(key_event, KeyCode::Tab) && !shifted_key(
        key_event,
        KeyCode::BackTab,
    ) && !plain_key(key_event, KeyCode::Enter) && !plain_key(key_event, KeyCode::Backspace)
        && typed_char(key_event) is None ==> unchanged_list && new.selection() == old.selection()
        && unchanged_pick
}

impl RemoteExplorer {
    /// Sets whether the picker has the focus; it always accepts.
    pub fn set_focused(&mut self, state: bool)
        ensures
            final(self).focused() == state,
            final(self).shown() == old(self).shown(),
            final(self).mask() == old(self).mask(),
            final(self).selection() == old(self).selection(),
            final(self).all_remotes() == old(self).all_remotes(),
            final(self).picked() == old(self).picked(),
            final(self).closing() == old(self).closing(),
            old(self).wf() ==> final(self).wf(),
    {
        self.is_focused = state;
    }

    /// The picker takes every key while it is open: Tab and shift-BackTab
    /// move the selection, Enter picks the selected remote and closes,
    /// Escape closes, Backspace erases and characters are typed into the
    /// mask. Other keys change nothing.
    pub fn handle_key(&mut self, key_event: KeyInput) -> (r: bool)
        ensures
            r,
            picker_key_outcome(*old(self), key_event, *final(self)),
    {
        if key_event.modifiers == KeyModifiers::none() {
            match key_event.code {
                KeyCode::Tab => self.next_entry(),
                KeyCode::Enter => self.select_remote(),
                KeyCode::Char(c) => self.add_to_mask(c),
                KeyCode::Backspace => self.remove_from_mask(),
                KeyCode::Esc => {
                    self.quit = true;
                },
                _ => {},
            }
        } else if key_event.modifiers == KeyModifiers::shift_only() {
            match key_event.code {
                KeyCode::BackTab => self.previous_entry(),
                KeyCode::Char(c) => self.add_to_mask(c),
                _ => {},
            }
        }
        true
    }
}

impl PanelElement for RemoteExplorer {
    type Payload = ();

    /// The picker takes every key while it is open.
    open spec fn takes_key(&self, key_event: KeyInput) -> bool {
        true
    }

    fn handle_input(&mut self, key_event: KeyInput) -> (r: bool)
        ensures
            picker_key_outcome(*old(self), key_event, *final(self)),
    {
        self.handle_key(key_event)
    }

    fn tick(&mut self) {
    }

    /// The picker takes no data.
    open spec fn accepts_data(&self, data: ()) -> bool {
        false
    }

    open spec fn shows(&self, data: ()) -> bool {
        true
    }

    fn update(&mut self, data: ()) -> (r: bool) {
        false
    }

    open spec fn quitting(&self) -> bool {
        self.closing()
    }

    fn wants_to_quit(&self) -> (r: bool) {
        self.quit
    }

    open spec fn accepts_focus(&self) -> bool {
        true
    }

    open spec fn in_focus(&self) -> bool {
        self.focused()
    }

    fn set_focus(&mut self, state: bool) -> (r: bool) {
        self.set_focused(state);
        true
    }

    /// A picker is never built from list data: an empty one stands in.
    fn create_list_view(request_type: RequestType, data: ()) -> (r: Self) {
        RemoteExplorer::new(Vec::new())
    }

    /// A picker is never built from detail data: an empty one stands in.
    fn create_detail_view(data: ()) -> (r: Self) {
        RemoteExplorer::new(Vec::new())
    }
}

} // verus!
