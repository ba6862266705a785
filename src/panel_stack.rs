use vstd::prelude::*;

use crate::panel::{KeyInput, PanelElement};
use crate::text::{owned, str_equal};

verus! {

/// One live panel of a stack: its priority (z-order and focus rank), its
/// name and the panel itself.
pub struct StackEntry<P> {
    pub priority: u8,
    pub name: String,
    pub panel: P,
}

/// What a stack holds, lowest priority first: priority, name and panel.
pub type StackView<P> = Seq<(u8, Seq<char>, P)>;

/// Priorities strictly increase along the stack, so no two entries share one.
pub open spec fn priorities_ascending<P>(s: StackView<P>) -> bool {
    forall|i: int, j: int| 0 <= i < j < s.len() ==> s[i].0 < s[j].0
}

/// No two entries share a name.
pub open spec fn names_distinct<P>(s: StackView<P>) -> bool {
    forall|i: int, j: int| 0 <= i < j < s.len() ==> s[i].1 != s[j].1
}

pub open spec fn stack_wf<P>(s: StackView<P>) -> bool {
    priorities_ascending(s) && names_distinct(s)
}

/// The priority that the name index gives for `name`.
pub open spec fn priority_of_name<P>(s: StackView<P>, name: Seq<char>) -> Option<u8> {
    if exists|i: int| 0 <= i < s.len() && s[i].1 == name {
        let i = choose|i: int| 0 <= i < s.len() && s[i].1 == name;
        Some(s[i].0)
    } else {
        None
    }
}

/// The names of a stack, lowest priority first.
pub open spec fn stack_names<P>(s: StackView<P>) -> Seq<Seq<char>> {
    s.map_values(|e: (u8, Seq<char>, P)| e.1)
}

/// The same entries, with priorities rewritten to 0, 1, 2, ... in order.
pub open spec fn normalized<P>(s: StackView<P>) -> StackView<P> {
    Seq::new(s.len(), |k: int| (k as u8, s[k].1, s[k].2))
}

/// `true` when the priorities are exactly 0, 1, 2, ... in order.
pub open spec fn is_dense<P>(s: StackView<P>) -> bool {
    forall|k: int| 0 <= k < s.len() ==> s[k].0 as int == k
}

/// The stack without the entry named `name`, if there is one.
pub open spec fn drop_named<P>(s: StackView<P>, name: Seq<char>) -> StackView<P> {
    if exists|i: int| 0 <= i < s.len() && s[i].1 == name {
        s.remove(choose|i: int| 0 <= i < s.len() && s[i].1 == name)
    } else {
        s
    }
}

/// Entry `i` taken out and put on top of the others.
pub open spec fn moved_to_top<P>(s: StackView<P>, i: int) -> StackView<P> {
    s.remove(i).push(s[i])
}

/// Panels kept in order of priority, each with a unique priority and a
/// unique name, so that the highest priority is the one on top and in focus.
pub struct UiStack<P> {
    entries: Vec<StackEntry<P>>,
}

impl<P> View for UiStack<P> {
    type V = StackView<P>;

    closed spec fn view(&self) -> StackView<P> {
        self.entries@.map_values(|e: StackEntry<P>| (e.priority, e.name@, e.panel))
    }
}

/// A strictly increasing run of `u8` priorities has at most 256 entries,
/// and its entry `k` is at least `k`.
pub proof fn lemma_priority_at_least_index<P>(s: StackView<P>, k: int)
    requires
        priorities_ascending(s),
        0 <= k < s.len(),
    ensures
        s[k].0 >= k,
        s.len() <= 256,
    decreases k,
{
    if k > 0 {
        lemma_priority_at_least_index(s, k - 1);
    }
    if s.len() > 256 {
        lemma_priority_at_least_index_only(s, 256);
    }
}

proof fn lemma_priority_at_least_index_only<P>(s: StackView<P>, k: int)
    requires
        priorities_ascending(s),
        0 <= k < s.len(),
    ensures
        s[k].0 >= k,
    decreases k,
{
    if k > 0 {
        lemma_priority_at_least_index_only(s, k - 1);
    }
}

impl<P> UiStack<P> {
    pub open spec fn wf(&self) -> bool {
        stack_wf(self@)
    }

    proof fn lemma_view_index(&self, i: int)
        requires
            0 <= i < self.entries@.len(),
        ensures
            self@.len() == self.entries@.len(),
            self@[i] == (self.entries@[i].priority, self.entries@[i].name@, self.entries@[i].panel),
    {
    }

    /// An empty stack.
    pub fn new() -> (r: Self)
        ensures
            r@ == Seq::<(u8, Seq<char>, P)>::empty(),
            r.wf(),
    {
        let r = UiStack { entries: Vec::new() };
        assert(r@ =~= Seq::<(u8, Seq<char>, P)>::empty());
        r
    }

    /// The number of live panels.
    pub fn len(&self) -> (r: usize)
        ensures
            r == self@.len(),
    {
        self.entries.len()
    }

    /// Removes every panel.
    pub fn clear(&mut self)
        ensures
            final(self)@ == Seq::<(u8, Seq<char>, P)>::empty(),
            final(self).wf(),
    {
        self.entries.clear();
        assert(self@ =~= Seq::<(u8, Seq<char>, P)>::empty());
    }

    /// The index of the entry named `name`, if there is one.
    pub fn position_of_name(&self, name: &str) -> (r: Option<usize>)
        ensures
            match r {
                Some(i) => i < self@.len() && self@[i as int].1 == name@,
                None => forall|j: int| 0 <= j < self@.len() ==> self@[j].1 != name@,
            },
    {
        let mut i: usize = 0;
        while i < self.entries.len()
            invariant
                i <= self.entries@.len(),
                self@.len() == self.entries@.len(),
                forall|j: int| 0 <= j < i ==> self@[j].1 != name@,
            decreases self.entries@.len() - i,
        {
            proof {
                self.lemma_view_index(i as int);
            }
            if str_equal(self.entries[i].name.as_str(), name) {
                return Some(i);
            }
            i += 1;
        }
        None
    }

    /// The index of the entry with priority `priority`, if there is one.
    pub fn position_of_priority(&self, priority: u8) -> (r: Option<usize>)
        ensures
            match r {
                Some(i) => i < self@.len() && self@[i as int].0 == priority,
                None => forall|j: int| 0 <= j < self@.len() ==> self@[j].0 != priority,
            },
    {
        let mut i: usize = 0;
        while i < self.entries.len()
            invariant
                i <= self.entries@.len(),
                self@.len() == self.entries@.len(),
                forall|j: int| 0 <= j < i ==> self@[j].0 != priority,
            decreases self.entries@.len() - i,
        {
            proof {
                self.lemma_view_index(i as int);
            }
            if self.entries[i].priority == priority {
                return Some(i);
            }
            i += 1;
        }
        None
    }

    /// The highest priority in the stack, 0 when it is empty.
    pub fn get_highest_priority(&self) -> (r: u8)
        ensures
            self@.len() == 0 ==> r == 0,
            self@.len() > 0 ==> r == self@.last().0,
    {
        let n = self.entries.len();
        if n == 0 {
            0
        } else {
            proof {
                self.lemma_view_index(n - 1);
            }
            self.entries[n - 1].priority
        }
    }

    /// The priority that the name index gives for `name`.
    pub fn get_priority_by_name(&self, name: &str) -> (r: Option<u8>)
        requires
            self.wf(),
        ensures
            r == priority_of_name(self@, name@),
    {
        match self.position_of_name(name) {
            Some(i) => {
                proof {
                    self.lemma_view_index(i as int);
                    let j = choose|j: int| 0 <= j < self@.len() && self@[j].1 == name@;
                    assert(j == i) by {
                        if j < i {
                            assert(self@[j].1 != self@[i as int].1);
                        } else if j > i {
                            assert(self@[i as int].1 != self@[j].1);
                        }
                    }
                }
                Some(self.entries[i].priority)
            },
            None => None,
        }
    }

    /// The names of all panels, lowest priority first.
    pub fn get_panel_names(&self) -> (r: Vec<String>)
        ensures
            r@.len() == self@.len(),
            forall|k: int| 0 <= k < r@.len() ==> r@[k]@ == self@[k].1,
    {
        let mut names: Vec<String> = Vec::new();
        let mut i: usize = 0;
        while i < self.entries.len()
            invariant
                i <= self.entries@.len(),
                self@.len() == self.entries@.len(),
                names@.len() == i,
                forall|k: int| 0 <= k < i ==> names@[k]@ == self@[k].1,
            decreases self.entries@.len() - i,
        {
            proof {
                self.lemma_view_index(i as int);
            }
            names.push(self.entries[i].name.clone());
            i += 1;
        }
        names
    }

    /// Removes the entry at `i` and hands out its panel and name.
    fn take_at(&mut self, i: usize) -> (r: (P, String))
        requires
            old(self).wf(),
            i < old(self)@.len(),
        ensures
            final(self).wf(),
            final(self)@ == old(self)@.remove(i as int),
            (r.1@, r.0) == (old(self)@[i as int].1, old(self)@[i as int].2),
    {
        proof {
            self.lemma_view_index(i as int);
        }
        let ghost before = self@;
        let e = self.entries.remove(i);
        assert(self@ =~= before.remove(i as int));
        (e.panel, e.name)
    }

    /// Removes the panel with the given priority and returns it with its name.
    pub fn remove_panel(&mut self, priority: u8) -> (r: Option<(P, String)>)
        requires
            old(self).wf(),
        ensures
            final(self).wf(),
            match r {
                Some((panel, name)) => exists|i: int|
                    0 <= i < old(self)@.len() && old(self)@[i] == (priority, name@, panel)
                        && final(self)@ == old(self)@.remove(i),
                None => final(self)@ == old(self)@ && forall|j: int|
                    0 <= j < old(self)@.len() ==> old(self)@[j].0 != priority,
            },
    {
        match self.position_of_priority(priority) {
            Some(i) => {
                let r = self.take_at(i);
                Some(r)
            },
            None => None,
        }
    }

    /// Removes the panel named `name` and returns it with its name.
    pub fn remove_panel_by_name(&mut self, name: &str) -> (r: Option<(P, String)>)
        requires
            old(self).wf(),
        ensures
            final(self).wf(),
            match r {
                Some((panel, n)) => n@ == name@ && exists|i: int|
                    0 <= i < old(self)@.len() && old(self)@[i].1 == name@ && old(self)@[i].2
                        == panel && final(self)@ == old(self)@.remove(i),
                None => final(self)@ == old(self)@ && forall|j: int|
                    0 <= j < old(self)@.len() ==> old(self)@[j].1 != name@,
            },
    {
        match self.position_of_name(name) {
            Some(i) => {
                let r = self.take_at(i);
                Some(r)
            },
            None => None,
        }
    }

    /// Removes the panel on top and returns it with its name.
    pub fn remove_highest_priority_panel(&mut self) -> (r: Option<(P, String)>)
        requires
            old(self).wf(),
        ensures
            final(self).wf(),
            match r {
                Some((panel, name)) => old(self)@.len() > 0 && old(self)@.last() == (
                    old(self)@.last().0,
                    name@,
                    panel,
                ) && final(self)@ == old(self)@.drop_last(),
                None => old(self)@.len() == 0 && final(self)@ == old(self)@,
            },
    {
        let n = self.entries.len();
        if n == 0 {
            None
        } else {
            let ghost before = self@;
            let r = self.take_at(n - 1);
            assert(before.remove(n - 1) =~= before.drop_last());
            Some(r)
        }
    }

    /// Removes the panel at the bottom and returns it with its name.
    pub fn remove_lowest_priority_panel(&mut self) -> (r: Option<(P, String)>)
        requires
            old(self).wf(),
        ensures
            final(self).wf(),
            match r {
                Some((panel, name)) => old(self)@.len() > 0 && old(self)@[0] == (
                    old(self)@[0].0,
                    name@,
                    panel,
                ) && final(self)@ == old(self)@.subrange(1, old(self)@.len() as int),
                None => old(self)@.len() == 0 && final(self)@ == old(self)@,
            },
    {
        let n = self.entries.len();
        if n == 0 {
            None
        } else {
            let ghost before = self@;
            let r = self.take_at(0);
            assert(before.remove(0) =~= before.subrange(1, before.len() as int));
            Some(r)
        }
    }
}


/// Priority and name of each entry, without the panels.
pub open spec fn stack_layout<P>(s: StackView<P>) -> Seq<(u8, Seq<char>)> {
    s.map_values(|e: (u8, Seq<char>, P)| (e.0, e.1))
}

/// What selecting entry `i` of `old` leaves: entry `i` on top, priorities
/// dense, and every panel but the selected one and the former top unchanged.
pub open spec fn selected_from<P: PanelElement>(old: StackView<P>, i: int, new: StackView<P>) -> bool {
    let moved = moved_to_top(old, i);
    let kept = if i == old.len() - 1 {
        old.len() - 1
    } else {
        old.len() - 2
    };
    &&& new.len() == old.len()
    &&& stack_layout(new) == stack_layout(normalized(moved))
    &&& forall|k: int| 0 <= k < kept ==> new[k].2 == moved[k].2
    &&& new[old.len() - 1].2.in_focus()
    &&& i != old.len() - 1 ==> !new[old.len() - 2].2.in_focus()
}

/// The entry named `name` accepts the focus.
pub open spec fn stack_accepts<P: PanelElement>(s: StackView<P>, name: Seq<char>) -> bool {
    exists|i: int| 0 <= i < s.len() && s[i].1 == name && s[i].2.accepts_focus()
}

/// Some panel of the stack consumes `key_event`.
pub open spec fn stack_takes_key<P: PanelElement>(s: StackView<P>, key_event: KeyInput) -> bool {
    exists|k: int| 0 <= k < s.len() && s[k].2.takes_key(key_event)
}

/// The priority that a panel put on top gets: one above the highest, which
/// counts as 0 on an empty stack.
pub open spec fn top_priority<P>(s: StackView<P>) -> int {
    if s.len() == 0 {
        1
    } else {
        s.last().0 + 1
    }
}

/// `s` with `panel` put on top under `name`, replacing an entry of that
/// name: one above the highest priority, or, when that is taken by 255, on
/// top of the renumbered stack.
pub open spec fn placed_on_top<P>(s: StackView<P>, name: Seq<char>, panel: P) -> StackView<P> {
    let d = drop_named(s, name);
    if top_priority(d) <= 255 {
        d.push((top_priority(d) as u8, name, panel))
    } else {
        normalized(d.push((0u8, name, panel)))
    }
}

/// The outcome of `select_panel(name)` on `old`: with `selected`, the named
/// entry was brought to the top; without, the layout is unchanged and only the
/// named panel (which was asked to take the focus) may differ.
pub open spec fn select_outcome<P: PanelElement>(
    old: StackView<P>,
    name: Seq<char>,
    new: StackView<P>,
    selected: bool,
) -> bool {
    if selected {
        exists|i: int| 0 <= i < old.len() && old[i].1 == name && selected_from(old, i, new)
    } else {
        &&& stack_layout(new) == stack_layout(old)
        &&& forall|k: int| 0 <= k < old.len() && old[k].1 != name ==> new[k] == old[k]
    }
}

/// The entries of `s` that survive reaping: those whose panel does not ask to quit.
pub open spec fn not_quitting<P: PanelElement>(s: StackView<P>) -> StackView<P> {
    s.filter(|e: (u8, Seq<char>, P)| !e.2.quitting())
}

proof fn lemma_remove_contains<P>(s: StackView<P>, i: int)
    requires
        0 <= i < s.len(),
    ensures
        forall|e: (u8, Seq<char>, P)|
            s.remove(i).contains(e) <==> exists|j: int| 0 <= j < s.len() && j != i && s[j] == e,
{
    assert forall|e: (u8, Seq<char>, P)|
        s.remove(i).contains(e) <==> exists|j: int| 0 <= j < s.len() && j != i && s[j] == e by {
        if s.remove(i).contains(e) {
            let j = choose|j: int| 0 <= j < s.remove(i).len() && s.remove(i)[j] == e;
            if j < i {
                assert(s[j] == e);
            } else {
                assert(s[j + 1] == e);
            }
        }
        if exists|j: int| 0 <= j < s.len() && j != i && s[j] == e {
            let j = choose|j: int| 0 <= j < s.len() && j != i && s[j] == e;
            if j < i {
                assert(s.remove(i)[j] == e);
            } else {
                assert(s.remove(i)[j - 1] == e);
            }
        }
    }
}

impl<P> UiStack<P> {
    /// Removes the entry named `name`, if any; what stays is every other entry.
    fn drop_name(&mut self, name: &str)
        requires
            old(self).wf(),
        ensures
            final(self).wf(),
            forall|e: (u8, Seq<char>, P)|
                final(self)@.contains(e) <==> (old(self)@.contains(e) && e.1 != name@),
            final(self)@ == drop_named(old(self)@, name@),
    {
        let ghost s = self@;
        match self.position_of_name(name) {
            Some(i) => {
                let _ = self.take_at(i);
                proof {
                    let c = choose|c: int| 0 <= c < s.len() && s[c].1 == name@;
                    assert(c == i) by {
                        if c < i {
                            assert(s[c].1 != s[i as int].1);
                        } else if c > i {
                            assert(s[i as int].1 != s[c].1);
                        }
                    }
                    lemma_remove_contains(s, i as int);
                    assert forall|e: (u8, Seq<char>, P)|
                        self@.contains(e) <==> (s.contains(e) && e.1 != name@) by {
                        if s.contains(e) && e.1 != name@ {
                            let j = choose|j: int| 0 <= j < s.len() && s[j] == e;
                            assert(j != i);
                        }
                        if self@.contains(e) {
                            let j = choose|j: int| 0 <= j < s.len() && j != i && s[j] == e;
                            if j < i {
                                assert(s[j].1 != s[i as int].1);
                            } else {
                                assert(s[i as int].1 != s[j].1);
                            }
                        }
                    }
                }
            },
            None => {},
        }
    }

    /// Removes the entry with priority `priority`, if any.
    fn drop_priority(&mut self, priority: u8)
        requires
            old(self).wf(),
        ensures
            final(self).wf(),
            forall|e: (u8, Seq<char>, P)|
                final(self)@.contains(e) <==> (old(self)@.contains(e) && e.0 != priority),
            (forall|j: int| 0 <= j < old(self)@.len() ==> old(self)@[j].0 != priority)
                ==> final(self)@ == old(self)@,
    {
        let ghost s = self@;
        match self.position_of_priority(priority) {
            Some(i) => {
                let _ = self.take_at(i);
                proof {
                    lemma_remove_contains(s, i as int);
                    assert forall|e: (u8, Seq<char>, P)|
                        self@.contains(e) <==> (s.contains(e) && e.0 != priority) by {
                        if s.contains(e) && e.0 != priority {
                            let j = choose|j: int| 0 <= j < s.len() && s[j] == e;
                            assert(j != i);
                        }
                        if self@.contains(e) {
                            let j = choose|j: int| 0 <= j < s.len() && j != i && s[j] == e;
                            if j < i {
                                assert(s[j].0 < s[i as int].0);
                            } else {
                                assert(s[i as int].0 < s[j].0);
                            }
                        }
                    }
                }
            },
            None => {},
        }
    }

    /// Inserts an entry whose priority and name are both free, at its place in order.
    fn insert_sorted(&mut self, priority: u8, name: String, panel: P)
        requires
            old(self).wf(),
            forall|j: int| 0 <= j < old(self)@.len() ==> old(self)@[j].0 != priority,
            forall|j: int| 0 <= j < old(self)@.len() ==> old(self)@[j].1 != name@,
        ensures
            final(self).wf(),
            forall|e: (u8, Seq<char>, P)|
                final(self)@.contains(e) <==> (e == (priority, name@, panel) || old(self)@.contains(e)),
            final(self)@.len() == old(self)@.len() + 1,
    {
        let ghost s = self@;
        let ghost x = (priority, name@, panel);
        let mut k: usize = 0;
        while k < self.entries.len() && self.entries[k].priority < priority
            invariant
                k <= self.entries@.len(),
                self@ == s,
                s == old(self)@,
                x == (priority, name@, panel),
                self@.len() == self.entries@.len(),
                forall|j: int| 0 <= j < k ==> s[j].0 < priority,
            decreases self.entries@.len() - k,
        {
            proof {
                self.lemma_view_index(k as int);
            }
            k += 1;
        }
        proof {
            if k < s.len() {
                self.lemma_view_index(k as int);
            }
        }
        self.entries.insert(k, StackEntry { priority, name, panel });
        proof {
            assert(self@ =~= s.insert(k as int, x));
            assert forall|a: int, b: int| 0 <= a < b < self@.len() implies self@[a].0 < self@[b].0 by {
                if b == k {
                } else if a == k {
                    assert(s[b - 1].0 >= s[k as int].0 || b - 1 == k);
                }
            }
            assert(s == old(self)@);
            assert(x == (priority, name@, panel));
            let kk = k as int;
            assert forall|e: (u8, Seq<char>, P)|
                self@.contains(e) <==> (e == (priority, name@, panel) || old(self)@.contains(e)) by {
                if self@.contains(e) && e != x {
                    let j = choose|j: int| 0 <= j < self@.len() && self@[j] == e;
                    if j < kk {
                        assert(s[j] == e);
                    } else if j > kk {
                        assert(s[j - 1] == e);
                    }
                }
                if e == x {
                    assert(self@[kk] == e);
                }
                if s.contains(e) {
                    let j = choose|j: int| 0 <= j < s.len() && s[j] == e;
                    if j < kk {
                        assert(self@[j] == e);
                    } else {
                        assert(self@[j + 1] == e);
                    }
                }
            }
        }
    }

    /// Adds `panel` under `name` with `priority`. An entry that already has
    /// that name or that priority is replaced: the last writer wins.
    pub fn add_panel(&mut self, panel: P, priority: u8, name: &str)
        requires
            old(self).wf(),
        ensures
            final(self).wf(),
            forall|e: (u8, Seq<char>, P)|
                final(self)@.contains(e) <==> (e == (priority, name@, panel) || (old(self)@.contains(e)
                    && e.0 != priority && e.1 != name@)),
            (forall|j: int|
                0 <= j < old(self)@.len() ==> old(self)@[j].0 != priority && old(self)@[j].1
                    != name@) ==> final(self)@.len() == old(self)@.len() + 1,
    {
        let ghost s = self@;
        self.drop_name(name);
        self.drop_priority(priority);
        proof {
            if forall|j: int| 0 <= j < s.len() ==> s[j].0 != priority && s[j].1 != name@ {
                assert(!exists|j: int| 0 <= j < s.len() && s[j].1 == name@);
                assert(self@ == s);
            }
            assert forall|j: int| 0 <= j < self@.len() implies self@[j].0 != priority
                && self@[j].1 != name@ by {
                assert(self@.contains(self@[j]));
            }
        }
        self.insert_sorted(priority, owned(name), panel);
    }

    /// Rewrites the priorities to 0, 1, 2, ... keeping names, panels and order.
    fn renumber(&mut self)
        requires
            old(self)@.len() <= 256,
        ensures
            final(self)@ == normalized(old(self)@),
    {
        let ghost s = self@;
        let n = self.entries.len();
        let mut i: usize = 0;
        while i < n
            invariant
                n == s.len(),
                n <= 256,
                i <= n,
                self@.len() == n,
                self.entries@.len() == n,
                forall|k: int| 0 <= k < i ==> self@[k] == normalized(s)[k],
                forall|k: int| i <= k < n ==> self@[k] == s[k],
            decreases n - i,
        {
            let ghost before = self@;
            let e = self.entries.remove(i);
            self.entries.insert(i, StackEntry { priority: i as u8, name: e.name, panel: e.panel });
            proof {
                assert forall|k: int| 0 <= k < n implies self@[k] == (if k == i {
                    normalized(s)[k]
                } else {
                    before[k]
                }) by {
                    self.lemma_view_index(k);
                }
            }
            i += 1;
        }
        assert(self@ =~= normalized(s));
    }

    /// Rewrites the priorities to the dense range 0..n, keeping the order, the
    /// names and the panels.
    pub fn normalize_priorities(&mut self)
        requires
            old(self).wf(),
        ensures
            final(self).wf(),
            final(self)@ == normalized(old(self)@),
            is_dense(final(self)@),
    {
        proof {
            if self@.len() > 0 {
                lemma_priority_at_least_index(self@, 0);
            }
        }
        self.renumber();
    }

    /// Gives the panel named `name` the priority `new_priority`. Nothing
    /// changes when there is no such panel or another panel holds that priority.
    pub fn set_panel_priority_by_name(&mut self, new_priority: u8, name: &str)
        requires
            old(self).wf(),
        ensures
            final(self).wf(),
            (forall|j: int| 0 <= j < old(self)@.len() ==> old(self)@[j].1 != name@)
                ==> final(self)@ == old(self)@,
            (exists|j: int| 0 <= j < old(self)@.len() && old(self)@[j].0 == new_priority)
                ==> final(self)@ == old(self)@,
            forall|i: int|
                0 <= i < old(self)@.len() && old(self)@[i].1 == name@ && (forall|j: int|
                    0 <= j < old(self)@.len() ==> old(self)@[j].0 != new_priority) ==> forall|
                    e: (u8, Seq<char>, P),
                | final(self)@.contains(e) <==> (e == (new_priority, name@, old(self)@[i].2) || (
                    old(self)@.contains(e) && e.1 != name@)),
    {
        let ghost s = self@;
        let i = match self.position_of_name(name) {
            Some(i) => i,
            None => return ,
        };
        if self.position_of_priority(new_priority).is_some() {
            return ;
        }
        proof {
            self.lemma_view_index(i as int);
        }
        let (panel, n) = self.take_at(i);
        proof {
            lemma_remove_contains(s, i as int);
            assert forall|j: int| 0 <= j < self@.len() implies self@[j].0 != new_priority
                && self@[j].1 != n@ by {
                assert(self@.contains(self@[j]));
                if j < i {
                    assert(s[j].1 != s[i as int].1);
                } else {
                    assert(s[j + 1] == self@[j]);
                    assert(s[i as int].1 != s[j + 1].1);
                }
            }
        }
        self.insert_sorted(new_priority, n, panel);
        proof {
            assert forall|k: int| 0 <= k < s.len() && s[k].1 == name@ implies k == i by {
                if k < i {
                    assert(s[k].1 != s[i as int].1);
                } else if k > i {
                    assert(s[i as int].1 != s[k].1);
                }
            }
            assert forall|e: (u8, Seq<char>, P)|
                s.remove(i as int).contains(e) <==> (s.contains(e) && e.1 != name@) by {
                if s.contains(e) && e.1 != name@ {
                    let j = choose|j: int| 0 <= j < s.len() && s[j] == e;
                    assert(j != i);
                }
            }
        }
    }

    /// Puts `panel` on top of the stack under `name`, replacing a panel of
    /// that name: at one above the highest priority (1 on an empty stack),
    /// the others untouched. When 255 is taken, the priorities are made
    /// dense first. Only a stack that already holds 256 other panels has no
    /// room: it is left as it is.
    pub fn add_panel_on_top(&mut self, panel: P, name: &str) -> (r: bool)
        requires
            old(self).wf(),
        ensures
            final(self).wf(),
            r == (drop_named(old(self)@, name@).len() < 256),
            r ==> final(self)@ == placed_on_top(old(self)@, name@, panel),
            !r ==> final(self)@ == old(self)@,
    {
        proof {
            if self@.len() > 0 {
                lemma_priority_at_least_index(self@, 0);
            }
        }
        if self.entries.len() >= 256 && self.position_of_name(name).is_none() {
            proof {
                assert(!(exists|i: int| 0 <= i < self@.len() && self@[i].1 == name@));
            }
            return false;
        }
        let ghost s = self@;
        self.drop_name(name);
        let ghost d = self@;
        proof {
            assert forall|j: int| 0 <= j < d.len() implies d[j].1 != name@ by {
                assert(d.contains(d[j]));
            }
            if exists|i: int| 0 <= i < s.len() && s[i].1 == name@ {
                assert(d.len() == s.len() - 1);
            } else {
                assert(d == s);
            }
        }
        let n = self.entries.len();
        let highest = self.get_highest_priority();
        if n == 0 || highest < 255 {
            let top: u8 = if n == 0 {
                1
            } else {
                highest + 1
            };
            let ghost before = self.entries@;
            self.entries.push(StackEntry { priority: top, name: owned(name), panel });
            proof {
                let goal = d.push((top, name@, panel));
                assert forall|k: int| 0 <= k < goal.len() implies self@[k] == goal[k] by {
                    self.lemma_view_index(k);
                    if k < d.len() {
                        assert(self.entries@[k] == before[k]);
                    }
                }
                assert(self@ =~= goal);
                assert forall|a: int, b: int| 0 <= a < b < self@.len() implies self@[a].0
                    < self@[b].0 && self@[a].1 != self@[b].1 by {
                    if b < d.len() {
                        assert(d[a].0 < d[b].0);
                        assert(d[a].1 != d[b].1);
                    } else if n > 0 {
                        assert(d[a].0 <= d.last().0) by {
                            if a < d.len() - 1 {
                                assert(d[a].0 < d[d.len() - 1].0);
                            }
                        }
                    }
                }
            }
            return true;
        }
        self.renumber();
        let ghost mid = self@;
        let ghost mid_entries = self.entries@;
        proof {
            assert(self@.len() == d.len());
        }
        let top = self.entries.len() as u8;
        self.entries.push(StackEntry { priority: top, name: owned(name), panel });
        proof {
            assert(self.entries@.len() == d.len() + 1);
            let x = (0u8, name@, panel);
            let goal = normalized(d.push(x));
            assert forall|k: int| 0 <= k < goal.len() implies self@[k] == goal[k] by {
                self.lemma_view_index(k);
                if k < d.len() {
                    assert(self.entries@[k] == mid_entries[k]);
                    assert(mid[k] == (mid_entries[k].priority, mid_entries[k].name@, mid_entries[k].panel));
                    assert(mid[k] == normalized(d)[k]);
                }
            }
            assert(self@ =~= goal);
            assert forall|a: int, b: int| 0 <= a < b < self@.len() implies self@[a].1 != self@[b].1 by {
                if b < d.len() {
                    assert(d[a].1 != d[b].1);
                }
            }
        }
        true
    }

    /// The priority of entry `i`.
    pub fn priority_at(&self, i: usize) -> (r: u8)
        requires
            i < self@.len(),
        ensures
            r == self@[i as int].0,
    {
        proof {
            self.lemma_view_index(i as int);
        }
        self.entries[i].priority
    }

    /// The name of entry `i`.
    pub fn name_at(&self, i: usize) -> (r: &String)
        requires
            i < self@.len(),
        ensures
            r@ == self@[i as int].1,
    {
        proof {
            self.lemma_view_index(i as int);
        }
        &self.entries[i].name
    }

    /// Mutable access to the panel of entry `i`; the layout stays as it is.
    pub fn panel_mut_at(&mut self, i: usize) -> (r: &mut P)
        requires
            i < old(self)@.len(),
        ensures
            *r == old(self)@[i as int].2,
            final(self)@ == old(self)@.update(
                i as int,
                (old(self)@[i as int].0, old(self)@[i as int].1, *final(r)),
            ),
    {
        proof {
            self.lemma_view_index(i as int);
        }
        &mut self.entries[i].panel
    }

    /// The panel named `name`, if there is one.
    pub fn get_panel_ref_by_name(&self, name: &str) -> (r: Option<&P>)
        ensures
            match r {
                Some(p) => exists|i: int|
                    0 <= i < self@.len() && self@[i].1 == name@ && self@[i].2 == *p,
                None => forall|j: int| 0 <= j < self@.len() ==> self@[j].1 != name@,
            },
    {
        match self.position_of_name(name) {
            Some(i) => {
                proof {
                    self.lemma_view_index(i as int);
                }
                Some(&self.entries[i].panel)
            },
            None => None,
        }
    }

    /// The panels from the lowest priority to the highest: the order in which
    /// they are drawn.
    pub fn iter(&self) -> (r: Vec<&P>)
        ensures
            r@.len() == self@.len(),
            forall|k: int| 0 <= k < r@.len() ==> *r@[k] == self@[k].2,
    {
        let mut out: Vec<&P> = Vec::new();
        let mut i: usize = 0;
        while i < self.entries.len()
            invariant
                i <= self.entries@.len(),
                self@.len() == self.entries@.len(),
                out@.len() == i,
                forall|k: int| 0 <= k < i ==> *out@[k] == self@[k].2,
            decreases self.entries@.len() - i,
        {
            proof {
                self.lemma_view_index(i as int);
            }
            out.push(&self.entries[i].panel);
            i += 1;
        }
        out
    }

    /// The panels from the highest priority to the lowest: the order in which
    /// they are offered a key press.
    pub fn iter_rev(&self) -> (r: Vec<&P>)
        ensures
            r@.len() == self@.len(),
            forall|k: int| 0 <= k < r@.len() ==> *r@[k] == self@[self@.len() - 1 - k].2,
    {
        let mut out: Vec<&P> = Vec::new();
        let n = self.entries.len();
        let mut i: usize = 0;
        while i < n
            invariant
                n == self.entries@.len(),
                i <= n,
                self@.len() == n,
                out@.len() == i,
                forall|k: int| 0 <= k < i ==> *out@[k] == self@[n - 1 - k].2,
            decreases n - i,
        {
            proof {
                self.lemma_view_index(n - 1 - i);
            }
            out.push(&self.entries[n - 1 - i].panel);
            i += 1;
        }
        out
    }

    /// The panels with their priorities, lowest first.
    pub fn iter_with_priority(&self) -> (r: Vec<(u8, &P)>)
        ensures
            r@.len() == self@.len(),
            forall|k: int| 0 <= k < r@.len() ==> r@[k].0 == self@[k].0 && *r@[k].1 == self@[k].2,
    {
        let mut out: Vec<(u8, &P)> = Vec::new();
        let mut i: usize = 0;
        while i < self.entries.len()
            invariant
                i <= self.entries@.len(),
                self@.len() == self.entries@.len(),
                out@.len() == i,
                forall|k: int| 0 <= k < i ==> out@[k].0 == self@[k].0 && *out@[k].1 == self@[k].2,
            decreases self.entries@.len() - i,
        {
            proof {
                self.lemma_view_index(i as int);
            }
            out.push((self.entries[i].priority, &self.entries[i].panel));
            i += 1;
        }
        out
    }

    /// The panel of entry `i`.
    pub fn panel_at(&self, i: usize) -> (r: &P)
        requires
            i < self@.len(),
        ensures
            *r == self@[i as int].2,
    {
        proof {
            self.lemma_view_index(i as int);
        }
        &self.entries[i].panel
    }
}

impl<P: PanelElement> UiStack<P> {
    /// Tells the panel at `i` whether it has the focus; only that panel may change.
    fn set_focus_at(&mut self, i: usize, state: bool) -> (r: bool)
        requires
            old(self).wf(),
            i < old(self)@.len(),
        ensures
            final(self).wf(),
            final(self)@.len() == old(self)@.len(),
            stack_layout(final(self)@) == stack_layout(old(self)@),
            forall|k: int|
                0 <= k < old(self)@.len() ==> final(self)@[k].0 == old(self)@[k].0
                    && final(self)@[k].1 == old(self)@[k].1,
            forall|k: int| 0 <= k < old(self)@.len() && k != i ==> final(self)@[k] == old(self)@[k],
            r == (!state || old(self)@[i as int].2.accepts_focus()),
            r ==> final(self)@[i as int].2.in_focus() == state,
    {
        let ghost s = self@;
        proof {
            self.lemma_view_index(i as int);
        }
        let mut e = self.entries.remove(i);
        let r = e.panel.set_focus(state);
        self.entries.insert(i, e);
        proof {
            assert forall|k: int| 0 <= k < s.len() implies self@[k].0 == s[k].0 && self@[k].1
                == s[k].1 && (k != i ==> self@[k] == s[k]) by {
                self.lemma_view_index(k);
            }
            assert(stack_layout(self@) =~= stack_layout(s));
            assert forall|a: int, b: int| 0 <= a < b < self@.len() implies self@[a].0 < self@[b].0
                && self@[a].1 != self@[b].1 by {
                assert(self@[a].0 == s[a].0 && self@[a].1 == s[a].1);
                assert(self@[b].0 == s[b].0 && self@[b].1 == s[b].1);
            }
        }
        r
    }

    /// Brings the panel named `name` to the front: it is asked to take the
    /// focus and, when it accepts, the former top panel loses the focus, the
    /// named panel goes on top and the priorities become dense again.
    pub fn select_panel(&mut self, name: &str) -> (r: bool)
        requires
            old(self).wf(),
        ensures
            final(self).wf(),
            r == stack_accepts(old(self)@, name@),
            select_outcome(old(self)@, name@, final(self)@, r),
            (forall|j: int| 0 <= j < old(self)@.len() ==> old(self)@[j].1 != name@) ==> !r
                && final(self)@ == old(self)@,
    {
        let ghost s = self@;
        let i = match self.position_of_name(name) {
            Some(i) => i,
            None => return false,
        };
        proof {
            assert forall|j: int| 0 <= j < s.len() && s[j].1 == name@ implies j == i by {
                if j < i {
                    assert(s[j].1 != s[i as int].1);
                } else if j > i {
                    assert(s[i as int].1 != s[j].1);
                }
            }
        }
        if !self.set_focus_at(i, true) {
            return false;
        }
        let n = self.entries.len();
        let ghost focused = self@;
        if i != n - 1 {
            self.set_focus_at(n - 1, false);
        }
        let ghost defocused = self@;
        let ghost moved = moved_to_top(defocused, i as int);
        let e = self.entries.remove(i);
        self.entries.push(e);
        proof {
            lemma_priority_at_least_index(s, 0);
            assert forall|k: int| 0 <= k < n implies self@[k] == moved[k] by {
                self.lemma_view_index(k);
                self.lemma_view_index(n - 1);
            }
            assert(self@ =~= moved);
        }
        self.renumber();
        proof {
            let m = moved_to_top(s, i as int);
            assert forall|k: int| 0 <= k < n implies moved[k].1 == m[k].1 by {
                if k < i {
                    assert(moved[k] == defocused[k]);
                } else if k < n - 1 {
                    assert(moved[k] == defocused[k + 1]);
                } else {
                    assert(moved[k] == defocused[i as int]);
                }
            }
            assert(stack_layout(self@) =~= stack_layout(normalized(m)));
            let kept = if i == n - 1 {
                n - 1
            } else {
                n - 2
            };
            assert forall|k: int| 0 <= k < kept implies self@[k].2 == m[k].2 by {
                if k < i {
                    assert(moved[k] == defocused[k]);
                    assert(m[k] == s[k]);
                } else {
                    assert(moved[k] == defocused[k + 1]);
                    assert(m[k] == s[k + 1]);
                }
            }
            assert(self@[n - 1].2 == moved[n - 1].2);
            assert(moved[n - 1] == defocused[i as int]);
            if i != n - 1 {
                assert(self@[n - 2].2 == moved[n - 2].2);
                assert(moved[n - 2] == defocused[n - 1]);
            }
            assert(selected_from(s, i as int, self@));
            assert forall|a: int, b: int| 0 <= a < b < n implies self@[a].1 != self@[b].1 by {
                assert(self@[a].1 == m[a].1);
                assert(self@[b].1 == m[b].1);
                if b == n - 1 {
                    if a < i {
                        assert(s[a].1 != s[i as int].1);
                    } else {
                        assert(s[i as int].1 != s[a + 1].1);
                    }
                } else if a < i && b >= i {
                    assert(s[a].1 != s[b + 1].1);
                } else if a >= i {
                    assert(s[a + 1].1 != s[b + 1].1);
                }
            }
        }
        true
    }

    /// Hands `data` to the panel named `name`: `None` when there is no such
    /// panel, else whether the panel took the data. Only that panel may change.
    pub fn update_panel_by_name(&mut self, name: &str, data: P::Payload) -> (r: Option<bool>)
        requires
            old(self).wf(),
        ensures
            final(self).wf(),
            final(self)@.len() == old(self)@.len(),
            stack_layout(final(self)@) == stack_layout(old(self)@),
            forall|k: int|
                0 <= k < old(self)@.len() && old(self)@[k].1 != name@ ==> final(self)@[k] == old(self)@[k],
            r is None <==> forall|j: int| 0 <= j < old(self)@.len() ==> old(self)@[j].1 != name@,
            r is None ==> final(self)@ == old(self)@,
            forall|i: int|
                0 <= i < old(self)@.len() && old(self)@[i].1 == name@ ==> r == Some(
                    old(self)@[i].2.accepts_data(data),
                ) && (r == Some(true) ==> final(self)@[i].2.shows(data)),
    {
        let i = match self.position_of_name(name) {
            Some(i) => i,
            None => return None,
        };
        let ghost s = self@;
        proof {
            self.lemma_view_index(i as int);
            assert forall|j: int| 0 <= j < s.len() && s[j].1 == name@ implies j == i by {
                if j < i {
                    assert(s[j].1 != s[i as int].1);
                } else if j > i {
                    assert(s[i as int].1 != s[j].1);
                }
            }
        }
        let mut e = self.entries.remove(i);
        let accepted = e.panel.update(data);
        self.entries.insert(i, e);
        proof {
            assert forall|k: int| 0 <= k < s.len() implies self@[k].0 == s[k].0 && self@[k].1
                == s[k].1 && (k != i ==> self@[k] == s[k]) by {
                self.lemma_view_index(k);
            }
            assert(stack_layout(self@) =~= stack_layout(s));
            assert forall|a: int, b: int| 0 <= a < b < self@.len() implies self@[a].0 < self@[b].0
                && self@[a].1 != self@[b].1 by {
                assert(self@[a].0 == s[a].0 && self@[a].1 == s[a].1);
                assert(self@[b].0 == s[b].0 && self@[b].1 == s[b].1);
            }
        }
        Some(accepted)
    }

    /// Offers a key press to the panels from the top down, stopping at the
    /// first that consumes it; `true` when one did. The layout is unchanged.
    pub fn dispatch_input(&mut self, key_event: KeyInput) -> (r: bool)
        requires
            old(self).wf(),
        ensures
            final(self).wf(),
            final(self)@.len() == old(self)@.len(),
            stack_layout(final(self)@) == stack_layout(old(self)@),
            r == stack_takes_key(old(self)@, key_event),
            forall|k: int|
                0 <= k < old(self)@.len() && (exists|j: int|
                    k < j < old(self)@.len() && old(self)@[j].2.takes_key(key_event))
                    ==> final(self)@[k] == old(self)@[k],
    {
        let n = self.entries.len();
        let ghost s = self@;
        let mut i: usize = n;
        while i > 0
            invariant
                i <= n,
                n == s.len(),
                s == old(self)@,
                self.wf(),
                self@.len() == n,
                stack_layout(self@) == stack_layout(s),
                forall|k: int| i <= k < n ==> !s[k].2.takes_key(key_event),
                forall|k: int| 0 <= k < i ==> self@[k] == s[k],
            decreases i,
        {
            i -= 1;
            let ghost before = self@;
            proof {
                self.lemma_view_index(i as int);
            }
            let mut e = self.entries.remove(i);
            let consumed = e.panel.handle_input(key_event);
            self.entries.insert(i, e);
            proof {
                assert forall|k: int| 0 <= k < n implies self@[k].0 == before[k].0 && self@[k].1
                    == before[k].1 by {
                    self.lemma_view_index(k);
                }
                assert(self@.len() == n);
                assert forall|k: int| 0 <= k < i implies self@[k] == before[k] by {
                    self.lemma_view_index(k);
                }
                assert(stack_layout(self@) =~= stack_layout(before));
                assert forall|a: int, b: int| 0 <= a < b < self@.len() implies self@[a].0
                    < self@[b].0 && self@[a].1 != self@[b].1 by {
                    assert(self@[a].0 == before[a].0 && self@[a].1 == before[a].1);
                    assert(self@[b].0 == before[b].0 && self@[b].1 == before[b].1);
                }
            }
            if consumed {
                proof {
                    assert(s[i as int].2.takes_key(key_event));
                    assert forall|k: int|
                        0 <= k < n && (exists|j: int| k < j < n && s[j].2.takes_key(key_event))
                            implies self@[k] == s[k] by {
                        let j = choose|j: int| k < j < n && s[j].2.takes_key(key_event);
                        assert(j <= i);
                    }
                }
                return true;
            }
        }
        false
    }

    /// Removes every panel that asks to quit and hands them out; the others
    /// stay in order.
    pub fn remove_quitting_panels(&mut self) -> (r: Vec<(P, String)>)
        requires
            old(self).wf(),
        ensures
            final(self).wf(),
            final(self)@ == not_quitting(old(self)@),
            r@.len() + final(self)@.len() == old(self)@.len(),
    {
        let ghost s = self@;
        let mut removed: Vec<(P, String)> = Vec::new();
        let mut i: usize = 0;
        let ghost mut seen: int = 0;
        while i < self.entries.len()
            invariant
                self.wf(),
                i <= self@.len(),
                0 <= seen <= s.len(),
                self@.len() - i == s.len() - seen,
                removed@.len() + i == seen,
                self@.subrange(0, i as int) == not_quitting(s.subrange(0, seen)),
                self@.subrange(i as int, self@.len() as int) == s.subrange(seen, s.len() as int),
            decreases self@.len() - i,
        {
            proof {
                self.lemma_view_index(i as int);
            }
            let ghost before = self@;
            if self.entries[i].panel.wants_to_quit() {
                let gone = self.take_at(i);
                removed.push(gone);
                proof {
                    assert(before[i as int] == s[seen]) by {
                        assert(before.subrange(i as int, before.len() as int)[0] == before[i as int]);
                        assert(s.subrange(seen, s.len() as int)[0] == s[seen]);
                    }
                    assert(s.subrange(0, seen + 1).drop_last() =~= s.subrange(0, seen));
                    assert(s.subrange(0, seen + 1).last() == s[seen]);
                    reveal(Seq::filter);
                    assert(not_quitting(s.subrange(0, seen + 1)) == not_quitting(s.subrange(0, seen)));
                    assert(self@.subrange(0, i as int) =~= before.subrange(0, i as int));
                    assert forall|t: int| 0 <= t < self@.len() - i implies #[trigger] self@.subrange(
                        i as int,
                        self@.len() as int,
                    )[t] == s.subrange(seen + 1, s.len() as int)[t] by {
                        assert(before.subrange(i as int, before.len() as int)[t + 1] == before[i + t
                            + 1]);
                        assert(s.subrange(seen, s.len() as int)[t + 1] == s[seen + t + 1]);
                    }
                    assert(self@.subrange(i as int, self@.len() as int) =~= s.subrange(
                        seen + 1,
                        s.len() as int,
                    ));
                    seen = seen + 1;
                }
            } else {
                i += 1;
                proof {
                    assert(s.subrange(0, seen + 1) =~= s.subrange(0, seen).push(s[seen]));
                    assert(s.subrange(0, seen + 1).drop_last() =~= s.subrange(0, seen));
                    reveal(Seq::filter);
                    assert(self@.subrange(0, i as int) =~= before.subrange(0, i - 1).push(before[i - 1]));
                    assert(before[i - 1] == s[seen]) by {
                        assert(before.subrange(i - 1, before.len() as int)[0] == before[i - 1]);
                        assert(s.subrange(seen, s.len() as int)[0] == s[seen]);
                    }
                    assert(s.subrange(0, seen + 1).last() == s[seen]);
                    assert(not_quitting(s.subrange(0, seen + 1)) == not_quitting(
                        s.subrange(0, seen),
                    ).push(s[seen]));
                    assert forall|t: int| 0 <= t < self@.len() - i implies #[trigger] self@.subrange(
                        i as int,
                        self@.len() as int,
                    )[t] == s.subrange(seen + 1, s.len() as int)[t] by {
                        assert(before.subrange(i - 1, before.len() as int)[t + 1] == before[i + t]);
                        assert(s.subrange(seen, s.len() as int)[t + 1] == s[seen + t + 1]);
                    }
                    assert(self@.subrange(i as int, self@.len() as int) =~= s.subrange(
                        seen + 1,
                        s.len() as int,
                    ));
                    seen = seen + 1;
                }
            }
        }
        proof {
            assert(s.subrange(seen, s.len() as int).len() == 0);
            assert(s.subrange(0, seen) =~= s);
            assert(self@ =~= self@.subrange(0, i as int));
        }
        removed
    }
}

/// No two live panels share a priority, and the name index gives each live
/// name the priority of its own entry. Every operation on a stack keeps it
/// well formed, so this holds after any sequence of them.
pub proof fn lemma_priorities_unique<P>(s: &UiStack<P>)
    requires
        s.wf(),
    ensures
        forall|i: int, j: int|
            0 <= i < s@.len() && 0 <= j < s@.len() && i != j ==> s@[i].0 != s@[j].0,
        forall|i: int| 0 <= i < s@.len() ==> priority_of_name(s@, s@[i].1) == Some(s@[i].0),
{
    let v = s@;
    assert forall|i: int, j: int| 0 <= i < v.len() && 0 <= j < v.len() && i != j implies v[i].0
        != v[j].0 by {
        if i < j {
            assert(v[i].0 < v[j].0);
        } else {
            assert(v[j].0 < v[i].0);
        }
    }
    assert forall|i: int| 0 <= i < v.len() implies priority_of_name(v, v[i].1) == Some(v[i].0) by {
        let j = choose|j: int| 0 <= j < v.len() && v[j].1 == v[i].1;
        if j < i {
            assert(v[j].1 != v[i].1);
        } else if j > i {
            assert(v[i].1 != v[j].1);
        }
    }
}

proof fn lemma_selected_top<P: PanelElement>(a: StackView<P>, name: Seq<char>, b: StackView<P>)
    requires
        stack_wf(a),
        a.len() > 0,
        a.last().1 == name,
        select_outcome(a, name, b, true),
    ensures
        b.len() == a.len(),
        forall|k: int| 0 <= k < a.len() ==> b[k].0 as int == k && b[k].1 == a[k].1,
{
    let n = a.len() as int;
    let i = choose|i: int| 0 <= i < a.len() && a[i].1 == name && selected_from(a, i, b);
    assert(i == n - 1) by {
        if i < n - 1 {
            assert(a[i].1 != a[n - 1].1);
        }
    }
    assert(moved_to_top(a, i) =~= a);
    lemma_priority_at_least_index(a, 0);
    assert forall|k: int| 0 <= k < n implies b[k].0 as int == k && b[k].1 == a[k].1 by {
        assert(stack_layout(b)[k] == stack_layout(normalized(a))[k]);
    }
}

/// Selecting the panel that is already on top a second time leaves the
/// layout (priorities and names) that the first selection left, unless the
/// panel refused the focus the first time and took it the second.
pub proof fn lemma_select_top_twice<P: PanelElement>(
    a: StackView<P>,
    b: StackView<P>,
    c: StackView<P>,
    name: Seq<char>,
    first: bool,
    second: bool,
)
    requires
        stack_wf(a),
        stack_wf(b),
        a.len() > 0,
        a.last().1 == name,
        select_outcome(a, name, b, first),
        select_outcome(b, name, c, second),
        first || !second,
    ensures
        stack_layout(c) == stack_layout(b),
{
    if second {
        lemma_selected_top(a, name, b);
        let n = a.len() as int;
        assert(b.last().1 == name);
        lemma_selected_top(b, name, c);
        assert forall|k: int| 0 <= k < n implies stack_layout(c)[k] == stack_layout(b)[k] by {
            assert(c[k].0 as int == k);
        }
        assert(stack_layout(c) =~= stack_layout(b));
    }
}

proof fn lemma_filter_from<A>(s: Seq<A>, pred: spec_fn(A) -> bool)
    ensures
        forall|i: int|
            0 <= i < s.filter(pred).len() ==> pred(s.filter(pred)[i]) && s.contains(
                #[trigger] s.filter(pred)[i],
            ),
    decreases s.len(),
{
    reveal(Seq::filter);
    if s.len() > 0 {
        let rest = s.drop_last();
        lemma_filter_from(rest, pred);
        let out = s.filter(pred);
        assert forall|i: int| 0 <= i < out.len() implies pred(out[i]) && s.contains(out[i]) by {
            if i < rest.filter(pred).len() {
                assert(out[i] == rest.filter(pred)[i]);
                let m = choose|m: int| 0 <= m < rest.len() && rest[m] == out[i];
                assert(s[m] == out[i]);
            } else {
                assert(out[i] == s.last());
                assert(s[s.len() - 1] == out[i]);
            }
        }
    }
}

/// A panel that asks to quit is gone once the quitting panels are removed,
/// and no surviving panel carries its name, so the name is free again.
pub proof fn lemma_quitting_panel_reaped<P: PanelElement>(s: StackView<P>, k: int)
    requires
        stack_wf(s),
        0 <= k < s.len(),
        s[k].2.quitting(),
    ensures
        !not_quitting(s).contains(s[k]),
        forall|j: int| 0 <= j < not_quitting(s).len() ==> not_quitting(s)[j].1 != s[k].1,
{
    let pred = |e: (u8, Seq<char>, P)| !e.2.quitting();
    lemma_filter_from(s, pred);
    let t = not_quitting(s);
    assert(t == s.filter(pred));
    assert forall|j: int| 0 <= j < t.len() implies t[j].1 != s[k].1 by {
        assert(pred(t[j]));
        assert(s.contains(t[j]));
        let m = choose|m: int| 0 <= m < s.len() && s[m] == t[j];
        if m < k {
            assert(s[m].1 != s[k].1);
        } else if m > k {
            assert(s[k].1 != s[m].1);
        }
    }
}

/// After the quitting panels are removed, none of the survivors asks to
/// quit, and no survivor carries the name of a removed panel.
pub proof fn lemma_reaped_stack<P: PanelElement>(s: StackView<P>)
    requires
        stack_wf(s),
    ensures
        forall|j: int| 0 <= j < not_quitting(s).len() ==> !(#[trigger] not_quitting(s)[j]).2.quitting(),
        forall|k: int, j: int|
            0 <= k < s.len() && s[k].2.quitting() && 0 <= j < not_quitting(s).len()
                ==> not_quitting(s)[j].1 != s[k].1,
{
    let pred = |e: (u8, Seq<char>, P)| !e.2.quitting();
    lemma_filter_from(s, pred);
    assert(not_quitting(s) == s.filter(pred));
    assert forall|k: int, j: int|
        0 <= k < s.len() && s[k].2.quitting() && 0 <= j < not_quitting(s).len()
            implies not_quitting(s)[j].1 != s[k].1 by {
        lemma_quitting_panel_reaped(s, k);
    }
}

/// Selecting a panel, whether it takes the focus or not, keeps the set of
/// live names and their number: it only reorders and renumbers them.
pub proof fn lemma_select_keeps_names<P: PanelElement>(
    old: StackView<P>,
    name: Seq<char>,
    new: StackView<P>,
    selected: bool,
)
    requires
        stack_wf(old),
        select_outcome(old, name, new, selected),
    ensures
        new.len() == old.len(),
        forall|n: Seq<char>|
            #![trigger stack_names(old).contains(n)]
            #![trigger stack_names(new).contains(n)]
            stack_names(old).contains(n) <==> stack_names(new).contains(n),
{
    if selected {
        let i = choose|i: int| 0 <= i < old.len() && old[i].1 == name && selected_from(old, i, new);
        let moved = moved_to_top(old, i);
        let n = old.len() as int;
        lemma_priority_at_least_index(old, 0);
        assert forall|k: int| 0 <= k < n implies new[k].1 == moved[k].1 by {
            assert(stack_layout(new)[k] == stack_layout(normalized(moved))[k]);
        }
        assert forall|m: Seq<char>|
            stack_names(old).contains(m) <==> stack_names(new).contains(m) by {
            if stack_names(old).contains(m) {
                let a = choose|a: int| 0 <= a < n && stack_names(old)[a] == m;
                assert(old[a].1 == m);
            }
            if stack_names(new).contains(m) {
                let b = choose|b: int| 0 <= b < n && stack_names(new)[b] == m;
                assert(new[b].1 == m);
            }
            if exists|a: int| 0 <= a < n && old[a].1 == m {
                let a = choose|a: int| 0 <= a < n && old[a].1 == m;
                if a < i {
                    assert(stack_names(new)[a] == m);
                } else if a == i {
                    assert(stack_names(new)[n - 1] == m);
                } else {
                    assert(stack_names(new)[a - 1] == m);
                }
            }
            if exists|b: int| 0 <= b < n && new[b].1 == m {
                let b = choose|b: int| 0 <= b < n && new[b].1 == m;
                if b < i {
                    assert(stack_names(old)[b] == m);
                } else if b == n - 1 {
                    assert(stack_names(old)[i] == m);
                } else {
                    assert(stack_names(old)[b + 1] == m);
                }
            }
        }
    } else {
        assert(stack_layout(new).len() == stack_layout(old).len());
        assert forall|k: int| 0 <= k < old.len() implies new[k].1 == old[k].1 by {
            assert(stack_layout(new)[k] == stack_layout(old)[k]);
        }
        assert(new.len() == old.len());
        assert(stack_names(new) =~= stack_names(old));
    }
}

} // verus!
