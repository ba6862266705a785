use vstd::prelude::*;

use crate::text::str_equal;

verus! {

/// The remote last chosen for each local repository root.
pub struct State {
    repository_state: Vec<(String, String)>,
}

/// The remote recorded for `root` by a list of `repo` records, the last
/// record for a root winning. A record is a node name and its values; only
/// nodes named `repo` with at least two values count.
pub open spec fn recorded_remote(records: Seq<(String, Vec<String>)>, root: Seq<char>) -> Option<
    Seq<char>,
>
    decreases records.len(),
{
    if records.len() == 0 {
        None
    } else {
        let last = records.last();
        if last.0@ == "repo"@ && last.1@.len() >= 2 && last.1@[0]@ == root {
            Some(last.1@[1]@)
        } else {
            recorded_remote(records.drop_last(), root)
        }
    }
}

impl State {
    /// Each repository root is recorded once.
    pub closed spec fn wf(&self) -> bool {
        forall|i: int, j: int|
            0 <= i < j < self.repository_state@.len() ==> self.repository_state@[i].0@
                != self.repository_state@[j].0@
    }

    /// The remote recorded for `root`.
    pub closed spec fn remote_for(&self, root: Seq<char>) -> Option<Seq<char>> {
        if exists|i: int|
            0 <= i < self.repository_state@.len() && self.repository_state@[i].0@ == root {
            let i = choose|i: int|
                0 <= i < self.repository_state@.len() && self.repository_state@[i].0@ == root;
            Some(self.repository_state@[i].1@)
        } else {
            None
        }
    }

    /// A state with no repository recorded.
    pub fn new() -> (r: Self)
        ensures
            r.wf(),
            forall|root: Seq<char>| r.remote_for(root) == None::<Seq<char>>,
    {
        State { repository_state: Vec::new() }
    }

    fn position_of_root(&self, repo_root: &str) -> (r: Option<usize>)
        ensures
            match r {
                Some(i) => i < self.repository_state@.len() && self.repository_state@[i as int].0@
                    == repo_root@,
                None => forall|j: int|
                    0 <= j < self.repository_state@.len() ==> self.repository_state@[j].0@
                        != repo_root@,
            },
    {
        let mut i: usize = 0;
        while i < self.repository_state.len()
            invariant
                i <= self.repository_state@.len(),
                forall|j: int| 0 <= j < i ==> self.repository_state@[j].0@ != repo_root@,
            decreases self.repository_state@.len() - i,
        {
            if str_equal(self.repository_state[i].0.as_str(), repo_root) {
                return Some(i);
            }
            i += 1;
        }
        None
    }

    /// The remote recorded for the repository at `repo_root`.
    pub fn get_repository_data(&self, repo_root: &str) -> (r: Option<String>)
        requires
            self.wf(),
        ensures
            match r {
                Some(s) => self.remote_for(repo_root@) == Some(s@),
                None => self.remote_for(repo_root@) == None::<Seq<char>>,
            },
    {
        match self.position_of_root(repo_root) {
            Some(i) => {
                proof {
                    let j = choose|j: int|
                        0 <= j < self.repository_state@.len() && self.repository_state@[j].0@
                            == repo_root@;
                    assert(j == i) by {
                        if j < i {
                            assert(self.repository_state@[j].0@ != self.repository_state@[i as int].0@);
                        } else if j > i {
                            assert(self.repository_state@[i as int].0@ != self.repository_state@[j].0@);
                        }
                    }
                }
                Some(self.repository_state[i].1.clone())
            },
            None => None,
        }
    }

    /// Records `active_remote` for the repository at `repo_root`.
    pub fn set_repository_data(&mut self, repo_root: String, active_remote: String)
        requires
            old(self).wf(),
        ensures
            final(self).wf(),
            final(self).remote_for(repo_root@) == Some(active_remote@),
            forall|root: Seq<char>|
                root != repo_root@ ==> final(self).remote_for(root) == old(self).remote_for(root),
    {
        let ghost s = self.repository_state@;
        match self.position_of_root(repo_root.as_str()) {
            Some(i) => {
                self.repository_state.remove(i);
                self.repository_state.insert(i, (repo_root, active_remote));
                proof {
                    let t = self.repository_state@;
                    assert(t =~= s.update(i as int, t[i as int]));
                    assert forall|a: int, b: int| 0 <= a < b < t.len() implies t[a].0@ != t[b].0@ by {
                        if a != i && b != i {
                            assert(s[a].0@ != s[b].0@);
                        } else if a == i {
                            assert(s[i as int].0@ != s[b].0@);
                        } else {
                            assert(s[a].0@ != s[i as int].0@);
                        }
                    }
                    assert forall|root: Seq<char>|
                        root != repo_root@ implies self.remote_for(root) == old(self).remote_for(
                            root,
                        ) by {
                        if exists|k: int| 0 <= k < s.len() && s[k].0@ == root {
                            let k = choose|k: int| 0 <= k < s.len() && s[k].0@ == root;
                            assert(t[k].0@ == root);
                        }
                        if exists|k: int| 0 <= k < t.len() && t[k].0@ == root {
                            let k = choose|k: int| 0 <= k < t.len() && t[k].0@ == root;
                            assert(s[k].0@ == root);
                        }
                    }
                    let j = choose|j: int| 0 <= j < t.len() && t[j].0@ == repo_root@;
                    assert(j == i) by {
                        if j != i {
                            assert(t[j].0@ == s[j].0@);
                        }
                    }
                }
            },
            None => {
                self.repository_state.push((repo_root, active_remote));
                proof {
                    let t = self.repository_state@;
                    let n = s.len() as int;
                    assert forall|root: Seq<char>|
                        root != repo_root@ implies self.remote_for(root) == old(self).remote_for(
                            root,
                        ) by {
                        if exists|k: int| 0 <= k < s.len() && s[k].0@ == root {
                            let k = choose|k: int| 0 <= k < s.len() && s[k].0@ == root;
                            assert(t[k] == s[k]);
                        }
                        if exists|k: int| 0 <= k < t.len() && t[k].0@ == root {
                            let k = choose|k: int| 0 <= k < t.len() && t[k].0@ == root;
                            assert(k != n);
                            assert(s[k] == t[k]);
                        }
                    }
                    assert(t[n].0@ == repo_root@);
                    let j = choose|j: int| 0 <= j < t.len() && t[j].0@ == repo_root@;
                    assert(j == n) by {
                        if j != n {
                            assert(t[j] == s[j]);
                        }
                    }
                }
            },
        }
    }

    /// The state described by a list of records: each node named `repo` with
    /// at least two values records its second value as the remote of its
    /// first; later records win.
    pub fn from_repo_records(records: &Vec<(String, Vec<String>)>) -> (r: Self)
        ensures
            r.wf(),
            forall|root: Seq<char>| r.remote_for(root) == recorded_remote(records@, root),
    {
        let mut state = State::new();
        let mut i: usize = 0;
        while i < records.len()
            invariant
                i <= records@.len(),
                state.wf(),
                forall|root: Seq<char>|
                    state.remote_for(root) == recorded_remote(records@.subrange(0, i as int), root),
            decreases records@.len() - i,
        {
            let ghost before = state;
            let record = &records[i];
            if str_equal(record.0.as_str(), "repo") && record.1.len() >= 2 {
                state.set_repository_data(record.1[0].clone(), record.1[1].clone());
            }
            proof {
                assert(records@.subrange(0, i + 1).drop_last() =~= records@.subrange(0, i as int));
                assert forall|root: Seq<char>|
                    state.remote_for(root) == recorded_remote(
                        records@.subrange(0, i + 1),
                        root,
                    ) by {
                    assert(records@.subrange(0, i + 1).last() == records@[i as int]);
                }
            }
            i += 1;
        }
        proof {
            assert(records@.subrange(0, records@.len() as int) =~= records@);
        }
        state
    }

    /// Every recorded root with its remote.
    pub fn records(&self) -> (r: Vec<(String, String)>)
        requires
            self.wf(),
        ensures
            forall|i: int|
                0 <= i < r@.len() ==> self.remote_for(r@[i].0@) == Some(r@[i].1@),
            forall|root: Seq<char>|
                self.remote_for(root) is Some ==> exists|i: int|
                    0 <= i < r@.len() && r@[i].0@ == root,
    {
        let mut out: Vec<(String, String)> = Vec::new();
        let mut i: usize = 0;
        while i < self.repository_state.len()
            invariant
                self.wf(),
                i <= self.repository_state@.len(),
                out@.len() == i,
                forall|k: int|
                    0 <= k < i ==> out@[k].0@ == self.repository_state@[k].0@ && out@[k].1@
                        == self.repository_state@[k].1@,
            decreases self.repository_state@.len() - i,
        {
            let entry = (self.repository_state[i].0.clone(), self.repository_state[i].1.clone());
            out.push(entry);
            i += 1;
        }
        proof {
            let s = self.repository_state@;
            assert forall|i: int| 0 <= i < out@.len() implies self.remote_for(out@[i].0@) == Some(
                out@[i].1@,
            ) by {
                let j = choose|j: int| 0 <= j < s.len() && s[j].0@ == out@[i].0@;
                assert(j == i) by {
                    if j < i {
                        assert(s[j].0@ != s[i].0@);
                    } else if j > i {
                        assert(s[i].0@ != s[j].0@);
                    }
                }
            }
            assert forall|root: Seq<char>| self.remote_for(root) is Some implies exists|i: int|
                0 <= i < out@.len() && out@[i].0@ == root by {
                let j = choose|j: int| 0 <= j < s.len() && s[j].0@ == root;
                assert(out@[j].0@ == root);
            }
        }
        out
    }
}

} // verus!
