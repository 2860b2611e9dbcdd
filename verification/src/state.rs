//! The program state: the value bound to each variable name.
use vstd::prelude::*;

use crate::common::Value;

verus! {

/// The bindings that a list of entries stands for; a later entry for a name
/// hides an earlier one.
pub open spec fn entries_map(s: Seq<(String, Value)>) -> Map<Seq<char>, Value>
    decreases s.len(),
{
    if s.len() == 0 {
        Map::empty()
    } else {
        entries_map(s.drop_last()).insert(s.last().0@, s.last().1)
    }
}

/// No name occurs in two entries.
pub open spec fn distinct_names(s: Seq<(String, Value)>) -> bool {
    forall|i: int, j: int| 0 <= i < s.len() && 0 <= j < s.len() && i != j ==> s[i].0@ != s[j].0@
}

proof fn lemma_entry_bound(s: Seq<(String, Value)>, i: int)
    requires
        distinct_names(s),
        0 <= i < s.len(),
    ensures
        entries_map(s).contains_key(s[i].0@),
        entries_map(s)[s[i].0@] == s[i].1,
    decreases s.len(),
{
    if i < s.len() - 1 {
        let t = s.drop_last();
        assert(t[i] == s[i]);
        assert(distinct_names(t)) by {
            assert forall|a: int, b: int| 0 <= a < t.len() && 0 <= b < t.len() && a != b implies t[a].0@ != t[b].0@ by {
                assert(t[a] == s[a] && t[b] == s[b]);
            }
        }
        lemma_entry_bound(t, i);
        assert(s.last() == s[s.len() - 1]);
    }
}

proof fn lemma_name_absent(s: Seq<(String, Value)>, k: Seq<char>)
    requires
        forall|i: int| 0 <= i < s.len() ==> s[i].0@ != k,
    ensures
        !entries_map(s).contains_key(k),
    decreases s.len(),
{
    if s.len() > 0 {
        let t = s.drop_last();
        assert forall|i: int| 0 <= i < t.len() implies t[i].0@ != k by {
            assert(t[i] == s[i]);
        }
        lemma_name_absent(t, k);
        assert(s.last() == s[s.len() - 1]);
    }
}

proof fn lemma_replace_entry(s: Seq<(String, Value)>, i: int, e: (String, Value))
    requires
        distinct_names(s),
        0 <= i < s.len(),
        e.0@ == s[i].0@,
    ensures
        entries_map(s.update(i, e)) == entries_map(s).insert(e.0@, e.1),
        distinct_names(s.update(i, e)),
    decreases s.len(),
{
    let u = s.update(i, e);
    assert(distinct_names(u)) by {
        assert forall|a: int, b: int| 0 <= a < u.len() && 0 <= b < u.len() && a != b implies u[a].0@ != u[b].0@ by {
            if a == i {
                assert(s[i].0@ != s[b].0@);
            } else if b == i {
                assert(s[a].0@ != s[i].0@);
            }
        }
    }
    let t = s.drop_last();
    if i == s.len() - 1 {
        assert(u.drop_last() =~= t);
        assert(entries_map(u) =~= entries_map(s).insert(e.0@, e.1));
    } else {
        assert(distinct_names(t)) by {
            assert forall|a: int, b: int| 0 <= a < t.len() && 0 <= b < t.len() && a != b implies t[a].0@ != t[b].0@ by {
                assert(t[a] == s[a] && t[b] == s[b]);
            }
        }
        assert(t[i] == s[i]);
        lemma_replace_entry(t, i, e);
        assert(u.drop_last() =~= t.update(i, e));
        assert(u.last() == s.last());
        assert(s.last().0@ != s[i].0@);
        assert(entries_map(u) =~= entries_map(s).insert(e.0@, e.1));
    }
}

/// The variables of a program and their values.
pub struct ProgramState {
    vars: Vec<(String, Value)>,
}

impl View for ProgramState {
    type V = Map<Seq<char>, Value>;

    closed spec fn view(&self) -> Map<Seq<char>, Value> {
        entries_map(self.vars@)
    }
}

impl ProgramState {
    /// Each name is stored once.
    pub closed spec fn wf(&self) -> bool {
        distinct_names(self.vars@)
    }

    /// A state with no variable.
    pub fn new() -> (r: ProgramState)
        ensures
            r.wf(),
            r@ == Map::<Seq<char>, Value>::empty(),
    {
        ProgramState { vars: Vec::new() }
    }

    /// The value of a variable, if it has one.
    pub fn get(&self, name: &String) -> (r: Option<Value>)
        requires
            self.wf(),
        ensures
            r == (if self@.contains_key(name@) {
                Some(self@[name@])
            } else {
                None
            }),
    {
        let n = self.vars.len();
        let mut i: usize = 0;
        while i < n
            invariant
                i <= n,
                n == self.vars@.len(),
                distinct_names(self.vars@),
                forall|j: int| 0 <= j < i ==> self.vars@[j].0@ != name@,
            decreases n - i,
        {
            if self.vars[i].0 == *name {
                proof {
                    lemma_entry_bound(self.vars@, i as int);
                }
                return Some(self.vars[i].1);
            }
            i = i + 1;
        }
        proof {
            lemma_name_absent(self.vars@, name@);
        }
        None
    }

    /// Binds `name` to `value`, replacing any earlier value.
    pub fn insert(&mut self, name: String, value: Value)
        requires
            old(self).wf(),
        ensures
            final(self).wf(),
            final(self)@ == old(self)@.insert(name@, value),
    {
        let n = self.vars.len();
        let mut i: usize = 0;
        while i < n
            invariant
                i <= n,
                n == self.vars@.len(),
                self.vars == old(self).vars,
                distinct_names(self.vars@),
                forall|j: int| 0 <= j < i ==> self.vars@[j].0@ != name@,
            decreases n - i,
        {
            if self.vars[i].0 == name {
                proof {
                    lemma_replace_entry(self.vars@, i as int, (name, value));
                }
                self.vars.set(i, (name, value));
                return;
            }
            i = i + 1;
        }
        let ghost before = self.vars@;
        self.vars.push((name, value));
        assert(self.vars@.drop_last() =~= before);
        assert(distinct_names(self.vars@)) by {
            assert forall|a: int, b: int|
                0 <= a < self.vars@.len() && 0 <= b < self.vars@.len() && a != b implies self.vars@[a].0@
                != self.vars@[b].0@ by {
                if a < n && b < n {
                    assert(self.vars@[a] == before[a] && self.vars@[b] == before[b]);
                }
            }
        }
    }
}

} // verus!
