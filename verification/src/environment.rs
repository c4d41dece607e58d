//! The variable environment: a name-to-value mapping with the lifetime of
//! one program run.
//!
//! The store keeps one entry per name, in insertion order; its model is the
//! finite map from names to value models.  Reads hand out deep copies, so no
//! aliasing survives a lookup; an assignment replaces the whole value under
//! its name.

use vstd::prelude::*;
use crate::structures::{deep_copy, ExecuteOutput, Val};

verus! {

/// The name-to-value store.  `vars` holds at most one entry per name.
pub struct Environment {
    pub vars: Vec<(String, ExecuteOutput)>,
}

/// The finite map a sequence of name/value entries stands for; a later entry
/// for the same name would win, though a well-formed store never holds two.
pub open spec fn entries_map(s: Seq<(String, ExecuteOutput)>) -> Map<Seq<char>, Val>
    decreases s,
{
    if s.len() == 0 {
        Map::empty()
    } else {
        entries_map(s.drop_last()).insert(s.last().0@, s.last().1.as_val())
    }
}

impl Environment {
    /// Well-formed: no name occurs twice.
    pub open spec fn wf(self) -> bool {
        forall|i: int, j: int|
            0 <= i < j < self.vars@.len() ==> self.vars@[i].0@ != self.vars@[j].0@
    }

    /// An empty environment, as at the start of a run.
    pub fn new() -> (r: Environment)
        ensures
            r@ == Map::<Seq<char>, Val>::empty(),
            r.wf(),
    {
        Environment { vars: Vec::new() }
    }

    /// Borrow the value stored under `name`, if any.
    #[verifier::loop_isolation(false)]
    pub fn lookup<'a>(&'a self, name: &String) -> (r: Option<&'a ExecuteOutput>)
        requires
            self.wf(),
        ensures
            match r {
                Some(v) => self@.contains_key(name@) && v@ == self@[name@],
                None => !self@.contains_key(name@),
            },
    {
        let n = self.vars.len();
        let mut i: usize = 0;
        while i < n
            invariant
                0 <= i <= n,
                n == self.vars@.len(),
                forall|j: int| 0 <= j < i ==> self.vars@[j].0@ != name@,
            decreases n - i,
        {
            if self.vars[i].0 == *name {
                proof {
                    assert forall|j: int| i < j < self.vars@.len() implies self.vars@[j].0@
                        != name@ by {
                        assert(self.vars@[i as int].0@ != self.vars@[j].0@);
                    }
                    lemma_entries_map_at(self.vars@, i as int, name@);
                }
                return Some(&self.vars[i].1);
            }
            i = i + 1;
        }
        proof {
            lemma_entries_map_absent(self.vars@, name@);
        }
        None
    }

    /// Store `value` under `name`, replacing any previous value whole.
    #[verifier::loop_isolation(false)]
    pub fn insert(&mut self, name: String, value: ExecuteOutput)
        requires
            old(self).wf(),
        ensures
            final(self).wf(),
            final(self)@ == old(self)@.insert(name@, value@),
    {
        let n = self.vars.len();
        let mut i: usize = 0;
        while i < n
            invariant
                0 <= i <= n,
                n == self.vars@.len(),
                *self == *old(self),
                forall|j: int| 0 <= j < i ==> self.vars@[j].0@ != name@,
            decreases n - i,
        {
            if self.vars[i].0 == name {
                proof {
                    lemma_entries_map_update(self.vars@, i as int, name, value);
                }
                self.vars.set(i, (name, value));
                return ;
            }
            i = i + 1;
        }
        proof {
            let pushed = self.vars@.push((name, value));
            assert(pushed.drop_last() =~= self.vars@);
            assert forall|p: int, q: int| 0 <= p < q < pushed.len() implies pushed[p].0@
                != pushed[q].0@ by {
                if q < pushed.len() - 1 {
                    assert(old(self).wf());
                }
            }
        }
        self.vars.push((name, value));
    }

    /// A full copy of the environment, sharing nothing with the original.
    #[verifier::loop_isolation(false)]
    pub fn snapshot(&self) -> (r: Environment)
        ensures
            r@ == self@,
            self.wf() ==> r.wf(),
    {
        let n = self.vars.len();
        let mut out: Vec<(String, ExecuteOutput)> = Vec::new();
        let mut i: usize = 0;
        while i < n
            invariant
                0 <= i <= n,
                n == self.vars@.len(),
                out@.len() == i,
                forall|j: int|
                    0 <= j < i ==> out@[j].0@ == self.vars@[j].0@ && out@[j].1.as_val()
                        == self.vars@[j].1.as_val(),
            decreases n - i,
        {
            let key = self.vars[i].0.clone();
            let value = deep_copy(&self.vars[i].1);
            out.push((key, value));
            i = i + 1;
        }
        let r = Environment { vars: out };
        proof {
            lemma_entries_map_congruent(r.vars@, self.vars@);
        }
        r
    }
}

impl View for Environment {
    type V = Map<Seq<char>, Val>;

    open spec fn view(&self) -> Map<Seq<char>, Val> {
        entries_map(self.vars@)
    }
}

/// If entry `i` carries `key` and no later entry does, the map holds entry
/// `i`'s value under `key`.
proof fn lemma_entries_map_at(s: Seq<(String, ExecuteOutput)>, i: int, key: Seq<char>)
    requires
        0 <= i < s.len(),
        s[i].0@ == key,
        forall|j: int| i < j < s.len() ==> s[j].0@ != key,
    ensures
        entries_map(s).contains_key(key),
        entries_map(s)[key] == s[i].1.as_val(),
    decreases s.len(),
{
    if i < s.len() - 1 {
        lemma_entries_map_at(s.drop_last(), i, key);
    }
}

/// A key no entry carries is not in the map.
proof fn lemma_entries_map_absent(s: Seq<(String, ExecuteOutput)>, key: Seq<char>)
    requires
        forall|j: int| 0 <= j < s.len() ==> s[j].0@ != key,
    ensures
        !entries_map(s).contains_key(key),
    decreases s.len(),
{
    if s.len() > 0 {
        lemma_entries_map_absent(s.drop_last(), key);
    }
}

/// Replacing the value of the one entry that carries `key` updates the map at
/// `key` alone.
proof fn lemma_entries_map_update(
    s: Seq<(String, ExecuteOutput)>,
    i: int,
    name: String,
    value: ExecuteOutput,
)
    requires
        0 <= i < s.len(),
        s[i].0@ == name@,
        forall|p: int, q: int| 0 <= p < q < s.len() ==> s[p].0@ != s[q].0@,
    ensures
        entries_map(s.update(i, (name, value))) == entries_map(s).insert(name@, value.as_val()),
    decreases s.len(),
{
    let s2 = s.update(i, (name, value));
    if i == s.len() - 1 {
        assert(s2.drop_last() =~= s.drop_last());
        assert(entries_map(s2) =~= entries_map(s).insert(name@, value.as_val()));
    } else {
        assert(s2.drop_last() =~= s.drop_last().update(i, (name, value)));
        lemma_entries_map_update(s.drop_last(), i, name, value);
        assert(entries_map(s2) =~= entries_map(s).insert(name@, value.as_val()));
    }
}

/// Two entry sequences with pairwise equal names and value models stand for
/// the same map.
proof fn lemma_entries_map_congruent(
    a: Seq<(String, ExecuteOutput)>,
    b: Seq<(String, ExecuteOutput)>,
)
    requires
        a.len() == b.len(),
        forall|j: int|
            0 <= j < a.len() ==> a[j].0@ == b[j].0@ && a[j].1.as_val() == b[j].1.as_val(),
    ensures
        entries_map(a) == entries_map(b),
    decreases a.len(),
{
    if a.len() > 0 {
        lemma_entries_map_congruent(a.drop_last(), b.drop_last());
        assert(entries_map(a) =~= entries_map(b));
    }
}

} // verus!
