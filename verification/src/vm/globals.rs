//! The global variables of the stack machine, by name.
use vstd::prelude::*;

use crate::compiler::chunk::{Value, ValueModel};
use crate::parser::literal::str_equal;

verus! {

/// The value of the last entry named `k`.
pub open spec fn glookup(s: Seq<(String, Value)>, k: Seq<char>) -> Option<ValueModel>
    decreases s.len(),
{
    if s.len() == 0 {
        None
    } else if s.last().0@ == k {
        Some(s.last().1@)
    } else {
        glookup(s.drop_last(), k)
    }
}

/// `i` is the last entry named `k`.
pub open spec fn last_named(s: Seq<(String, Value)>, k: Seq<char>, i: int) -> bool {
    &&& 0 <= i < s.len()
    &&& s[i].0@ == k
    &&& forall|j: int| i < j < s.len() ==> #[trigger] s[j].0@ != k
}

pub proof fn lemma_glookup_update(s: Seq<(String, Value)>, k: Seq<char>, i: int, e: (String, Value), q: Seq<char>)
    requires
        last_named(s, k, i),
        e.0@ == k,
    ensures
        glookup(s.update(i, e), q) == (if q == k { Some(e.1@) } else { glookup(s, q) }),
    decreases s.len(),
{
    let t = s.update(i, e);
    if i < s.len() - 1 {
        assert(t.drop_last() =~= s.drop_last().update(i, e));
        assert(s.last().0@ != k);
        lemma_glookup_update(s.drop_last(), k, i, e, q);
    } else {
        assert(t.drop_last() =~= s.drop_last());
    }
}

pub proof fn lemma_glookup_none(s: Seq<(String, Value)>, k: Seq<char>)
    requires
        forall|j: int| 0 <= j < s.len() ==> #[trigger] s[j].0@ != k,
    ensures
        glookup(s, k) is None,
    decreases s.len(),
{
    if s.len() > 0 {
        lemma_glookup_none(s.drop_last(), k);
    }
}

pub proof fn lemma_glookup_at(s: Seq<(String, Value)>, k: Seq<char>, i: int)
    requires
        last_named(s, k, i),
    ensures
        glookup(s, k) == Some(s[i].1@),
    decreases s.len(),
{
    if i < s.len() - 1 {
        lemma_glookup_at(s.drop_last(), k, i);
    }
}

pub struct Globals {
    entries: Vec<(String, Value)>,
}

impl View for Globals {
    type V = Map<Seq<char>, ValueModel>;

    closed spec fn view(&self) -> Map<Seq<char>, ValueModel> {
        Map::new(|k: Seq<char>| glookup(self.entries@, k) is Some, |k: Seq<char>| glookup(self.entries@, k).unwrap())
    }
}

impl Globals {
    pub fn new() -> (r: Self)
        ensures
            r@ == Map::<Seq<char>, ValueModel>::empty(),
    {
        let r = Globals { entries: Vec::new() };
        assert(r@ =~= Map::<Seq<char>, ValueModel>::empty());
        r
    }

    /// The names and values, for display.
    pub fn entries(&self) -> (r: &Vec<(String, Value)>)
        ensures
            forall|k: Seq<char>| #[trigger] self@.contains_key(k) <==> glookup(r@, k) is Some,
    {
        &self.entries
    }

    /// The last entry named `name`.
    fn find(&self, name: &str) -> (r: Option<usize>)
        ensures
            match r {
                Some(i) => last_named(self.entries@, name@, i as int),
                None => forall|j: int| 0 <= j < self.entries@.len() ==> #[trigger] self.entries@[j].0@ != name@,
            },
    {
        let mut i = self.entries.len();
        while i > 0
            invariant
                i <= self.entries@.len(),
                forall|j: int| i <= j < self.entries@.len() ==> #[trigger] self.entries@[j].0@ != name@,
            decreases i,
        {
            if str_equal(self.entries[i - 1].0.as_str(), name) {
                return Some(i - 1);
            }
            i -= 1;
        }
        None
    }

    /// The value of `name`, if it is defined.
    pub fn get(&self, name: &str) -> (r: Option<&Value>)
        ensures
            match r {
                Some(v) => self@.contains_key(name@) && self@[name@] == v@,
                None => !self@.contains_key(name@),
            },
    {
        match self.find(name) {
            Some(i) => {
                proof {
                    lemma_glookup_at(self.entries@, name@, i as int);
                }
                Some(&self.entries[i].1)
            },
            None => {
                proof {
                    lemma_glookup_none(self.entries@, name@);
                }
                None
            },
        }
    }

    /// Gives `name` the value `v`, defining it if needed.
    pub fn insert(&mut self, name: String, v: Value)
        ensures
            final(self)@ == old(self)@.insert(name@, v@),
    {
        let ghost k = name@;
        let ghost vm = v@;
        match self.find(name.as_str()) {
            Some(i) => {
                proof {
                    assert forall|q: Seq<char>| #[trigger] glookup(self.entries@.update(i as int, (name, v)), q)
                        == (if q == k { Some(vm) } else { glookup(self.entries@, q) }) by {
                        lemma_glookup_update(self.entries@, k, i as int, (name, v), q);
                    }
                }
                self.entries.set(i, (name, v));
            },
            None => {
                self.entries.push((name, v));
                assert(self.entries@.drop_last() =~= old(self).entries@);
            },
        }
        assert(self@ =~= old(self)@.insert(k, vm));
    }

    /// Replaces the value of `name`; `false`, with nothing changed, when
    /// `name` is not defined.
    pub fn set(&mut self, name: &str, v: Value) -> (r: bool)
        ensures
            r == old(self)@.contains_key(name@),
            r ==> final(self)@ == old(self)@.insert(name@, v@),
            !r ==> final(self)@ == old(self)@,
    {
        let ghost vm = v@;
        match self.find(name) {
            Some(i) => {
                let e = (name.to_owned(), v);
                proof {
                    lemma_glookup_at(self.entries@, name@, i as int);
                    assert forall|q: Seq<char>| #[trigger] glookup(self.entries@.update(i as int, e), q)
                        == (if q == name@ { Some(vm) } else { glookup(self.entries@, q) }) by {
                        lemma_glookup_update(self.entries@, name@, i as int, e, q);
                    }
                }
                self.entries.set(i, e);
                assert(self@ =~= old(self)@.insert(name@, vm));
                true
            },
            None => {
                proof {
                    lemma_glookup_none(self.entries@, name@);
                }
                false
            },
        }
    }
}

} // verus!
