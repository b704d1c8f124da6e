//! The table of declared names: each name maps to the node that declared
//! it and the scope depth it was declared at.
use vstd::prelude::*;

use crate::parser::literal::str_equal;
use crate::type_checker::annotation::TypeID;

verus! {

pub struct VarEntry {
    pub name: String,
    pub id: TypeID,
    pub depth: usize,
}

/// What the entries say of `k`: the latest entry named `k` wins.
pub open spec fn lookup(s: Seq<VarEntry>, k: Seq<char>) -> Option<(TypeID, usize)>
    decreases s.len(),
{
    if s.len() == 0 {
        None
    } else if s.last().name@ == k {
        Some((s.last().id, s.last().depth))
    } else {
        lookup(s.drop_last(), k)
    }
}

/// Names of variables and functions, with their declaring node and depth.
pub struct VarMap {
    entries: Vec<VarEntry>,
}

impl View for VarMap {
    type V = Map<Seq<char>, (TypeID, usize)>;

    /// Each declared name with what its latest declaration says.
    closed spec fn view(&self) -> Map<Seq<char>, (TypeID, usize)> {
        Map::new(|k: Seq<char>| lookup(self.entries@, k) is Some, |k: Seq<char>| lookup(self.entries@, k).unwrap())
    }
}

impl VarMap {
    pub closed spec fn spec_get(&self, k: Seq<char>) -> Option<(TypeID, usize)> {
        lookup(self.entries@, k)
    }

    pub proof fn lemma_view(&self, k: Seq<char>)
        ensures
            self@.contains_key(k) <==> self.spec_get(k) is Some,
            self@.contains_key(k) ==> self.spec_get(k) == Some(self@[k]),
    {
    }

    pub fn new() -> (r: Self)
        ensures
            forall|k: Seq<char>| #[trigger] r.spec_get(k).is_none(),
            r@ == Map::<Seq<char>, (TypeID, usize)>::empty(),
    {
        let r = VarMap { entries: Vec::new() };
        assert(r@ =~= Map::<Seq<char>, (TypeID, usize)>::empty());
        r
    }

    /// What is declared under `name`.
    pub fn get(&self, name: &str) -> (r: Option<(TypeID, usize)>)
        ensures
            r == self.spec_get(name@),
            r == (if self@.contains_key(name@) { Some(self@[name@]) } else { None }),
    {
        proof {
            self.lemma_view(name@);
        }
        let mut i = self.entries.len();
        assert(self.entries@.take(i as int) =~= self.entries@);
        while i > 0
            invariant
                i <= self.entries@.len(),
                lookup(self.entries@, name@) == lookup(self.entries@.take(i as int), name@),
                self@.contains_key(name@) <==> self.spec_get(name@) is Some,
                self@.contains_key(name@) ==> self.spec_get(name@) == Some(self@[name@]),
            decreases i,
        {
            let ghost pre = self.entries@.take(i as int);
            assert(pre.drop_last() =~= self.entries@.take(i - 1));
            let e = &self.entries[i - 1];
            if str_equal(e.name.as_str(), name) {
                return Some((e.id, e.depth));
            }
            i -= 1;
        }
        None
    }

    pub fn contains_key(&self, name: &str) -> (r: bool)
        ensures
            r == self.spec_get(name@).is_some(),
            r == self@.contains_key(name@),
    {
        self.get(name).is_some()
    }

    /// Declares `name`; a later declaration of a name hides an earlier one.
    pub fn insert(&mut self, name: String, value: (TypeID, usize))
        ensures
            final(self).spec_get(name@) == Some(value),
            forall|k: Seq<char>| k != name@ ==> #[trigger] final(self).spec_get(k) == old(
                self,
            ).spec_get(k),
            final(self)@ == old(self)@.insert(name@, value),
    {
        let ghost before = self.entries@;
        let ghost key = name@;
        self.entries.push(VarEntry { name, id: value.0, depth: value.1 });
        assert(self.entries@.drop_last() =~= before);
        assert forall|k: Seq<char>| k != key implies #[trigger] lookup(self.entries@, k) == lookup(
            before,
            k,
        ) by {}
        assert(self@ =~= old(self)@.insert(key, value));
    }
}

} // verus!
