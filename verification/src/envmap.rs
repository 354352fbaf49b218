//! The resolved environment: a mapping from variable names to values, kept
//! as a vector of pairs so that iteration order is the insertion order.

use vstd::prelude::*;

use crate::assoc::assoc_map;
use crate::assoc::keys_unique;
use crate::assoc::lemma_assoc_contains;
use crate::assoc::lemma_assoc_get;
use crate::assoc::lemma_assoc_push;
use crate::assoc::lemma_assoc_update;
use crate::strutil::str_eq;

verus! {

/// The character sequences of a list of string pairs.
pub open spec fn pairs_view(s: Seq<(String, String)>) -> Seq<(Seq<char>, Seq<char>)> {
    s.map_values(|p: (String, String)| (p.0@, p.1@))
}

/// A variable-name to value mapping with unique keys.
#[derive(Debug)]
pub struct EnvMap {
    entries: Vec<(String, String)>,
}

impl View for EnvMap {
    type V = Map<Seq<char>, Seq<char>>;

    open spec fn view(&self) -> Map<Seq<char>, Seq<char>> {
        assoc_map(self.entries())
    }
}

impl EnvMap {
    /// The pairs, in stored (insertion) order.
    pub closed spec fn entries(&self) -> Seq<(Seq<char>, Seq<char>)> {
        pairs_view(self.entries@)
    }

    #[verifier::type_invariant]
    spec fn inv(self) -> bool {
        keys_unique(self.entries())
    }

    /// An empty mapping.
    pub fn new() -> (r: EnvMap)
        ensures
            r@ == Map::<Seq<char>, Seq<char>>::empty(),
            r.entries() == Seq::<(Seq<char>, Seq<char>)>::empty(),
    {
        let r = EnvMap { entries: Vec::new() };
        proof {
            assert(r.entries() =~= Seq::<(Seq<char>, Seq<char>)>::empty());
        }
        r
    }

    /// How many variables are set.
    pub fn len(&self) -> (n: usize)
        ensures
            n == self.entries().len(),
    {
        self.entries.len()
    }

    fn index_of(&self, k: &str) -> (r: Option<usize>)
        ensures
            match r {
                Some(i) => i < self.entries().len() && self.entries()[i as int].0 == k@,
                None => forall|i: int| 0 <= i < self.entries().len() ==> self.entries()[i].0 != k@,
            },
    {
        let mut i: usize = 0;
        while i < self.entries.len()
            invariant
                i <= self.entries.len(),
                forall|j: int| 0 <= j < i ==> self.entries()[j].0 != k@,
            decreases self.entries.len() - i,
        {
            if str_eq(self.entries[i].0.as_str(), k) {
                return Some(i);
            }
            i += 1;
        }
        None
    }

    /// The value of `k`, when one is set.
    pub fn get(&self, k: &str) -> (r: Option<&String>)
        ensures
            match r {
                Some(v) => self@.dom().contains(k@) && v@ == self@[k@],
                None => !self@.dom().contains(k@),
            },
    {
        proof {
            use_type_invariant(self);
        }
        match self.index_of(k) {
            Some(i) => {
                proof {
                    lemma_assoc_get(self.entries(), i as int);
                }
                Some(&self.entries[i].1)
            },
            None => {
                proof {
                    lemma_assoc_contains(self.entries(), k@);
                }
                None
            },
        }
    }

    /// Sets `k` to `v`, replacing any value it had.
    pub fn insert(&mut self, k: String, v: String)
        ensures
            final(self)@ == old(self)@.insert(k@, v@),
    {
        proof {
            use_type_invariant(&*self);
        }
        let ghost pre = self.entries();
        match self.index_of(k.as_str()) {
            Some(i) => {
                proof {
                    lemma_assoc_update(pre, i as int, v@);
                    assert(pre.update(i as int, (k@, v@)) =~= pre.update(
                        i as int,
                        (pre[i as int].0, v@),
                    ));
                }
                let mut taken: Vec<(String, String)> = Vec::new();
                core::mem::swap(&mut taken, &mut self.entries);
                proof {
                    assert(self.entries() =~= Seq::<(Seq<char>, Seq<char>)>::empty());
                }
                taken[i] = (k, v);
                proof {
                    assert(pairs_view(taken@) =~= pre.update(i as int, (k@, v@)));
                }
                self.entries = taken;
                proof {
                    assert(self.entries() =~= pre.update(i as int, (k@, v@)));
                }
            },
            None => {
                proof {
                    lemma_assoc_push(pre, k@, v@);
                    assert(pairs_view(self.entries@.push((k, v))) =~= pre.push((k@, v@)));
                }
                let mut taken: Vec<(String, String)> = Vec::new();
                core::mem::swap(&mut taken, &mut self.entries);
                proof {
                    assert(self.entries() =~= Seq::<(Seq<char>, Seq<char>)>::empty());
                }
                taken.push((k, v));
                self.entries = taken;
                proof {
                    assert(self.entries() =~= pre.push((k@, v@)));
                }
            },
        }
    }

    /// An identical copy.
    pub fn duplicate(&self) -> (r: EnvMap)
        ensures
            r@ == self@,
            r.entries() == self.entries(),
    {
        proof {
            use_type_invariant(self);
        }
        let mut entries: Vec<(String, String)> = Vec::new();
        let mut i: usize = 0;
        proof {
            assert(entries@ =~= self.entries@.subrange(0, 0));
        }
        while i < self.entries.len()
            invariant
                i <= self.entries.len(),
                keys_unique(self.entries()),
                entries@ == self.entries@.subrange(0, i as int),
            decreases self.entries.len() - i,
        {
            let k = self.entries[i].0.clone();
            let v = self.entries[i].1.clone();
            proof {
                assert((k, v) =~= self.entries@[i as int]);
            }
            entries.push((k, v));
            proof {
                assert(entries@ =~= self.entries@.subrange(0, i + 1));
            }
            i += 1;
        }
        proof {
            assert(entries@ =~= self.entries@);
        }
        let r = EnvMap { entries };
        r
    }

    /// Adds every pair of `other`, overriding any key already set.
    pub fn extend_from(&mut self, other: &EnvMap)
        ensures
            final(self)@ == old(self)@.union_prefer_right(other@),
    {
        let ghost oentries = other.entries();
        let mut i: usize = 0;
        while i < other.entries.len()
            invariant
                i <= other.entries.len(),
                oentries == other.entries(),
                self@ == old(self)@.union_prefer_right(assoc_map(oentries.subrange(0, i as int))),
            decreases other.entries.len() - i,
        {
            proof {
                assert(oentries.subrange(0, i + 1).drop_last() =~= oentries.subrange(0, i as int));
                assert(oentries.subrange(0, i + 1).last() == oentries[i as int]);
                assert(old(self)@.union_prefer_right(assoc_map(oentries.subrange(0, i as int))).insert(
                    oentries[i as int].0,
                    oentries[i as int].1,
                ) =~= old(self)@.union_prefer_right(assoc_map(oentries.subrange(0, i + 1))));
            }
            let k = other.entries[i].0.clone();
            let v = other.entries[i].1.clone();
            self.insert(k, v);
            i += 1;
        }
        proof {
            assert(oentries.subrange(0, oentries.len() as int) =~= oentries);
            assert(assoc_map(oentries) == other@);
        }
    }

    /// The pairs, for enumeration; in insertion order.
    pub fn to_pairs(&self) -> (r: &Vec<(String, String)>)
        ensures
            pairs_view(r@) == self.entries(),
            assoc_map(pairs_view(r@)) == self@,
    {
        &self.entries
    }
}

} // verus!
