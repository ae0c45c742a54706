use vstd::prelude::*;
use crate::name::{Name, name_lt, lemma_name_order};

verus! {

/// A finite map from names to names, kept as a list of pairs sorted by key,
/// so that its pairs come out in the order of the keys.
pub struct NameMap {
    entries: Vec<(Name, Name)>,
    map: Ghost<Map<Name, Name>>,
}

/// The keys of `s` are strictly increasing.
pub open spec fn sorted_keys(s: Seq<(Name, Name)>) -> bool {
    forall|i: int, j: int| 0 <= i < j < s.len() ==> name_lt(#[trigger] s[i].0, #[trigger] s[j].0)
}

impl NameMap {
    /// The map that the pairs stand for.
    pub closed spec fn view(&self) -> Map<Name, Name> {
        self.map@
    }

    /// The pairs, in the order of their keys.
    pub closed spec fn pairs(&self) -> Seq<(Name, Name)> {
        self.entries@
    }

    pub closed spec fn wf(&self) -> bool {
        &&& sorted_keys(self.entries@)
        &&& forall|i: int|
            0 <= i < self.entries@.len() ==> {
                &&& self.map@.contains_key(#[trigger] self.entries@[i].0)
                &&& self.map@[self.entries@[i].0] == self.entries@[i].1
            }
        &&& forall|k: Name|
            #[trigger] self.map@.contains_key(k) ==> exists|i: int|
                0 <= i < self.entries@.len() && #[trigger] self.entries@[i].0 == k
    }

    /// The pairs are sorted by key and hold exactly the map.
    pub proof fn lemma_pairs(&self)
        requires
            self.wf(),
        ensures
            sorted_keys(self.pairs()),
            forall|i: int|
                0 <= i < self.pairs().len() ==> {
                    &&& self@.contains_key(#[trigger] self.pairs()[i].0)
                    &&& self@[self.pairs()[i].0] == self.pairs()[i].1
                },
            forall|k: Name|
                #[trigger] self@.contains_key(k) ==> exists|i: int|
                    0 <= i < self.pairs().len() && #[trigger] self.pairs()[i].0 == k,
    {
    }

    pub fn new() -> (m: NameMap)
        ensures
            m.wf(),
            m@ == Map::<Name, Name>::empty(),
            m.pairs() == Seq::<(Name, Name)>::empty(),
    {
        NameMap { entries: Vec::new(), map: Ghost(Map::empty()) }
    }

    /// The value under `key`, if there is one.
    pub fn get(&self, key: &Name) -> (r: Option<Name>)
        requires
            self.wf(),
        ensures
            r == (if self@.contains_key(*key) { Some(self@[*key]) } else { None::<Name> }),
    {
        let mut i: usize = 0;
        while i < self.entries.len()
            invariant
                self.wf(),
                i <= self.entries@.len(),
                forall|j: int| 0 <= j < i ==> self.entries@[j].0 != *key,
            decreases self.entries@.len() - i,
        {
            if self.entries[i].0 == *key {
                return Some(self.entries[i].1);
            }
            i = i + 1;
        }
        None
    }

    /// Maps `key` to `value`, replacing what it mapped to before.
    pub fn insert(&mut self, key: Name, value: Name)
        requires
            old(self).wf(),
        ensures
            final(self).wf(),
            final(self)@ == old(self)@.insert(key, value),
    {
        let mut p: usize = 0;
        while p < self.entries.len() && self.entries[p].0.less_than(&key)
            invariant
                self.wf(),
                p <= self.entries@.len(),
                forall|j: int| 0 <= j < p ==> name_lt(#[trigger] self.entries@[j].0, key),
            decreases self.entries@.len() - p,
        {
            p = p + 1;
        }
        let ghost old_entries = self.entries@;
        if p < self.entries.len() && self.entries[p].0 == key {
            self.entries.set(p, (key, value));
            proof {
                self.map@ = self.map@.insert(key, value);
                assert forall|i: int| 0 <= i < self.entries@.len() && i != p implies
                    self.entries@[i].0 != key by {
                    lemma_name_order(old_entries[i].0, key, key);
                }
                assert forall|k: Name| #[trigger] self.map@.contains_key(k) implies exists|i: int|
                    0 <= i < self.entries@.len() && #[trigger] self.entries@[i].0 == k by {
                    if k != key {
                        let i = choose|i: int| 0 <= i < old_entries.len() && #[trigger] old_entries[i].0 == k;
                        assert(self.entries@[i].0 == k);
                    } else {
                        assert(self.entries@[p as int].0 == k);
                    }
                }
            }
        } else {
            proof {
                if p < old_entries.len() {
                    lemma_name_order(old_entries[p as int].0, key, key);
                    assert(name_lt(key, old_entries[p as int].0));
                }
            }
            self.entries.insert(p, (key, value));
            proof {
                self.map@ = self.map@.insert(key, value);
                assert forall|i: int| 0 <= i < old_entries.len() implies old_entries[i].0 != key by {
                    if i < p {
                        lemma_name_order(old_entries[i].0, key, key);
                    } else {
                        lemma_name_order(key, old_entries[p as int].0, old_entries[i].0);
                        if i > p {
                            assert(name_lt(old_entries[p as int].0, old_entries[i].0));
                        }
                        lemma_name_order(key, old_entries[i].0, key);
                    }
                }
                assert forall|i: int, j: int| 0 <= i < j < self.entries@.len() implies
                    name_lt(#[trigger] self.entries@[i].0, #[trigger] self.entries@[j].0) by {
                    if j < p {
                    } else if j == p {
                    } else if i < p {
                        lemma_name_order(old_entries[i].0, key, old_entries[p as int].0);
                        if j - 1 > p {
                            assert(name_lt(old_entries[p as int].0, old_entries[j - 1].0));
                        }
                        lemma_name_order(old_entries[i].0, old_entries[p as int].0, old_entries[j - 1].0);
                    } else if i == p {
                        if j - 1 > p {
                            assert(name_lt(old_entries[p as int].0, old_entries[j - 1].0));
                        }
                        lemma_name_order(key, old_entries[p as int].0, old_entries[j - 1].0);
                    } else {
                        assert(self.entries@[i].0 == old_entries[i - 1].0);
                        assert(self.entries@[j].0 == old_entries[j - 1].0);
                    }
                }
                assert forall|i: int| 0 <= i < self.entries@.len() implies {
                    &&& self.map@.contains_key(#[trigger] self.entries@[i].0)
                    &&& self.map@[self.entries@[i].0] == self.entries@[i].1
                } by {
                    if i < p {
                        assert(self.entries@[i] == old_entries[i]);
                    } else if i > p {
                        assert(self.entries@[i] == old_entries[i - 1]);
                    }
                }
                assert forall|k: Name| #[trigger] self.map@.contains_key(k) implies exists|i: int|
                    0 <= i < self.entries@.len() && #[trigger] self.entries@[i].0 == k by {
                    if k != key {
                        let i = choose|i: int| 0 <= i < old_entries.len() && #[trigger] old_entries[i].0 == k;
                        if i < p {
                            assert(self.entries@[i].0 == k);
                        } else {
                            assert(self.entries@[i + 1].0 == k);
                        }
                    } else {
                        assert(self.entries@[p as int].0 == k);
                    }
                }
            }
        }
    }

    /// A copy of the pairs, in key order.
    pub fn to_vec(&self) -> (v: Vec<(Name, Name)>)
        ensures
            v@ == self.pairs(),
    {
        let mut v: Vec<(Name, Name)> = Vec::new();
        let mut i: usize = 0;
        while i < self.entries.len()
            invariant
                i <= self.entries@.len(),
                v@ == self.entries@.subrange(0, i as int),
            decreases self.entries@.len() - i,
        {
            v.push(self.entries[i]);
            i = i + 1;
            assert(v@ =~= self.entries@.subrange(0, i as int));
        }
        assert(v@ =~= self.entries@);
        v
    }

    /// An equal copy.
    pub fn duplicate(&self) -> (m: NameMap)
        requires
            self.wf(),
        ensures
            m.wf(),
            m@ == self@,
            m.pairs() == self.pairs(),
    {
        NameMap { entries: self.to_vec(), map: Ghost(self.map@) }
    }
}

} // verus!
