use vstd::prelude::*;
use crate::name::Name;
use crate::name_map::{NameMap, sorted_keys};
use crate::bindings::{bound_name, bind_pairs};

verus! {

/// References from names to names: `get` answers a name's reference, or the
/// name itself when it has none.
pub struct Refs {
    refs: NameMap,
}

impl View for Refs {
    type V = Map<Name, Name>;

    closed spec fn view(&self) -> Map<Name, Name> {
        self.refs@
    }
}

impl Refs {
    #[verifier::type_invariant]
    closed spec fn inv(self) -> bool {
        self.refs.wf()
    }

    /// No references.
    pub fn new() -> (r: Refs)
        ensures
            r@ == Map::<Name, Name>::empty(),
    {
        Refs { refs: NameMap::new() }
    }

    /// The reference of `key`, or `key` itself.
    pub fn get(&self, key: &Name) -> (n: Name)
        ensures
            n == bound_name(self@, *key),
    {
        proof {
            use_type_invariant(self);
        }
        match self.refs.get(key) {
            Some(v) => v,
            None => *key,
        }
    }

    /// `get` of each of `keys`, in order.
    pub fn get_names(&self, keys: &[Name]) -> (v: Vec<Name>)
        ensures
            v@ == keys@.map_values(|k: Name| bound_name(self@, k)),
    {
        let mut v: Vec<Name> = Vec::new();
        let mut i: usize = 0;
        while i < keys.len()
            invariant
                i <= keys@.len(),
                v@ == keys@.subrange(0, i as int).map_values(|k: Name| bound_name(self@, k)),
            decreases keys@.len() - i,
        {
            let n = self.get(&keys[i]);
            v.push(n);
            i = i + 1;
            assert(v@ =~= keys@.subrange(0, i as int).map_values(|k: Name| bound_name(self@, k)));
        }
        assert(keys@.subrange(0, keys@.len() as int) =~= keys@);
        v
    }

    /// The names that have a reference, each once, in increasing order.
    pub fn keys(&self) -> (v: Vec<Name>)
        ensures
            v@.to_set() == self@.dom(),
            v@.no_duplicates(),
    {
        proof {
            use_type_invariant(self);
            self.refs.lemma_pairs();
        }
        let pairs = self.refs.to_vec();
        let mut v: Vec<Name> = Vec::new();
        let mut i: usize = 0;
        while i < pairs.len()
            invariant
                i <= pairs@.len(),
                pairs@ == self.refs.pairs(),
                sorted_keys(pairs@),
                v@ == pairs@.subrange(0, i as int).map_values(|p: (Name, Name)| p.0),
            decreases pairs@.len() - i,
        {
            v.push(pairs[i].0);
            i = i + 1;
            assert(v@ =~= pairs@.subrange(0, i as int).map_values(|p: (Name, Name)| p.0));
        }
        assert(pairs@.subrange(0, pairs@.len() as int) =~= pairs@);
        proof {
            assert forall|a: int, b: int| 0 <= a < v@.len() && 0 <= b < v@.len() && a != b implies
                v@[a] != v@[b] by {
                if a < b {
                    assert(crate::name::name_lt(pairs@[a].0, pairs@[b].0));
                } else {
                    assert(crate::name::name_lt(pairs@[b].0, pairs@[a].0));
                }
                crate::name::lemma_name_order(v@[a], v@[b], v@[a]);
            }
            assert forall|k: Name| v@.to_set().contains(k) <==> self@.dom().contains(k) by {
                if self@.dom().contains(k) {
                    let i = choose|i: int| 0 <= i < pairs@.len() && #[trigger] pairs@[i].0 == k;
                    assert(v@[i] == k);
                }
                if v@.to_set().contains(k) {
                    let i = choose|i: int| 0 <= i < v@.len() && v@[i] == k;
                    assert(pairs@[i].0 == k);
                }
            }
            assert(v@.to_set() =~= self@.dom());
        }
        v
    }

    /// Makes `value` the reference of `key`.
    pub fn set(&mut self, key: Name, value: Name)
        ensures
            final(self)@ == old(self)@.insert(key, value),
    {
        proof {
            use_type_invariant(&*self);
        }
        let mut m = NameMap::new();
        std::mem::swap(&mut m, &mut self.refs);
        m.insert(key, value);
        self.refs = m;
    }

    /// `set` of each key to the value at the same place, as far as the
    /// shorter list goes.
    pub fn set_names(&mut self, keys: Vec<Name>, values: Vec<Name>)
        ensures
            final(self)@ == bind_pairs(old(self)@, keys@, values@),
    {
        let mut i: usize = 0;
        assert(keys@.skip(0) =~= keys@);
        assert(values@.skip(0) =~= values@);
        while i < keys.len() && i < values.len()
            invariant
                i <= keys@.len(),
                i <= values@.len(),
                bind_pairs(old(self)@, keys@, values@) == bind_pairs(
                    self@,
                    keys@.skip(i as int),
                    values@.skip(i as int),
                ),
            decreases keys@.len() - i,
        {
            self.set(keys[i], values[i]);
            assert(keys@.skip(i as int).drop_first() =~= keys@.skip(i + 1));
            assert(values@.skip(i as int).drop_first() =~= values@.skip(i + 1));
            i = i + 1;
        }
    }
}

impl Clone for Refs {
    fn clone(&self) -> (r: Refs)
        ensures
            r@ == self@,
    {
        proof {
            use_type_invariant(self);
        }
        Refs { refs: self.refs.duplicate() }
    }
}

} // verus!
