use vstd::prelude::*;
use crate::name::Name;
use crate::name_map::{NameMap, sorted_keys};

verus! {

/// What a name stands for under a map of bindings: its binding if it has
/// one, else the name itself.
pub open spec fn bound_name(m: Map<Name, Name>, key: Name) -> Name {
    if m.contains_key(key) { m[key] } else { key }
}

/// The map after binding `keys[i]` to `values[i]` in turn, for as many
/// pairs as both lists have; a later pair wins over an earlier one.
pub open spec fn bind_pairs(m: Map<Name, Name>, keys: Seq<Name>, values: Seq<Name>) -> Map<Name, Name>
    decreases keys.len(),
{
    if keys.len() == 0 || values.len() == 0 {
        m
    } else {
        bind_pairs(m.insert(keys[0], values[0]), keys.drop_first(), values.drop_first())
    }
}

/// Binding pairs in turn binds each key to the value at the same place,
/// as far as the shorter list goes, unless the key comes again later in
/// that range.
pub proof fn lemma_bind_pairs_at(m: Map<Name, Name>, keys: Seq<Name>, values: Seq<Name>, i: int)
    requires
        0 <= i < keys.len(),
        i < values.len(),
        forall|j: int| i < j < keys.len() && j < values.len() ==> keys[j] != keys[i],
    ensures
        bind_pairs(m, keys, values).contains_key(keys[i]),
        bind_pairs(m, keys, values)[keys[i]] == values[i],
    decreases keys.len(),
{
    if i == 0 {
        lemma_bind_pairs_other(m.insert(keys[0], values[0]), keys.drop_first(), values.drop_first(), keys[0]);
    } else {
        lemma_bind_pairs_at(m.insert(keys[0], values[0]), keys.drop_first(), values.drop_first(), i - 1);
    }
}

/// Binding pairs in turn leaves every key that is not bound in that range
/// as it was.
pub proof fn lemma_bind_pairs_other(m: Map<Name, Name>, keys: Seq<Name>, values: Seq<Name>, k: Name)
    requires
        forall|j: int| 0 <= j < keys.len() && j < values.len() ==> keys[j] != k,
    ensures
        bind_pairs(m, keys, values).contains_key(k) == m.contains_key(k),
        m.contains_key(k) ==> bind_pairs(m, keys, values)[k] == m[k],
    decreases keys.len(),
{
    if keys.len() > 0 && values.len() > 0 {
        assert(keys[0] != k);
        lemma_bind_pairs_other(m.insert(keys[0], values[0]), keys.drop_first(), values.drop_first(), k);
    }
}

/// The bindings of the names of a process: which name each name of its
/// text stands for at run time.
pub struct Bindings {
    map: NameMap,
}

impl View for Bindings {
    type V = Map<Name, Name>;

    closed spec fn view(&self) -> Map<Name, Name> {
        self.map@
    }
}

impl Bindings {
    #[verifier::type_invariant]
    closed spec fn inv(self) -> bool {
        self.map.wf()
    }

    /// The bindings as pairs, in the order of their keys.
    pub closed spec fn pairs(&self) -> Seq<(Name, Name)> {
        self.map.pairs()
    }

    /// No bindings.
    pub fn new() -> (b: Bindings)
        ensures
            b@ == Map::<Name, Name>::empty(),
    {
        Bindings { map: NameMap::new() }
    }

    /// The name that `key` stands for.
    pub fn get_name(&self, key: &Name) -> (n: Name)
        ensures
            n == bound_name(self@, *key),
    {
        proof {
            use_type_invariant(self);
        }
        match self.map.get(key) {
            Some(v) => v,
            None => *key,
        }
    }

    /// The names that `keys` stand for, in order.
    pub fn get_names(&self, keys: &[Name]) -> (v: Vec<Name>)
        ensures
            v@ == keys@.map_values(|k: Name| bound_name(self@, k)),
    {
        let mut v: Vec<Name> = Vec::new();
        let mut i: usize = 0;
        while i < keys.len()
            invariant
                i <= keys@.len(),
                v@ == keys@.subrange(0, i as int).map_values(|k: Name| bound_name(self@, k)),
            decreases keys@.len() - i,
        {
            let n = self.get_name(&keys[i]);
            v.push(n);
            i = i + 1;
            assert(v@ =~= keys@.subrange(0, i as int).map_values(|k: Name| bound_name(self@, k)));
        }
        assert(keys@.subrange(0, keys@.len() as int) =~= keys@);
        v
    }

    /// Binds `key` to `value`.
    pub fn set_name(&mut self, key: Name, value: Name)
        ensures
            final(self)@ == old(self)@.insert(key, value),
    {
        proof {
            use_type_invariant(&*self);
        }
        let mut m = NameMap::new();
        std::mem::swap(&mut m, &mut self.map);
        m.insert(key, value);
        self.map = m;
    }

    /// Binds each of `keys` to the value at the same place in `values`, as
    /// far as the shorter list goes.
    pub fn set_names(&mut self, keys: &[Name], values: Vec<Name>)
        ensures
            final(self)@ == bind_pairs(old(self)@, keys@, values@),
    {
        let mut i: usize = 0;
        assert(keys@.skip(0) =~= keys@);
        assert(values@.skip(0) =~= values@);
        while i < keys.len() && i < values.len()
            invariant
                i <= keys@.len(),
                i <= values@.len(),
                bind_pairs(old(self)@, keys@, values@) == bind_pairs(
                    self@,
                    keys@.skip(i as int),
                    values@.skip(i as int),
                ),
            decreases keys@.len() - i,
        {
            let ghost before = self@;
            self.set_name(keys[i], values[i]);
            assert(keys@.skip(i as int).drop_first() =~= keys@.skip(i + 1));
            assert(values@.skip(i as int).drop_first() =~= values@.skip(i + 1));
            i = i + 1;
        }
    }

    /// A copy of the bindings as pairs, in the order of their keys.
    pub fn clone_refs(&self) -> (v: Vec<(Name, Name)>)
        ensures
            v@ == self.pairs(),
            sorted_keys(v@),
            forall|i: int|
                0 <= i < v@.len() ==> {
                    &&& self@.contains_key(#[trigger] v@[i].0)
                    &&& self@[v@[i].0] == v@[i].1
                },
            forall|k: Name|
                #[trigger] self@.contains_key(k) ==> exists|i: int|
                    0 <= i < v@.len() && #[trigger] v@[i].0 == k,
    {
        proof {
            use_type_invariant(self);
            self.map.lemma_pairs();
        }
        self.map.to_vec()
    }
}

impl Clone for Bindings {
    fn clone(&self) -> (b: Bindings)
        ensures
            b@ == self@,
            b.pairs() == self.pairs(),
    {
        proof {
            use_type_invariant(self);
        }
        Bindings { map: self.map.duplicate() }
    }
}

} // verus!
