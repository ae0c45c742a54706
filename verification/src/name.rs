use vstd::prelude::*;

verus! {

/// A name of the calculus.  The first number picks the value slot in the
/// `NameStore` that made the name, the second tells apart the names that
/// share a slot.  Names compare field by field, slot first.
#[derive(Debug, PartialEq, Eq, Structural, Hash, Copy, Clone, PartialOrd, Ord)]
pub struct Name(pub usize, pub usize);

impl Name {
    /// The value slot of this name.
    pub open spec fn slot(self) -> usize {
        self.0
    }

    /// The instance number of this name.
    pub open spec fn instance(self) -> usize {
        self.1
    }

    /// The name with the given slot and instance number.
    pub fn new(slot: usize, instance: usize) -> (n: Name)
        ensures
            n.slot() == slot,
            n.instance() == instance,
    {
        Name(slot, instance)
    }

    /// Names are equal exactly when slot and instance are.
    pub proof fn lemma_eq(a: Name, b: Name)
        ensures
            (a == b) <==> (a.slot() == b.slot() && a.instance() == b.instance()),
    {
    }

    /// `self` orders strictly before `other`: by slot, then by instance.
    pub fn less_than(&self, other: &Name) -> (b: bool)
        ensures
            b == name_lt(*self, *other),
    {
        self.0 < other.0 || (self.0 == other.0 && self.1 < other.1)
    }
}

/// The strict order on names: by slot, then by instance number.
pub open spec fn name_lt(a: Name, b: Name) -> bool {
    a.slot() < b.slot() || (a.slot() == b.slot() && a.instance() < b.instance())
}

/// `name_lt` is a strict total order.
pub proof fn lemma_name_order(a: Name, b: Name, c: Name)
    ensures
        !name_lt(a, a),
        name_lt(a, b) ==> !name_lt(b, a),
        name_lt(a, b) && name_lt(b, c) ==> name_lt(a, c),
        a == b || name_lt(a, b) || name_lt(b, a),
{
    Name::lemma_eq(a, b);
}

/// Makes names, and keeps the value that each name slot stands for; a slot
/// made without a value holds nothing.
#[derive(Debug)]
pub struct NameStore<V> {
    values: Vec<Option<V>>,
    next: usize,
}

impl<V> NameStore<V> {
    /// The values of the slots, slot 0 first.
    pub closed spec fn values(&self) -> Seq<Option<V>> {
        self.values@
    }

    /// The instance number that the next name will carry.
    pub closed spec fn next_instance(&self) -> usize {
        self.next
    }

    /// The names this store has handed out lie among these.
    pub open spec fn issued(&self) -> Set<Name> {
        Set::new(|n: Name| n.slot() < self.values().len() && n.instance() < self.next_instance())
    }

    /// An empty store.
    pub fn new() -> (s: NameStore<V>)
        ensures
            s.values() == Seq::<Option<V>>::empty(),
            s.next_instance() == 0,
    {
        NameStore { values: Vec::new(), next: 0 }
    }

    fn bump(&mut self)
        ensures
            final(self).values() == old(self).values(),
            final(self).next_instance() == next_after(old(self).next_instance()),
    {
        if self.next < usize::MAX {
            self.next = self.next + 1;
        }
    }

    /// A new name in a new slot that holds nothing.
    pub fn new_name(&mut self) -> (n: Name)
        ensures
            n == Name(old(self).values().len() as usize, old(self).next_instance()),
            final(self).values() == old(self).values().push(None),
            final(self).next_instance() == next_after(old(self).next_instance()),
    {
        let n = Name(self.values.len(), self.next);
        self.values.push(None);
        self.bump();
        n
    }

    /// A new name in a new slot that holds `value`.
    pub fn new_name_with(&mut self, value: V) -> (n: Name)
        ensures
            n == Name(old(self).values().len() as usize, old(self).next_instance()),
            final(self).values() == old(self).values().push(Some(value)),
            final(self).next_instance() == next_after(old(self).next_instance()),
    {
        let n = Name(self.values.len(), self.next);
        self.values.push(Some(value));
        self.bump();
        n
    }

    /// A new name in the slot of `name`: it stands for the same value, and is
    /// a different name.
    pub fn dup_name(&mut self, name: &Name) -> (n: Name)
        ensures
            n == Name(name.slot(), old(self).next_instance()),
            final(self).values() == old(self).values(),
            final(self).next_instance() == next_after(old(self).next_instance()),
    {
        let n = Name(name.0, self.next);
        self.bump();
        n
    }

    /// The value of the slot of `name`, if the slot holds one.
    pub fn get_value(&self, name: &Name) -> (r: Option<&V>)
        ensures
            r is Some <==> value_of(self.values(), *name) is Some,
            r is Some ==> *r->0 == value_of(self.values(), *name)->0,
    {
        if name.0 < self.values.len() {
            match &self.values[name.0] {
                Some(v) => Some(v),
                None => None,
            }
        } else {
            None
        }
    }

    /// A name handed out by `new_name`, `new_name_with` or `dup_name` differs
    /// from every name the store had handed out before, as long as the
    /// instance counter has not reached `usize::MAX`.
    pub proof fn lemma_fresh(s0: NameStore<V>, n: Name, s1: NameStore<V>)
        requires
            n.instance() == s0.next_instance(),
            s0.next_instance() < usize::MAX,
            s1.next_instance() == next_after(s0.next_instance()),
            s0.values().len() <= s1.values().len(),
            n.slot() < s1.values().len(),
        ensures
            !s0.issued().contains(n),
            s1.issued().contains(n),
            s0.issued().subset_of(s1.issued()),
    {
    }
}

/// The value that name `n` stands for under slot values `values`.
pub open spec fn value_of<V>(values: Seq<Option<V>>, n: Name) -> Option<V> {
    if n.slot() < values.len() {
        values[n.slot() as int]
    } else {
        None
    }
}

/// The instance counter after one step: one more, up to `usize::MAX`.
pub open spec fn next_after(i: usize) -> usize {
    if i < usize::MAX { (i + 1) as usize } else { i }
}

/// The instance counter after `k` steps.
pub open spec fn next_after_n(i: usize, k: nat) -> usize {
    if i + k <= usize::MAX { (i + k) as usize } else { usize::MAX }
}

/// A copy of a list of names.
pub(crate) fn copy_names(list: &Vec<Name>) -> (v: Vec<Name>)
    ensures
        v@ == list@,
{
    let mut v: Vec<Name> = Vec::new();
    let mut i: usize = 0;
    while i < list.len()
        invariant
            i <= list@.len(),
            v@ == list@.subrange(0, i as int),
        decreases list@.len() - i,
    {
        v.push(list[i]);
        i = i + 1;
        assert(v@ =~= list@.subrange(0, i as int));
    }
    assert(list@.subrange(0, list@.len() as int) =~= list@);
    v
}

} // verus!
