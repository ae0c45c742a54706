use vstd::prelude::*;
use crate::bindings::{Bindings, bound_name};
use crate::name::{Name, NameStore, next_after};
use crate::processor::{NamesView, names_view};

verus! {

/// Code that a prefix runs after its communication.  It sees the bindings
/// of the process and the name store through a `CallFrame`; what it leaves
/// there is what the rest of the process runs under.
pub trait Call<V> {
    /// Running the call can take bindings `b0` and names `n0` to bindings
    /// `b1` and names `n1`.  An implementation says here what its code does;
    /// one that says nothing promises nothing.
    open spec fn spec_call(&self, b0: Map<Name, Name>, n0: NamesView<V>, b1: Map<Name, Name>, n1: NamesView<V>) -> bool {
        true
    }

    /// Runs the code on the frame.
    fn call(&self, frame: &mut CallFrame<V>)
        ensures
            self.spec_call(
                old(frame).bindings(),
                names_view(old(frame).names()),
                final(frame).bindings(),
                names_view(final(frame).names()),
            ),
    ;
}

/// What a `Call` may read and change.
pub struct CallFrame<V> {
    bindings: Bindings,
    names: NameStore<V>,
}

impl<V> CallFrame<V> {
    /// The bindings the frame works on.
    pub closed spec fn bindings(&self) -> Map<Name, Name> {
        self.bindings@
    }

    /// The name store the frame works on.
    pub closed spec fn names(&self) -> NameStore<V> {
        self.names
    }

    /// A frame over the bindings of a process and the name store.
    pub fn new(bindings: Bindings, names: NameStore<V>) -> (f: CallFrame<V>)
        ensures
            f.bindings() == bindings@,
            f.names() == names,
    {
        CallFrame { bindings, names }
    }

    /// Gives back the bindings and the name store, as the frame left them.
    pub fn into_parts(self) -> (r: (Bindings, NameStore<V>))
        ensures
            r.0@ == self.bindings(),
            r.1 == self.names(),
    {
        (self.bindings, self.names)
    }

    /// The name that `name` stands for in this process.
    pub fn get_name(&self, name: &Name) -> (n: Name)
        ensures
            n == bound_name(self.bindings(), *name),
    {
        self.bindings.get_name(name)
    }

    /// The value of the name that `name` stands for, if the store has it.
    pub fn get_value(&self, name: &Name) -> (r: Option<&V>)
        ensures
            r is Some <==> crate::name::value_of(self.names().values(), bound_name(self.bindings(), *name)) is Some,
            r is Some ==> *r->0 == crate::name::value_of(self.names().values(), bound_name(self.bindings(), *name))->0,
    {
        let n = self.get_name(name);
        self.names.get_value(&n)
    }

    /// A new name for `value`: one the store never issued before.  When
    /// every name bound in the frame was issued by its store, the new name is
    /// unbound, so it stands for itself.
    pub fn new_name(&mut self, value: V) -> (n: Name)
        ensures
            n == Name(old(self).names().values().len() as usize, old(self).names().next_instance()),
            !old(self).names().issued().contains(n),
            (forall|k: Name| #[trigger] old(self).bindings().contains_key(k) ==> old(self).names().issued().contains(k))
                ==> bound_name(final(self).bindings(), n) == n,
            final(self).names().values() == old(self).names().values().push(Some(value)),
            final(self).names().next_instance() == next_after(old(self).names().next_instance()),
            final(self).bindings() == old(self).bindings(),
    {
        let ghost b0 = self.bindings();
        let ghost s0 = self.names();
        let n = self.names.new_name_with(value);
        proof {
            assert(!s0.issued().contains(n));
            if forall|k: Name| #[trigger] b0.contains_key(k) ==> s0.issued().contains(k) {
                assert(!b0.contains_key(n));
            }
        }
        n
    }

    /// Binds `key` to `value` in this process.
    pub fn set_name(&mut self, key: Name, value: Name)
        ensures
            final(self).bindings() == old(self).bindings().insert(key, value),
            final(self).names() == old(self).names(),
    {
        self.bindings.set_name(key, value);
    }

    /// A copy of the bindings as pairs, in key order.
    pub fn clone_refs(&self) -> (v: Vec<(Name, Name)>)
        ensures
            crate::name_map::sorted_keys(v@),
            forall|i: int|
                0 <= i < v@.len() ==> {
                    &&& self.bindings().contains_key(#[trigger] v@[i].0)
                    &&& self.bindings()[v@[i].0] == v@[i].1
                },
            forall|k: Name|
                #[trigger] self.bindings().contains_key(k) ==> exists|i: int|
                    0 <= i < v@.len() && #[trigger] v@[i].0 == k,
    {
        self.bindings.clone_refs()
    }
}

} // verus!
