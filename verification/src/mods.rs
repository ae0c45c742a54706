//! The changes a reacting sequence makes: new names, and new reactions, each
//! on the channel it waits on.
use vstd::prelude::*;
use std::rc::Rc;
use crate::bindings::{Bindings, bind_pairs, bound_name, lemma_bind_pairs_at};
use crate::call::{Call, CallFrame};
use crate::channel::Channel;
use crate::name::{Name, NameStore, next_after, next_after_n, value_of};
use crate::prefix::{Prefix, PrefixDirection, rc_clone};
use crate::processor::{NamesView, names_view};
use crate::reaction::{Reaction, ReactionView, reaction_view};
use crate::reaction::sequence::translated;
use crate::refs::Refs;

verus! {

/// The names that restricting `list` gives, when the store's next instance
/// is `next`: each a new instance of the same slot.
pub open spec fn dup_names(list: Seq<Name>, next: usize) -> Seq<Name> {
    Seq::new(list.len(), |i: int| Name(list[i].slot(), next_after_n(next, i as nat)))
}

/// The entries that adding each of `ps` as a sequence under `m` makes.
pub open spec fn sequence_entries<V>(ps: Seq<Prefix<V>>, m: Map<Name, Name>) -> Seq<(Channel, ReactionView<V>)> {
    ps.map_values(|p: Prefix<V>| (translated(p, m), (false, m, seq![p])))
}

/// The entries that adding a choice among `ps` under `m` makes: one per
/// sequence, each pointing to the whole choice.
pub open spec fn choice_entries<V>(ps: Seq<Prefix<V>>, m: Map<Name, Name>) -> Seq<(Channel, ReactionView<V>)> {
    ps.map_values(|p: Prefix<V>| (translated(p, m), (true, m, ps)))
}

/// A choice added under references `m` waits, for each of its sequences,
/// on that sequence's channel with the name taken through `m`, in the same
/// direction; each entry is the whole choice, under `m`.
pub proof fn lemma_choice_entries_on_bound_channels<V>(ps: Seq<Prefix<V>>, m: Map<Name, Name>, i: int)
    requires
        0 <= i < ps.len(),
    ensures
        choice_entries(ps, m).len() == ps.len(),
        choice_entries(ps, m)[i].0.spec_name() == bound_name(m, ps[i].pname()),
        (choice_entries(ps, m)[i].0 is Read) <==> (ps[i].pdir() == PrefixDirection::Read),
        choice_entries(ps, m)[i].1 == (true, m, ps),
{
}

/// A parallel added under references `m` waits, for each of its sequences,
/// on that sequence's channel with the name taken through `m`, in the same
/// direction; each entry is that one sequence, under `m`.
pub proof fn lemma_sequence_entries_on_bound_channels<V>(ps: Seq<Prefix<V>>, m: Map<Name, Name>, i: int)
    requires
        0 <= i < ps.len(),
    ensures
        sequence_entries(ps, m).len() == ps.len(),
        sequence_entries(ps, m)[i].0.spec_name() == bound_name(m, ps[i].pname()),
        (sequence_entries(ps, m)[i].0 is Read) <==> (ps[i].pdir() == PrefixDirection::Read),
        sequence_entries(ps, m)[i].1 == (false, m, seq![ps[i]]),
{
}

/// Restricting names in the reaction layer points each of them to a new
/// instance of its own slot: a name that stands for the same value, and
/// differs from every name the store had made before.
pub proof fn lemma_new_names_same_slot<V>(m: Map<Name, Name>, list: Seq<Name>, values: Seq<Option<V>>, next: usize, i: int)
    requires
        0 <= i < list.len(),
        next + list.len() <= usize::MAX,
        forall|j: int| i < j < list.len() ==> list[j] != list[i],
    ensures
        ({
            let r = bind_pairs(m, list, dup_names(list, next));
            &&& r.contains_key(list[i])
            &&& r[list[i]].slot() == list[i].slot()
            &&& value_of(values, r[list[i]]) == value_of(values, list[i])
            &&& r[list[i]].instance() >= next
        }),
{
    let d = dup_names(list, next);
    lemma_bind_pairs_at(m, list, d, i);
}

/// The view of an entry.
pub open spec fn entry_view<V>(e: (Channel, Rc<Reaction<V>>)) -> (Channel, ReactionView<V>) {
    (e.0, reaction_view(*e.1))
}

/// New names and new reactions.
#[verifier::reject_recursive_types(V)]
pub struct Mods<V> {
    names: NameStore<V>,
    new: Vec<(Channel, Rc<Reaction<V>>)>,
}

impl<V> Mods<V> {
    /// The new reactions, each with the channel it waits on, in order.
    pub closed spec fn added(&self) -> Seq<(Channel, ReactionView<V>)> {
        self.new@.map_values(|e: (Channel, Rc<Reaction<V>>)| entry_view(e))
    }

    /// The name store.
    pub closed spec fn names(&self) -> NamesView<V> {
        names_view(self.names)
    }

    /// No new reactions yet, drawing names from `names`.
    pub fn new(names: NameStore<V>) -> (m: Mods<V>)
        ensures
            m.added() == Seq::<(Channel, ReactionView<V>)>::empty(),
            m.names() == names_view(names),
    {
        let m = Mods { names, new: Vec::new() };
        assert(m.added() =~= Seq::<(Channel, ReactionView<V>)>::empty());
        m
    }

    /// Gives back the name store, with the names drawn from it.
    pub fn into_names(self) -> (n: NameStore<V>)
        ensures
            names_view(n) == self.names(),
    {
        self.names
    }

    fn push_entry(&mut self, c: Channel, r: Rc<Reaction<V>>)
        ensures
            final(self).added() == old(self).added().push((c, reaction_view(*r))),
            final(self).names() == old(self).names(),
    {
        let ghost before = self.added();
        self.new.push((c, r));
        assert(self.added() =~= before.push((c, reaction_view(*r))));
    }

    /// Adds a choice among `sequences` under `refs`, on the channel of each.
    pub fn add_choice(&mut self, refs: Refs, sequences: Vec<Prefix<V>>)
        ensures
            final(self).added() == old(self).added() + choice_entries(sequences@, refs@),
            final(self).names() == old(self).names(),
    {
        let ghost m = refs@;
        let ghost ps = sequences@;
        let mut channels: Vec<Channel> = Vec::new();
        let mut i: usize = 0;
        while i < sequences.len()
            invariant
                i <= ps.len(),
                ps == sequences@,
                m == refs@,
                channels@ == choice_entries(ps, m).subrange(0, i as int).map_values(|e: (Channel, ReactionView<V>)| e.0),
            decreases ps.len() - i,
        {
            let c = sequences[i].channel();
            channels.push(c.clone_with(refs.get(c.name())));
            i = i + 1;
            assert(channels@ =~= choice_entries(ps, m).subrange(0, i as int).map_values(|e: (Channel, ReactionView<V>)| e.0));
        }
        assert(choice_entries(ps, m).subrange(0, ps.len() as int) =~= choice_entries(ps, m));
        let reaction = Rc::new(Reaction::new_choice(refs, sequences));
        let ghost before = self.added();
        let mut j: usize = 0;
        while j < channels.len()
            invariant
                j <= channels@.len(),
                channels@.len() == ps.len(),
                channels@ == choice_entries(ps, m).map_values(|e: (Channel, ReactionView<V>)| e.0),
                reaction_view(*reaction) == (true, m, ps),
                self.added() == before + choice_entries(ps, m).subrange(0, j as int),
                self.names() == old(self).names(),
            decreases channels@.len() - j,
        {
            self.push_entry(channels[j], rc_clone(&reaction));
            j = j + 1;
            assert(self.added() =~= before + choice_entries(ps, m).subrange(0, j as int));
        }
        assert(choice_entries(ps, m).subrange(0, ps.len() as int) =~= choice_entries(ps, m));
    }

    /// Adds each of `sequences`, in order, under copies of `refs`.
    pub fn add_parallel(&mut self, refs: Refs, sequences: Vec<Prefix<V>>)
        ensures
            final(self).added() == old(self).added() + sequence_entries(sequences@, refs@),
            final(self).names() == old(self).names(),
    {
        let ghost m = refs@;
        let ghost ps = sequences@;
        let ghost before = self.added();
        if sequences.len() > 0 {
            let last = sequences.len() - 1;
            let mut i: usize = 0;
            while i < last
                invariant
                    i <= last,
                    last == ps.len() - 1,
                    ps == sequences@,
                    m == refs@,
                    self.added() == before + sequence_entries(ps, m).subrange(0, i as int),
                    self.names() == old(self).names(),
                decreases last - i,
            {
                self.add_sequence(refs.clone(), sequences[i].clone());
                i = i + 1;
                assert(self.added() =~= before + sequence_entries(ps, m).subrange(0, i as int));
            }
            self.add_sequence(refs, sequences[last].clone());
            assert(self.added() =~= before + sequence_entries(ps, m));
        } else {
            assert(sequence_entries(ps, m) =~= Seq::<(Channel, ReactionView<V>)>::empty());
            assert(self.added() =~= before + sequence_entries(ps, m));
        }
    }

    /// Adds `sequence` under `refs`, on its channel taken through `refs`.
    pub fn add_sequence(&mut self, refs: Refs, sequence: Prefix<V>)
        ensures
            final(self).added() == old(self).added().push((translated(sequence, refs@), (false, refs@, seq![sequence]))),
            final(self).names() == old(self).names(),
    {
        let c = sequence.channel();
        let channel = c.clone_with(refs.get(c.name()));
        let reaction = Reaction::new_sequence(refs, sequence);
        self.push_entry(channel, Rc::new(reaction));
    }

    /// The value that `name` stands for, if any.
    pub fn get_value(&self, name: &Name) -> (r: Option<&V>)
        ensures
            r is Some <==> value_of(self.names().0, *name) is Some,
            r is Some ==> *r->0 == value_of(self.names().0, *name)->0,
    {
        self.names.get_value(name)
    }

    /// A new name in a new slot holding `value`.
    pub fn new_name(&mut self, value: V) -> (n: Name)
        ensures
            n == Name(old(self).names().0.len() as usize, old(self).names().1),
            final(self).names() == (old(self).names().0.push(Some(value)), next_after(old(self).names().1)),
            final(self).added() == old(self).added(),
    {
        self.names.new_name_with(value)
    }

    /// Points each of `names` in `refs` to a new instance of its own slot.
    pub fn new_names(&mut self, refs: &mut Refs, names: &[Name])
        ensures
            final(refs)@ == bind_pairs(old(refs)@, names@, dup_names(names@, old(self).names().1)),
            final(self).names() == (old(self).names().0, next_after_n(old(self).names().1, names@.len())),
            final(self).added() == old(self).added(),
    {
        let ghost r0 = refs@;
        let ghost next0 = self.names().1;
        let ghost dups = dup_names(names@, next0);
        let mut i: usize = 0;
        assert(names@.skip(0) =~= names@);
        assert(dups.skip(0) =~= dups);
        while i < names.len()
            invariant
                i <= names@.len(),
                dups == dup_names(names@, next0),
                bind_pairs(r0, names@, dups) == bind_pairs(refs@, names@.skip(i as int), dups.skip(i as int)),
                self.names() == (old(self).names().0, next_after_n(next0, i as nat)),
                next0 == old(self).names().1,
                self.added() == old(self).added(),
            decreases names@.len() - i,
        {
            let n = self.names.dup_name(&names[i]);
            assert(n == dups[i as int]);
            refs.set(names[i], n);
            assert(names@.skip(i as int).drop_first() =~= names@.skip(i + 1));
            assert(dups.skip(i as int).drop_first() =~= dups.skip(i + 1));
            assert(names@.skip(i as int)[0] == names@[i as int]);
            assert(dups.skip(i as int)[0] == dups[i as int]);
            i = i + 1;
        }
    }

    /// Runs `call` on `refs` and this name store: the call sees the
    /// references as the bindings of its frame, and the bindings it leaves
    /// become the references.
    pub(crate) fn run_call(&mut self, call: &Box<dyn Call<V>>, refs: &mut Refs)
        ensures
            final(self).added() == old(self).added(),
            call.spec_call(old(refs)@, old(self).names(), final(refs)@, final(self).names()),
    {
        let ghost r0 = refs@;
        let keys = refs.keys();
        let mut bindings = Bindings::new();
        let mut i: usize = 0;
        while i < keys.len()
            invariant
                i <= keys@.len(),
                keys@.to_set() == r0.dom(),
                refs@ == r0,
                forall|k: Name| #[trigger] bindings@.contains_key(k) ==> r0.contains_key(k) && bindings@[k] == r0[k],
                forall|j: int| 0 <= j < i ==> bindings@.contains_key(#[trigger] keys@[j]),
            decreases keys@.len() - i,
        {
            bindings.set_name(keys[i], refs.get(&keys[i]));
            proof {
                assert(keys@.to_set().contains(keys@[i as int]));
            }
            i = i + 1;
        }
        proof {
            assert forall|k: Name| r0.contains_key(k) implies #[trigger] bindings@.contains_key(k) by {
                assert(keys@.to_set().contains(k));
                let j = choose|j: int| 0 <= j < keys@.len() && keys@[j] == k;
                assert(bindings@.contains_key(keys@[j]));
            }
            assert(bindings@ =~= r0);
        }
        let mut store = NameStore::new();
        std::mem::swap(&mut store, &mut self.names);
        let mut frame = CallFrame::new(bindings, store);
        call.call(&mut frame);
        let (bindings, store) = frame.into_parts();
        self.names = store;
        let pairs = bindings.clone_refs();
        let mut back = Refs::new();
        let mut j: usize = 0;
        while j < pairs.len()
            invariant
                j <= pairs@.len(),
                forall|i: int|
                    0 <= i < pairs@.len() ==> {
                        &&& bindings@.contains_key(#[trigger] pairs@[i].0)
                        &&& bindings@[pairs@[i].0] == pairs@[i].1
                    },
                forall|k: Name| #[trigger] back@.contains_key(k) ==> bindings@.contains_key(k) && back@[k] == bindings@[k],
                forall|i: int| 0 <= i < j ==> back@.contains_key(#[trigger] pairs@[i].0),
            decreases pairs@.len() - j,
        {
            back.set(pairs[j].0, pairs[j].1);
            j = j + 1;
        }
        proof {
            assert forall|k: Name| bindings@.contains_key(k) implies #[trigger] back@.contains_key(k) by {
                let i = choose|i: int| 0 <= i < pairs@.len() && #[trigger] pairs@[i].0 == k;
                assert(back@.contains_key(pairs@[i].0));
            }
            assert(back@ =~= bindings@);
        }
        *refs = back;
    }
}

} // verus!
