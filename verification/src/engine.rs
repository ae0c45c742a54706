use vstd::prelude::*;
use crate::bindings::Bindings;
use crate::context::index::is_ready;
use crate::context::pick;
use crate::context::store::{ContextStore, StoreView, next_pair, strip_view, spec_add};
use crate::name::{Name, NameStore, next_after, value_of};
use crate::prefix::{Prefix, PrefixDirection};
use crate::processor::{Processor, NamesView, names_view, spec_reacts, spec_head};

verus! {

/// The store right after the pair offered by `next_pair` has been taken out
/// of it, when that pair is two different contexts.
pub open spec fn after_take<V>(sv: StoreView<V>) -> StoreView<V> {
    let (n, rd, sd) = next_pair(sv.2);
    let rc = sv.0[rd.0 as int]->0;
    let sc = sv.0[sd.0 as int]->0;
    (
        sv.0.update(rd.0 as int, None).update(sd.0 as int, None),
        sv.1.push(rd.0).push(sd.0),
        strip_view(
            strip_view(sv.2.remove(n), rc, rd, n, PrefixDirection::Read),
            sc,
            sd,
            n,
            PrefixDirection::Send,
        ),
    )
}

/// One step from store `sv` and names `nv` to `sv1` and `nv1`: when some
/// name is ready, its oldest sender reacts first, and its oldest reader then
/// reacts with what the sender sent.
pub open spec fn spec_step<V>(sv: StoreView<V>, nv: NamesView<V>, sv1: StoreView<V>, nv1: NamesView<V>) -> bool {
    if forall|n: Name| !#[trigger] is_ready(sv.2, n) {
        sv1 == sv && nv1 == nv
    } else {
        let (n, rd, sd) = next_pair(sv.2);
        let rc = sv.0[rd.0 as int]->0;
        let sc = sv.0[sd.0 as int]->0;
        if rd == sd {
            sv1 == (sv.0, sv.1, sv.2.remove(n)) && nv1 == nv
        } else {
            exists|svm: StoreView<V>, nvm: NamesView<V>, out: Option<Seq<Name>>, out2: Option<Seq<Name>>|
                #[trigger] spec_reacts(
                    after_take(sv),
                    nv,
                    sc.1,
                    pick(sc.1, sc.2, n, PrefixDirection::Send)->0,
                    None,
                    svm,
                    nvm,
                    out,
                ) && #[trigger] spec_reacts(
                    svm,
                    nvm,
                    rc.1,
                    pick(rc.1, rc.2, n, PrefixDirection::Read)->0,
                    out,
                    sv1,
                    nv1,
                    out2,
                )
        }
    }
}

/// In a step where two different contexts react, the reader reacts with
/// exactly the names that the sender's communication sends (none when the
/// sender sends nothing), from the store and names that the sender's whole
/// reaction left.
pub proof fn lemma_step_hands_over<V>(sv: StoreView<V>, nv: NamesView<V>, sv1: StoreView<V>, nv1: NamesView<V>)
    requires
        spec_step(sv, nv, sv1, nv1),
        exists|n: Name| #[trigger] is_ready(sv.2, n),
        next_pair(sv.2).1 != next_pair(sv.2).2,
    ensures
        ({
            let (n, rd, sd) = next_pair(sv.2);
            let rc = sv.0[rd.0 as int]->0;
            let sc = sv.0[sd.0 as int]->0;
            let sender = pick(sc.1, sc.2, n, PrefixDirection::Send)->0;
            let reader = pick(rc.1, rc.2, n, PrefixDirection::Read)->0;
            let sent = spec_head(after_take(sv), sc.1, nv, sender, None).3;
            exists|svm: StoreView<V>, nvm: NamesView<V>, out2: Option<Seq<Name>>|
                #[trigger] spec_reacts(svm, nvm, rc.1, reader, sent, sv1, nv1, out2)
        }),
{
    let (n, rd, sd) = next_pair(sv.2);
    let rc = sv.0[rd.0 as int]->0;
    let sc = sv.0[sd.0 as int]->0;
    let sender = pick(sc.1, sc.2, n, PrefixDirection::Send)->0;
    let reader = pick(rc.1, rc.2, n, PrefixDirection::Read)->0;
    assert(!(forall|m: Name| !#[trigger] is_ready(sv.2, m)));
    let (svm, nvm, out, out2) = choose|svm: StoreView<V>, nvm: NamesView<V>, out: Option<Seq<Name>>, out2: Option<Seq<Name>>|
        #[trigger] spec_reacts(after_take(sv), nv, sc.1, sender, None, svm, nvm, out)
            && #[trigger] spec_reacts(svm, nvm, rc.1, reader, out, sv1, nv1, out2);
    assert(spec_reacts(svm, nvm, rc.1, reader, out, sv1, nv1, out2));
}

/// Runs processes of prefixes, one reaction per step.
#[verifier::reject_recursive_types(V)]
pub struct Pipl<V> {
    contexts: ContextStore<V>,
    names: NameStore<V>,
}

impl<V> Pipl<V> {
    #[verifier::type_invariant]
    closed spec fn inv(self) -> bool {
        self.contexts.wf()
    }

    /// The waiting processes.
    pub closed spec fn contexts(&self) -> StoreView<V> {
        self.contexts@
    }

    /// The name store.
    pub closed spec fn names(&self) -> NamesView<V> {
        names_view(self.names)
    }

    /// Nothing waits, and no name has been made.
    pub fn new() -> (p: Pipl<V>)
        ensures
            p.contexts() == (Seq::<Option<crate::context::CtxView<V>>>::empty(), Seq::<usize>::empty(), crate::context::index::IndexView::empty()),
            p.names() == (Seq::<Option<V>>::empty(), 0usize),
    {
        Pipl { contexts: ContextStore::new(), names: NameStore::new() }
    }

    /// Starts `prefix` as a process of its own, with no bindings.
    pub fn add(&mut self, prefix: Prefix<V>)
        ensures
            final(self).contexts() == spec_add(old(self).contexts(), (false, Map::<Name, Name>::empty(), seq![prefix])),
            final(self).names() == old(self).names(),
    {
        proof {
            use_type_invariant(&*self);
        }
        let mut c = ContextStore::new();
        std::mem::swap(&mut c, &mut self.contexts);
        let b = Bindings::new();
        c.add_prefix(b, prefix);
        self.contexts = c;
    }

    /// A new name for the value of the slot of `name`.
    pub fn dup_name(&mut self, name: &Name) -> (n: Name)
        ensures
            n == Name(name.slot(), old(self).names().1),
            final(self).names() == (old(self).names().0, next_after(old(self).names().1)),
            final(self).contexts() == old(self).contexts(),
    {
        proof {
            use_type_invariant(&*self);
        }
        let mut names = NameStore::new();
        std::mem::swap(&mut names, &mut self.names);
        let n = names.dup_name(name);
        self.names = names;
        n
    }

    /// The value that `name` stands for, if any.
    pub fn get_value(&self, name: &Name) -> (r: Option<&V>)
        ensures
            r is Some <==> value_of(self.names().0, *name) is Some,
            r is Some ==> *r->0 == value_of(self.names().0, *name)->0,
    {
        self.names.get_value(name)
    }

    /// A new name in a new slot holding `data`.
    pub fn new_name(&mut self, data: V) -> (n: Name)
        ensures
            n == Name(old(self).names().0.len() as usize, old(self).names().1),
            final(self).names() == (old(self).names().0.push(Some(data)), next_after(old(self).names().1)),
            final(self).contexts() == old(self).contexts(),
    {
        proof {
            use_type_invariant(&*self);
        }
        let mut names = NameStore::new();
        std::mem::swap(&mut names, &mut self.names);
        let n = names.new_name_with(data);
        self.names = names;
        n
    }

    /// Reacts the next ready pair, if there is one: the sender's actions run
    /// first and the names it sends are what the reader reads.
    pub fn step(&mut self)
        ensures
            spec_step(old(self).contexts(), old(self).names(), final(self).contexts(), final(self).names()),
    {
        proof {
            use_type_invariant(&*self);
        }
        let mut contexts = ContextStore::new();
        std::mem::swap(&mut contexts, &mut self.contexts);
        let ghost sv = contexts@;
        let ghost nv = self.names();
        match contexts.next() {
            Some((reader, sender)) => {
                let ghost sv1 = contexts@;
                let mut names = NameStore::new();
                std::mem::swap(&mut names, &mut self.names);
                let mut p = Processor::new(contexts, names);
                let output = p.react(sender.bindings, sender.prefix, None);
                let ghost svm = p.contexts();
                let ghost nvm = p.names();
                let ghost out = crate::processor::opt_seq(output);
                let out2 = p.react(reader.bindings, reader.prefix, output);
                let (contexts, names) = p.into_parts();
                self.contexts = contexts;
                self.names = names;
                proof {
                    let ghost o2 = crate::processor::opt_seq(out2);
                    assert(sv1 == after_take(sv));
                    assert(spec_reacts(svm, nvm, reader.bindings@, reader.prefix, out, self.contexts@, self.names(), o2));
                }
            },
            None => {
                self.contexts = contexts;
            },
        }
    }
}

} // verus!
